//! The contact form: a checked submission is posted to the bot channel.
use vstd::prelude::*;
use vstd::string::*;

use crate::contacts::FormResponse;
use crate::json::{is_json_string_literal, json_quote, json_string, lemma_json_quote_reads_back};
use crate::turnstile::TurnstileResult;

verus! {

/// A submitted contact form, with its Turnstile token.
#[derive(Debug, Clone)]
pub struct ContactFormInput {
    pub cf_turnstile_response: String,
    pub first_name: String,
    pub last_name: String,
    pub email: String,
    pub phone: String,
    pub howhear: String,
    pub comment: String,
}

/// The JSON text of a contact form, fields in declaration order.
pub open spec fn form_response_text(
    first_name: Seq<char>,
    last_name: Seq<char>,
    email: Seq<char>,
    phone: Seq<char>,
    howhear: Seq<char>,
    comment: Seq<char>,
    city: Seq<char>,
) -> Seq<char> {
    "{\"first_name\":"@ + json_quote(first_name) + ",\"last_name\":"@ + json_quote(last_name)
        + ",\"email\":"@ + json_quote(email) + ",\"phone\":"@ + json_quote(phone) + ",\"howhear\":"@
        + json_quote(howhear) + ",\"comment\":"@ + json_quote(comment) + ",\"city\":"@ + json_quote(
        city,
    ) + "}"@
}

/// The contact message is JSON: an object whose `first_name`,
/// `last_name`, `email`, `phone`, `howhear`, `comment` and `city` members
/// are string literals that read back as the form's texts.
pub proof fn lemma_form_message_is_json(
    first_name: Seq<char>,
    last_name: Seq<char>,
    email: Seq<char>,
    phone: Seq<char>,
    howhear: Seq<char>,
    comment: Seq<char>,
    city: Seq<char>,
)
    ensures
        exists|l1: Seq<char>, l2: Seq<char>, l3: Seq<char>, l4: Seq<char>, l5: Seq<char>, l6: Seq<char>, l7: Seq<char>|
            {
                &&& is_json_string_literal(l1, first_name)
                &&& is_json_string_literal(l2, last_name)
                &&& is_json_string_literal(l3, email)
                &&& is_json_string_literal(l4, phone)
                &&& is_json_string_literal(l5, howhear)
                &&& is_json_string_literal(l6, comment)
                &&& is_json_string_literal(l7, city)
                &&& form_response_text(first_name, last_name, email, phone, howhear, comment, city)
                    == "{\"first_name\":"@ + l1 + ",\"last_name\":"@ + l2 + ",\"email\":"@ + l3 + ",\"phone\":"@
                    + l4 + ",\"howhear\":"@ + l5 + ",\"comment\":"@ + l6 + ",\"city\":"@ + l7 + "}"@
            },
{
    lemma_json_quote_reads_back(first_name);
    lemma_json_quote_reads_back(last_name);
    lemma_json_quote_reads_back(email);
    lemma_json_quote_reads_back(phone);
    lemma_json_quote_reads_back(howhear);
    lemma_json_quote_reads_back(comment);
    lemma_json_quote_reads_back(city);
    let l1 = json_quote(first_name);
    let l2 = json_quote(last_name);
    let l3 = json_quote(email);
    let l4 = json_quote(phone);
    let l5 = json_quote(howhear);
    let l6 = json_quote(comment);
    let l7 = json_quote(city);
    assert(form_response_text(first_name, last_name, email, phone, howhear, comment, city)
        == "{\"first_name\":"@ + l1 + ",\"last_name\":"@ + l2 + ",\"email\":"@ + l3 + ",\"phone\":"@ + l4
        + ",\"howhear\":"@ + l5 + ",\"comment\":"@ + l6 + ",\"city\":"@ + l7 + "}"@);
}

/// Writes a contact form as JSON.
pub fn form_response_json(form: &FormResponse) -> (text: String)
    ensures
        text@ == form_response_text(
            form.first_name@,
            form.last_name@,
            form.email@,
            form.phone@,
            form.howhear@,
            form.comment@,
            form.city@,
        ),
{
    let mut text = String::new();
    text.append("{\"first_name\":");
    text.append(json_string(form.first_name.as_str()).as_str());
    text.append(",\"last_name\":");
    text.append(json_string(form.last_name.as_str()).as_str());
    text.append(",\"email\":");
    text.append(json_string(form.email.as_str()).as_str());
    text.append(",\"phone\":");
    text.append(json_string(form.phone.as_str()).as_str());
    text.append(",\"howhear\":");
    text.append(json_string(form.howhear.as_str()).as_str());
    text.append(",\"comment\":");
    text.append(json_string(form.comment.as_str()).as_str());
    text.append(",\"city\":");
    text.append(json_string(form.city.as_str()).as_str());
    text.append("}");
    text
}

/// What happens to the contact-form handler: a form arrives with the
/// result of its Turnstile check and the configured bot channel, or the
/// post of the form to the channel went through (`delivered`) or not.
#[derive(Debug)]
pub enum FormEvent {
    Submitted {
        validation: TurnstileResult,
        bot_channel: Option<String>,
        group_location: String,
        input: ContactFormInput,
    },
    Sent { delivered: bool },
}

/// What the contact-form handler does next.
#[derive(Debug, Clone)]
pub enum FormStep {
    /// Answer with this status and the Turnstile result.
    Reject(u16),
    /// Post `content` to the channel `channel_id`.
    Send { channel_id: String, content: String },
    /// Redirect the author to this page.
    Redirect(&'static str),
}

/// The contact-form handler. A submitted form whose Turnstile check failed
/// is forbidden; without a configured bot channel it is a server error;
/// else the form, with the group location as its city, is posted to the
/// channel as JSON. Once posted, the author is redirected to the thanks
/// page; a failed post is a server error.
pub fn accept_form(event: FormEvent) -> (step: FormStep)
    ensures
        event matches FormEvent::Submitted { validation, bot_channel, group_location, input } ==> {
            &&& !validation.success ==> step == FormStep::Reject(403)
            &&& validation.success && bot_channel is None ==> step == FormStep::Reject(500)
            &&& validation.success && bot_channel is Some ==> (step matches FormStep::Send { channel_id, content }
                && bot_channel == Some(channel_id) && content@ == form_response_text(
                input.first_name@,
                input.last_name@,
                input.email@,
                input.phone@,
                input.howhear@,
                input.comment@,
                group_location@,
            ))
        },
        event matches FormEvent::Sent { delivered } ==> {
            &&& delivered ==> (step matches FormStep::Redirect(path) && path@ == "/pages/thanks"@)
            &&& !delivered ==> step == FormStep::Reject(500)
        },
{
    match event {
        FormEvent::Submitted { validation, bot_channel, group_location, input } => {
            if !validation.success {
                return FormStep::Reject(403);
            }
            let channel_id = match bot_channel {
                Some(c) => c,
                None => return FormStep::Reject(500),
            };
            let form = FormResponse {
                first_name: input.first_name,
                last_name: input.last_name,
                email: input.email,
                phone: input.phone,
                howhear: input.howhear,
                comment: input.comment,
                city: group_location,
            };
            let content = form_response_json(&form);
            FormStep::Send { channel_id, content }
        },
        FormEvent::Sent { delivered } => {
            if delivered {
                FormStep::Redirect("/pages/thanks")
            } else {
                FormStep::Reject(500)
            }
        },
    }
}

} // verus!
