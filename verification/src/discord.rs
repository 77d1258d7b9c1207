//! Discord: signed interactions, the contact report command, and the REST
//! requests the worker makes to the bot channel.
use vstd::prelude::*;
use vstd::string::*;

use crate::clock::{is_clock_reading, week_before, ClockReading};
use crate::contacts::{contacts_csv, create_contacts_csv, ContactMessage};
use crate::json::{is_json_string_literal, json_quote, json_string, lemma_json_quote_reads_back};
use crate::signature::{
    key_text_is_sliceable, key_text_slices_cleanly, parse_public_key, parse_signature, public_key_of, signature_bytes_of,
    signature_text_ok, verify_strict, ed25519_verify_strict,
};
use crate::text::{concat_bytes, str_eq, text_or_empty};

verus! {

/// What the verification of an interaction's signature answers: `Ok` when
/// the timestamp header is present, the signature header is a signature
/// text, the configured public key is a key text of a curve point, and the
/// signature verifies strictly over the timestamp followed by the body;
/// else the status to answer with.
pub open spec fn signature_verdict(
    signature: Option<&str>,
    timestamp: Option<&str>,
    public_key: Option<&str>,
    body: Seq<u8>,
) -> Result<(), u16> {
    match timestamp {
        None => Err(401),
        Some(t) => match signature {
            None => Err(401),
            Some(s) => if !signature_text_ok(s.spec_bytes()) {
                Err(401)
            } else {
                match public_key {
                    None => Err(500),
                    Some(k) => match public_key_of(k) {
                        None => Err(500),
                        Some(key) => if ed25519_verify_strict(
                            key,
                            t.spec_bytes() + body,
                            signature_bytes_of(s.spec_bytes()),
                        ) {
                            Ok(())
                        } else {
                            Err(401)
                        },
                    },
                }
            },
        },
    }
}

/// The configured key is read only once both headers are usable; reading
/// it slices the key text, which must not cut a character.
pub open spec fn signature_check_reads_key_cleanly(
    signature: Option<&str>,
    timestamp: Option<&str>,
    public_key: Option<&str>,
) -> bool {
    match (timestamp, signature, public_key) {
        (Some(_), Some(s), Some(k)) => signature_text_ok(s.spec_bytes()) ==> key_text_slices_cleanly(k),
        _ => true,
    }
}

/// Decides whether checking these headers reads the key text without
/// cutting a character (the condition `check_interaction_signature` needs).
pub fn reads_key_cleanly(signature: Option<&str>, timestamp: Option<&str>, public_key: Option<&str>) -> (ok:
    bool)
    ensures
        ok == signature_check_reads_key_cleanly(signature, timestamp, public_key),
{
    match (timestamp, signature, public_key) {
        (Some(_), Some(s), Some(k)) => {
            if parse_signature(s).is_some() {
                key_text_is_sliceable(k)
            } else {
                true
            }
        },
        _ => true,
    }
}

/// Checks the `X-Signature-Ed25519` and `X-Signature-Timestamp` headers of
/// an interaction against the application's public key (hex text).
pub fn check_interaction_signature(
    signature: Option<&str>,
    timestamp: Option<&str>,
    public_key: Option<&str>,
    body: &[u8],
) -> (verdict: Result<(), u16>)
    requires
        signature_check_reads_key_cleanly(signature, timestamp, public_key),
    ensures
        verdict == signature_verdict(signature, timestamp, public_key, body@),
{
    let parsed = match signature {
        Some(s) => parse_signature(s),
        None => None,
    };
    let t = match timestamp {
        Some(t) => t,
        None => return Err(401),
    };
    let sig = match parsed {
        Some(sig) => sig,
        None => return Err(401),
    };
    let k = match public_key {
        Some(k) => k,
        None => return Err(500),
    };
    let key = match parse_public_key(k) {
        Some(key) => key,
        None => return Err(500),
    };
    let signed = concat_bytes(t.as_bytes(), body);
    if !verify_strict(&key, signed.as_slice(), &sig) {
        return Err(401);
    }
    Ok(())
}

/// What the handler reads of an interaction's JSON body: `channel_id`,
/// `type`, `data.name` and `data.options[0].value`, each when present with
/// the expected JSON type.
#[derive(Debug, Clone)]
pub struct Interaction {
    pub channel_id: Option<String>,
    pub kind: Option<u64>,
    pub command: Option<String>,
    pub argument: Option<String>,
}

/// Where an interaction goes.
#[derive(Debug, Clone, PartialEq, Eq)]
pub enum InteractionRoute {
    /// Answer with this status and no body.
    Reject(u16),
    /// Answer a ping with `{"type":1}`.
    Pong,
    /// Export the contacts of the group location `argument`.
    Report { argument: String },
    /// The body has no `channel_id` text: the handler cannot go on.
    Abort,
    /// Answer the report with the message `payload_json` and the CSV
    /// attachment `export.csv` holding `csv`.
    Attach { payload_json: &'static str, csv: String },
}

/// Where a verified interaction goes, given its parsed body (`None` when
/// the body is not JSON) and the configured bot channel.
pub open spec fn interaction_route(interaction: Option<Interaction>, bot_channel: Option<&str>) -> InteractionRoute {
    match interaction {
        None => InteractionRoute::Reject(400),
        Some(i) => match i.channel_id {
            None => InteractionRoute::Abort,
            Some(channel) => match bot_channel {
                None => InteractionRoute::Reject(400),
                Some(bot) => if channel@ != bot@ {
                    InteractionRoute::Reject(400)
                } else if i.kind == Some(1u64) {
                    InteractionRoute::Pong
                } else if i.kind == Some(2u64) {
                    if text_or_empty(i.command) != "report"@ || text_or_empty(i.argument).len() == 0 {
                        InteractionRoute::Reject(400)
                    } else {
                        InteractionRoute::Report { argument: i.argument->0 }
                    }
                } else {
                    InteractionRoute::Reject(400)
                },
            },
        },
    }
}

/// A text's characters, when it is present.
pub open spec fn text_view(s: Option<String>) -> Option<Seq<char>> {
    match s {
        Some(s) => Some(s@),
        None => None,
    }
}

/// What an interaction holds, as plain values: `channel_id`, `type`,
/// `data.name` and `data.options[0].value` (`None` for a body that is not JSON).
pub open spec fn interaction_view(i: Option<Interaction>) -> Option<
    (Option<Seq<char>>, Option<u64>, Option<Seq<char>>, Option<Seq<char>>),
> {
    match i {
        None => None,
        Some(i) => Some((text_view(i.channel_id), i.kind, text_view(i.command), text_view(i.argument))),
    }
}

/// What `serde_json::from_slice::<serde_json::Value>` followed by the reads
/// of `channel_id` (text), `type` (`u64`), `data.name` (text) and
/// `data.options[0].value` (text) gives for the body `body`; `None` when
/// the body is not JSON.
pub uninterp spec fn interaction_fields(body: Seq<u8>) -> Option<
    (Option<Seq<char>>, Option<u64>, Option<Seq<char>>, Option<Seq<char>>),
>;

/// Calls `serde_json::from_slice::<serde_json::Value>` on the body and
/// reads `channel_id` and `data.name` with `as_str`, `type` with `as_u64`,
/// and `data.options[0].value` with `as_str` (indexing a missing key, a
/// non-array or a missing element gives `Value::Null`). Claimed: the result
/// is a function of the body's bytes alone.
#[verifier::external_body]
pub(crate) fn read_interaction(body: &[u8]) -> (i: Option<Interaction>)
    ensures
        interaction_view(i) == interaction_fields(body@),
{
    match serde_json::from_slice::<serde_json::Value>(body) {
        Ok(v) => Some(Interaction {
            channel_id: v["channel_id"].as_str().map(String::from),
            kind: v["type"].as_u64(),
            command: v["data"]["name"].as_str().map(String::from),
            argument: v["data"]["options"][0]["value"].as_str().map(String::from),
        }),
        Err(_) => None,
    }
}

/// The route of an interaction request whose body was read as `interaction`:
/// first its signature, then its body.
pub open spec fn discord_route(
    signature: Option<&str>,
    timestamp: Option<&str>,
    public_key: Option<&str>,
    body: Seq<u8>,
    interaction: Option<Interaction>,
    bot_channel: Option<&str>,
) -> InteractionRoute {
    match signature_verdict(signature, timestamp, public_key, body) {
        Err(status) => InteractionRoute::Reject(status),
        Ok(()) => interaction_route(interaction, bot_channel),
    }
}

/// `route` answers the interaction request with these headers, key, body
/// and bot channel: the status of a failed signature check, else the route
/// of what the body reads as.
pub open spec fn is_interaction_answer(
    signature: Option<&str>,
    timestamp: Option<&str>,
    public_key: Option<&str>,
    body: Seq<u8>,
    bot_channel: Option<&str>,
    route: InteractionRoute,
) -> bool {
    match signature_verdict(signature, timestamp, public_key, body) {
        Err(status) => route == InteractionRoute::Reject(status),
        Ok(()) => exists|i: Option<Interaction>|
            interaction_view(i) == interaction_fields(body) && route == #[trigger] interaction_route(
                i,
                bot_channel,
            ),
    }
}

/// The request is signed: both signature headers are present, the
/// signature header is a signature text, the configured key text reads as
/// a curve point, and the signature verifies strictly, under that key,
/// over the timestamp followed by the body.
pub open spec fn is_signed_request(
    signature: Option<&str>,
    timestamp: Option<&str>,
    public_key: Option<&str>,
    body: Seq<u8>,
) -> bool {
    &&& timestamp is Some && signature is Some && public_key is Some
    &&& signature_text_ok(signature->0.spec_bytes())
    &&& public_key_of(public_key->0) is Some
    &&& ed25519_verify_strict(
        public_key_of(public_key->0)->0,
        timestamp->0.spec_bytes() + body,
        signature_bytes_of(signature->0.spec_bytes()),
    )
}

/// Only a signed request gets past the signature gate: every answer other
/// than 401 and 500 needs a signed request. A ping answer or a report
/// further needs a body that reads as JSON whose `channel_id` is the bot
/// channel; a ping has `type` 1; a report has `type` 2, the command
/// `report` and a non-empty first option, which is the report's argument.
pub proof fn lemma_answered_interactions_are_signed(
    signature: Option<&str>,
    timestamp: Option<&str>,
    public_key: Option<&str>,
    body: Seq<u8>,
    bot_channel: Option<&str>,
    route: InteractionRoute,
)
    requires
        is_interaction_answer(signature, timestamp, public_key, body, bot_channel, route),
    ensures
        route != InteractionRoute::Reject(401) && route != InteractionRoute::Reject(500) ==> is_signed_request(
            signature,
            timestamp,
            public_key,
            body,
        ),
        route is Pong || route is Report ==> {
            &&& bot_channel is Some
            &&& (interaction_fields(body) matches Some(f) && f.0 == Some(bot_channel->0@))
        },
        route is Pong ==> (interaction_fields(body) matches Some(f) && f.1 == Some(1u64)),
        route matches InteractionRoute::Report { argument } ==> {
            &&& interaction_fields(body) matches Some(f)
            &&& f.1 == Some(2u64)
            &&& f.2 == Some("report"@)
            &&& f.3 == Some(argument@)
            &&& argument@.len() > 0
        },
{
    match signature_verdict(signature, timestamp, public_key, body) {
        Err(status) => {},
        Ok(()) => {
            let i = choose|i: Option<Interaction>|
                interaction_view(i) == interaction_fields(body) && route == #[trigger] interaction_route(
                    i,
                    bot_channel,
                );
            if route is Pong || route is Report {
                assert(i is Some);
            }
            if route is Report {
                assert(text_or_empty(i->0.command) == "report"@);
                assert(i->0.command is Some) by {
                    reveal_strlit("report");
                }
            }
        },
    }
}

/// Every signed request passes the signature gate, whatever its body, and
/// only signed ones do: the verdict is `Ok` exactly when both headers are
/// present, the signature header is a signature text, the key text reads
/// as a curve point, and the signature verifies strictly, under that key,
/// over the timestamp followed by the body.
pub proof fn lemma_signed_requests_pass_the_gate(
    signature: Option<&str>,
    timestamp: Option<&str>,
    public_key: Option<&str>,
    body: Seq<u8>,
)
    ensures
        signature_verdict(signature, timestamp, public_key, body) is Ok <==> {
            &&& timestamp is Some && signature is Some && public_key is Some
            &&& signature_text_ok(signature->0.spec_bytes())
            &&& public_key_of(public_key->0) is Some
            &&& ed25519_verify_strict(
                public_key_of(public_key->0)->0,
                timestamp->0.spec_bytes() + body,
                signature_bytes_of(signature->0.spec_bytes()),
            )
        },
{
}

/// A signed request is answered by its body, never by a 401 or a 500.
pub proof fn lemma_signed_requests_are_routed(
    signature: Option<&str>,
    timestamp: Option<&str>,
    public_key: Option<&str>,
    body: Seq<u8>,
    bot_channel: Option<&str>,
    route: InteractionRoute,
)
    requires
        is_interaction_answer(signature, timestamp, public_key, body, bot_channel, route),
        timestamp is Some && signature is Some && public_key is Some,
        signature_text_ok(signature->0.spec_bytes()),
        public_key_of(public_key->0) is Some,
        ed25519_verify_strict(
            public_key_of(public_key->0)->0,
            timestamp->0.spec_bytes() + body,
            signature_bytes_of(signature->0.spec_bytes()),
        ),
    ensures
        route != InteractionRoute::Reject(401),
        route != InteractionRoute::Reject(500),
        exists|i: Option<Interaction>|
            interaction_view(i) == interaction_fields(body) && route == #[trigger] interaction_route(i, bot_channel),
{
    lemma_signed_requests_pass_the_gate(signature, timestamp, public_key, body);
}

/// Decides where an interaction goes once its signature verified.
pub fn route_interaction(interaction: Option<Interaction>, bot_channel: Option<&str>) -> (route: InteractionRoute)
    ensures
        route == interaction_route(interaction, bot_channel),
{
    let i = match interaction {
        Some(i) => i,
        None => return InteractionRoute::Reject(400),
    };
    let channel = match &i.channel_id {
        Some(c) => c,
        None => return InteractionRoute::Abort,
    };
    let bot = match bot_channel {
        Some(b) => b,
        None => return InteractionRoute::Reject(400),
    };
    if !str_eq(channel.as_str(), bot) {
        return InteractionRoute::Reject(400);
    }
    match i.kind {
        Some(1) => {
            InteractionRoute::Pong
        },
        Some(2) => {
            let command: &str = match &i.command {
                Some(c) => c.as_str(),
                None => "",
            };
            let argument: &str = match &i.argument {
                Some(a) => a.as_str(),
                None => "",
            };
            proof {
                reveal_strlit("");
            }
            assert(command@ == text_or_empty(i.command));
            assert(argument@ == text_or_empty(i.argument));
            if !str_eq(command, "report") || argument.is_empty() {
                return InteractionRoute::Reject(400);
            }
            match i.argument {
                Some(a) => InteractionRoute::Report { argument: a },
                None => InteractionRoute::Reject(400),
            }
        },
        _ => InteractionRoute::Reject(400),
    }
}

/// What happens to the interaction handler: a request arrives with its
/// signature headers, the configured public key and bot channel, and its
/// body; or, for a report of the group location `argument`, the channel's
/// messages were fetched (`None` when that failed) and the bot's user id
/// was read from the configuration.
#[derive(Debug)]
pub enum InteractionEvent<'a> {
    Request {
        signature: Option<&'a str>,
        timestamp: Option<&'a str>,
        public_key: Option<&'a str>,
        body: &'a [u8],
        bot_channel: Option<&'a str>,
    },
    Messages { messages: Option<Vec<ContactMessage>>, bot_user_id: Option<&'a str>, argument: &'a str },
}

/// The message answering the report command: one attachment, `export.csv`.
pub open spec fn report_payload_text() -> Seq<char> {
    "{\"data\":{\"attachments\":[{\"filename\":\"export.csv\",\"id\":0}],\"content\":\"Contacts export from last 7 days\"},\"type\":4}"@
}

/// `route` answers the fetched `messages` of a report for `argument`: 400
/// when they could not be fetched, 500 without the bot's user id, else the
/// report message with the export of the last seven days at one reading of
/// the clock.
pub open spec fn is_report_answer(
    messages: Option<Vec<ContactMessage>>,
    bot_user_id: Option<&str>,
    argument: Seq<char>,
    route: InteractionRoute,
) -> bool {
    match messages {
        None => route == InteractionRoute::Reject(400),
        Some(msgs) => match bot_user_id {
            None => route == InteractionRoute::Reject(500),
            Some(bot) => route matches InteractionRoute::Attach { payload_json, csv } && payload_json@
                == report_payload_text() && exists|now: ClockReading|
                is_clock_reading(now) && csv@ == contacts_csv(msgs@, bot@, argument, week_before(now)),
        },
    }
}

/// The interaction handler. A request is answered by its signature check
/// and then by its body, read as JSON; a report, once the channel's
/// messages were fetched, is answered with the CSV export of the last
/// seven days.
pub fn discord_interaction(event: InteractionEvent) -> (route: InteractionRoute)
    requires
        event matches InteractionEvent::Request { signature, timestamp, public_key, .. }
            ==> signature_check_reads_key_cleanly(signature, timestamp, public_key),
    ensures
        event matches InteractionEvent::Request { signature, timestamp, public_key, body, bot_channel }
            ==> is_interaction_answer(signature, timestamp, public_key, body@, bot_channel, route),
        event matches InteractionEvent::Messages { messages, bot_user_id, argument } ==> is_report_answer(
            messages,
            bot_user_id,
            argument@,
            route,
        ),
{
    match event {
        InteractionEvent::Request { signature, timestamp, public_key, body, bot_channel } => {
            match check_interaction_signature(signature, timestamp, public_key, body) {
                Err(status) => InteractionRoute::Reject(status),
                Ok(()) => {
                    let interaction = read_interaction(body);
                    let route = route_interaction(interaction, bot_channel);
                    assert(interaction_view(interaction) == interaction_fields(body@) && route
                        == interaction_route(interaction, bot_channel));
                    route
                },
            }
        },
        InteractionEvent::Messages { messages, bot_user_id, argument } => {
            let msgs = match messages {
                Some(m) => m,
                None => return InteractionRoute::Reject(400),
            };
            let bot = match bot_user_id {
                Some(b) => b,
                None => return InteractionRoute::Reject(500),
            };
            let ghost all = msgs@;
            let csv = create_contacts_csv(bot, argument, msgs);
            assert(all == msgs@);
            InteractionRoute::Attach { payload_json: report_payload_json(), csv }
        },
    }
}

/// The body answering a ping interaction.
pub fn pong_json() -> (body: &'static str)
    ensures
        body@ == "{\"type\":1}"@,
{
    "{\"type\":1}"
}

/// The `payload_json` part answering the report command.
pub fn report_payload_json() -> (body: &'static str)
    ensures
        body@ == report_payload_text(),
{
    "{\"data\":{\"attachments\":[{\"filename\":\"export.csv\",\"id\":0}],\"content\":\"Contacts export from last 7 days\"},\"type\":4}"
}

/// The address of a channel's messages.
pub open spec fn channel_messages_url(channel_id: Seq<char>) -> Seq<char> {
    "https://discord.com/api/v10/channels/"@ + channel_id + "/messages"@
}

/// Where to post a message to `channel_id`.
pub fn message_post_url(channel_id: &str) -> (url: String)
    ensures
        url@ == channel_messages_url(channel_id@),
{
    let mut url = String::new();
    url.append("https://discord.com/api/v10/channels/");
    url.append(channel_id);
    url.append("/messages");
    url
}

/// Where to read a page of up to 100 messages of `channel_id`, older than
/// the message `before` when given.
pub fn messages_page_url(channel_id: &str, before: Option<&str>) -> (url: String)
    ensures
        url@ == channel_messages_url(channel_id@) + "?limit=100"@ + match before {
            Some(b) => "&before="@ + b@,
            None => seq![],
        },
{
    let mut url = message_post_url(channel_id);
    url.append("?limit=100");
    match before {
        Some(b) => {
            url.append("&before=");
            url.append(b);
        },
        None => {},
    }
    url
}

/// The `Authorization` header of the bot's requests.
pub fn bot_authorization(token: &str) -> (header: String)
    ensures
        header@ == "Bot "@ + token@,
{
    let mut header = String::new();
    header.append("Bot ");
    header.append(token);
    header
}

/// The JSON body posting `content` with all mentions disabled.
pub open spec fn message_body_text(content: Seq<char>) -> Seq<char> {
    "{\"allowed_mentions\":{\"parse\":[]},\"content\":"@ + json_quote(content) + "}"@
}

/// The message body is JSON: an object whose `allowed_mentions` member
/// allows no mentions and whose `content` member is a string literal that
/// reads back as the content.
pub proof fn lemma_message_body_is_json(content: Seq<char>)
    ensures
        exists|l: Seq<char>|
            is_json_string_literal(l, content) && message_body_text(content)
                == "{\"allowed_mentions\":{\"parse\":[]},\"content\":"@ + l + "}"@,
{
    lemma_json_quote_reads_back(content);
    let l = json_quote(content);
    assert(message_body_text(content) == "{\"allowed_mentions\":{\"parse\":[]},\"content\":"@ + l + "}"@);
}

/// Writes the JSON body posting `content` with all mentions disabled.
pub fn message_body(content: &str) -> (body: String)
    ensures
        body@ == message_body_text(content@),
{
    let mut body = String::new();
    body.append("{\"allowed_mentions\":{\"parse\":[]},\"content\":");
    body.append(json_string(content).as_str());
    body.append("}");
    body
}

/// Discord answered a request successfully: a 2xx status.
pub open spec fn is_success_status(status: u16) -> bool {
    200 <= status < 300
}

/// The outcome of a request to Discord, from the status it answered: the
/// status is an error unless it is a 2xx.
pub fn check_discord_status(status: u16) -> (checked: Result<(), u16>)
    ensures
        is_success_status(status) ==> checked is Ok,
        !is_success_status(status) ==> checked == Err::<(), u16>(status),
{
    if 200 <= status && status < 300 {
        Ok(())
    } else {
        Err(status)
    }
}

/// What to do after a page of messages arrived.
#[derive(Debug, Clone, PartialEq, Eq)]
pub enum PageStep {
    /// Read the next page: the messages older than this id.
    Next { before: String },
    /// All messages are read.
    Done,
}

/// Decides how the message listing goes on after a page of `count`
/// messages (newest first) whose last, oldest message has the id
/// `last_id`: done when the page is short of 100 messages (an empty page
/// included) or its last message has no id; else the next page, before
/// that id.
pub fn next_messages_page(count: usize, last_id: Option<String>) -> (step: PageStep)
    ensures
        count < 100 || last_id is None ==> step == PageStep::Done,
        count >= 100 && last_id is Some ==> step == (PageStep::Next { before: last_id->0 }),
{
    if count == 0 {
        return PageStep::Done;
    }
    if count < 100 {
        return PageStep::Done;
    }
    match last_id {
        Some(id) => PageStep::Next { before: id },
        None => PageStep::Done,
    }
}

} // verus!
