//! The contact export: the contact forms in the bot channel whose author id
//! is the bot's, of the last week, for one group location, as CSV.
use vstd::prelude::*;

use chrono::DateTime;

use crate::clock::{is_clock_reading, utc_now, week_before, week_before_reading, ClockReading};
use crate::text::str_eq;

verus! {

/// A contact form as the bot posts it to its channel.
#[derive(Debug, Clone)]
pub struct FormResponse {
    pub first_name: String,
    pub last_name: String,
    pub email: String,
    pub phone: String,
    pub howhear: String,
    pub comment: String,
    pub city: String,
}

/// What the export reads of one channel message: its author's id, its
/// timestamp text, and its content read as a contact form (`None` when the
/// content is absent or is not one).
#[derive(Debug, Clone)]
pub struct ContactMessage {
    pub author_id: Option<String>,
    pub timestamp: Option<String>,
    pub form: Option<FormResponse>,
}

/// An instant as (seconds since the Unix epoch, nanoseconds past that second).
pub open spec fn instant_before(a: (i64, u32), b: (i64, u32)) -> bool {
    a.0 < b.0 || (a.0 == b.0 && a.1 < b.1)
}

/// The instant that `chrono::DateTime::parse_from_rfc3339` reads from the
/// text `s`, if it accepts it.
pub uninterp spec fn rfc3339_instant(s: Seq<char>) -> Option<(i64, u32)>;

/// Calls `chrono::DateTime::parse_from_rfc3339` and returns the instant as
/// `(timestamp(), timestamp_subsec_nanos())`. Claimed: the result is a
/// function of the text alone.
#[verifier::external_body]
fn parse_rfc3339(s: &str) -> (instant: Option<(i64, u32)>)
    ensures
        instant == rfc3339_instant(s@),
{
    match DateTime::parse_from_rfc3339(s) {
        Ok(t) => Some((t.timestamp(), t.timestamp_subsec_nanos())),
        Err(_) => None,
    }
}

/// The CSV line (terminator included) that `csv::Writer::write_record`
/// writes for a record of three fields.
pub uninterp spec fn csv_line(a: Seq<char>, b: Seq<char>, c: Seq<char>) -> Seq<char>;

/// Calls `csv::Writer::write_record` on a writer over a fresh `Vec<u8>`
/// with default settings and returns what it wrote. Claimed: the text is a
/// function of the three fields alone (a writer's output for several
/// records is the concatenation of these lines, as its state is reset after
/// each record terminator). Writing into memory does not fail, and the
/// output of UTF-8 fields is UTF-8.
#[verifier::external_body]
fn csv_record(a: &str, b: &str, c: &str) -> (line: String)
    ensures
        line@ == csv_line(a@, b@, c@),
{
    let mut writer = csv::Writer::from_writer(Vec::new());
    writer.write_record([a, b, c]).unwrap();
    String::from_utf8(writer.into_inner().unwrap()).unwrap()
}

/// The author id of a message, the empty text when it has none.
pub open spec fn author_of(m: ContactMessage) -> Seq<char> {
    match m.author_id {
        Some(a) => a@,
        None => seq![],
    }
}

/// `m` is a contact form for `location` whose author id (the empty text
/// when it has none) is `bot`, timestamped no earlier than `cutoff`.
pub open spec fn is_recent_contact(
    m: ContactMessage,
    bot: Seq<char>,
    location: Seq<char>,
    cutoff: (i64, u32),
) -> bool {
    &&& author_of(m) == bot
    &&& match m.timestamp {
        Some(t) => match rfc3339_instant(t@) {
            Some(instant) => !instant_before(instant, cutoff),
            None => false,
        },
        None => false,
    }
    &&& match m.form {
        Some(f) => f.city@ == location,
        None => false,
    }
}

/// The CSV line of a contact: first name, last name, email.
pub open spec fn contact_line(m: ContactMessage) -> Seq<char> {
    let f = m.form->0;
    csv_line(f.first_name@, f.last_name@, f.email@)
}

/// The header line of the export.
pub open spec fn contacts_header() -> Seq<char> {
    csv_line("first_name"@, "last_name"@, "email"@)
}

/// The lines of the recent contacts among `msgs`, in order.
pub open spec fn contact_lines(
    msgs: Seq<ContactMessage>,
    bot: Seq<char>,
    location: Seq<char>,
    cutoff: (i64, u32),
) -> Seq<char>
    decreases msgs.len(),
{
    if msgs.len() == 0 {
        seq![]
    } else {
        contact_lines(msgs.drop_last(), bot, location, cutoff) + if is_recent_contact(
            msgs.last(),
            bot,
            location,
            cutoff,
        ) {
            contact_line(msgs.last())
        } else {
            seq![]
        }
    }
}

/// Some message among `msgs` is a recent contact.
pub open spec fn has_recent_contact(
    msgs: Seq<ContactMessage>,
    bot: Seq<char>,
    location: Seq<char>,
    cutoff: (i64, u32),
) -> bool {
    exists|i: int| 0 <= i < msgs.len() && is_recent_contact(#[trigger] msgs[i], bot, location, cutoff)
}

/// The export: the header followed by one line per recent contact, or the
/// empty text when there is none.
pub open spec fn contacts_csv(
    msgs: Seq<ContactMessage>,
    bot: Seq<char>,
    location: Seq<char>,
    cutoff: (i64, u32),
) -> Seq<char> {
    if has_recent_contact(msgs, bot, location, cutoff) {
        contacts_header() + contact_lines(msgs, bot, location, cutoff)
    } else {
        seq![]
    }
}

/// A message that is not a recent contact for the location — an author id
/// (the empty text when absent) other than the bot's, no or an unreadable
/// or older timestamp, no form, another city — leaves the export unchanged.
pub proof fn lemma_other_message_leaves_export_unchanged(
    msgs: Seq<ContactMessage>,
    m: ContactMessage,
    bot: Seq<char>,
    location: Seq<char>,
    cutoff: (i64, u32),
)
    requires
        !is_recent_contact(m, bot, location, cutoff),
    ensures
        contacts_csv(msgs.push(m), bot, location, cutoff) == contacts_csv(msgs, bot, location, cutoff),
{
    let next = msgs.push(m);
    assert(next.drop_last() == msgs);
    assert(has_recent_contact(next, bot, location, cutoff) == has_recent_contact(msgs, bot, location, cutoff)) by {
        if has_recent_contact(next, bot, location, cutoff) {
            let i = choose|i: int| 0 <= i < next.len() && is_recent_contact(#[trigger] next[i], bot, location, cutoff);
            assert(i < msgs.len());
            assert(next[i] == msgs[i]);
        }
        if has_recent_contact(msgs, bot, location, cutoff) {
            let i = choose|i: int| 0 <= i < msgs.len() && is_recent_contact(#[trigger] msgs[i], bot, location, cutoff);
            assert(next[i] == msgs[i]);
        }
    }
}

/// A recent contact for the location adds its line at the end of the
/// export, which then starts with the header.
pub proof fn lemma_recent_contact_appends_line(
    msgs: Seq<ContactMessage>,
    m: ContactMessage,
    bot: Seq<char>,
    location: Seq<char>,
    cutoff: (i64, u32),
)
    requires
        is_recent_contact(m, bot, location, cutoff),
    ensures
        contacts_csv(msgs.push(m), bot, location, cutoff) == contacts_header() + contact_lines(
            msgs,
            bot,
            location,
            cutoff,
        ) + contact_line(m),
{
    let next = msgs.push(m);
    assert(next.drop_last() == msgs);
    assert(next[msgs.len() as int] == m);
    assert(has_recent_contact(next, bot, location, cutoff));
}

/// The export's rows are its contact lines: without a recent contact
/// there are none, and the export is empty.
pub proof fn lemma_no_contact_no_rows(
    msgs: Seq<ContactMessage>,
    bot: Seq<char>,
    location: Seq<char>,
    cutoff: (i64, u32),
)
    requires
        !has_recent_contact(msgs, bot, location, cutoff),
    ensures
        contact_lines(msgs, bot, location, cutoff) == Seq::<char>::empty(),
        contacts_csv(msgs, bot, location, cutoff) == Seq::<char>::empty(),
    decreases msgs.len(),
{
    if msgs.len() > 0 {
        let prefix = msgs.drop_last();
        assert(!is_recent_contact(msgs[msgs.len() - 1], bot, location, cutoff));
        assert(!has_recent_contact(prefix, bot, location, cutoff)) by {
            if has_recent_contact(prefix, bot, location, cutoff) {
                let i = choose|i: int|
                    0 <= i < prefix.len() && is_recent_contact(#[trigger] prefix[i], bot, location, cutoff);
                assert(msgs[i] == prefix[i]);
            }
        }
        lemma_no_contact_no_rows(prefix, bot, location, cutoff);
    }
}

/// The rows of the export of two message lists one after the other are the
/// rows of the first list followed by those of the second; the export has
/// a header when either list has a recent contact.
pub proof fn lemma_export_of_concatenation(
    first: Seq<ContactMessage>,
    second: Seq<ContactMessage>,
    bot: Seq<char>,
    location: Seq<char>,
    cutoff: (i64, u32),
)
    ensures
        contact_lines(first + second, bot, location, cutoff) == contact_lines(first, bot, location, cutoff)
            + contact_lines(second, bot, location, cutoff),
        has_recent_contact(first + second, bot, location, cutoff) == (has_recent_contact(
            first,
            bot,
            location,
            cutoff,
        ) || has_recent_contact(second, bot, location, cutoff)),
        contacts_csv(first + second, bot, location, cutoff) == if has_recent_contact(
            first,
            bot,
            location,
            cutoff,
        ) || has_recent_contact(second, bot, location, cutoff) {
            contacts_header() + contact_lines(first, bot, location, cutoff) + contact_lines(
                second,
                bot,
                location,
                cutoff,
            )
        } else {
            Seq::<char>::empty()
        },
    decreases second.len(),
{
    let all = first + second;
    if second.len() == 0 {
        assert(all == first);
    } else {
        lemma_export_of_concatenation(first, second.drop_last(), bot, location, cutoff);
        assert(all.drop_last() == first + second.drop_last());
        assert(all.last() == second.last());
    }
    assert(has_recent_contact(all, bot, location, cutoff) == (has_recent_contact(first, bot, location, cutoff)
        || has_recent_contact(second, bot, location, cutoff))) by {
        if has_recent_contact(all, bot, location, cutoff) {
            let i = choose|i: int| 0 <= i < all.len() && is_recent_contact(#[trigger] all[i], bot, location, cutoff);
            if i < first.len() {
                assert(all[i] == first[i]);
            } else {
                assert(all[i] == second[i - first.len()]);
            }
        }
        if has_recent_contact(first, bot, location, cutoff) {
            let i = choose|i: int| 0 <= i < first.len() && is_recent_contact(#[trigger] first[i], bot, location, cutoff);
            assert(all[i] == first[i]);
        }
        if has_recent_contact(second, bot, location, cutoff) {
            let i = choose|i: int|
                0 <= i < second.len() && is_recent_contact(#[trigger] second[i], bot, location, cutoff);
            assert(all[first.len() + i] == second[i]);
        }
    }
}

/// Dropping messages that are not recent contacts leaves the export
/// unchanged: keeping only the messages that satisfy `keep`, where every
/// dropped message fails to be a recent contact, gives the same export.
pub proof fn lemma_dropping_non_contacts_keeps_export(
    msgs: Seq<ContactMessage>,
    keep: spec_fn(ContactMessage) -> bool,
    bot: Seq<char>,
    location: Seq<char>,
    cutoff: (i64, u32),
)
    requires
        forall|m: ContactMessage| !keep(m) ==> !is_recent_contact(m, bot, location, cutoff),
    ensures
        contact_lines(msgs.filter(keep), bot, location, cutoff) == contact_lines(msgs, bot, location, cutoff),
        has_recent_contact(msgs.filter(keep), bot, location, cutoff) == has_recent_contact(
            msgs,
            bot,
            location,
            cutoff,
        ),
        contacts_csv(msgs.filter(keep), bot, location, cutoff) == contacts_csv(msgs, bot, location, cutoff),
    decreases msgs.len(),
{
    reveal(Seq::filter);
    if msgs.len() == 0 {
        assert(msgs.filter(keep) == msgs);
    } else {
        let prefix = msgs.drop_last();
        let m = msgs.last();
        lemma_dropping_non_contacts_keeps_export(prefix, keep, bot, location, cutoff);
        assert(msgs == prefix.push(m));
        if keep(m) {
            assert(msgs.filter(keep) == prefix.filter(keep).push(m));
            assert(prefix.filter(keep).push(m).drop_last() == prefix.filter(keep));
            assert(prefix.filter(keep).push(m).last() == m);
            if is_recent_contact(m, bot, location, cutoff) {
                lemma_recent_contact_appends_line(prefix.filter(keep), m, bot, location, cutoff);
                lemma_recent_contact_appends_line(prefix, m, bot, location, cutoff);
                assert(has_recent_contact(msgs.filter(keep), bot, location, cutoff)) by {
                    assert(msgs.filter(keep)[prefix.filter(keep).len() as int] == m);
                }
                assert(has_recent_contact(msgs, bot, location, cutoff)) by {
                    assert(msgs[prefix.len() as int] == m);
                }
            } else {
                lemma_other_message_leaves_export_unchanged(prefix.filter(keep), m, bot, location, cutoff);
                lemma_other_message_leaves_export_unchanged(prefix, m, bot, location, cutoff);
            }
        } else {
            assert(msgs.filter(keep) == prefix.filter(keep));
            lemma_other_message_leaves_export_unchanged(prefix, m, bot, location, cutoff);
        }
    }
}

/// Only the bot's messages count: keeping just the messages whose author
/// id (the empty text when absent) is the bot's leaves the export
/// unchanged.
pub proof fn lemma_other_authors_do_not_change_export(
    msgs: Seq<ContactMessage>,
    bot: Seq<char>,
    location: Seq<char>,
    cutoff: (i64, u32),
)
    ensures
        contacts_csv(msgs.filter(|m: ContactMessage| author_of(m) == bot), bot, location, cutoff)
            == contacts_csv(msgs, bot, location, cutoff),
{
    lemma_dropping_non_contacts_keeps_export(msgs, |m: ContactMessage| author_of(m) == bot, bot, location, cutoff);
}

/// A contact form for `location` whose author id is the bot's, with a timestamp that
/// reads as an instant no earlier than the cutoff, is exported alone as
/// the header and the line of its first name, last name and email.
pub proof fn lemma_posted_form_is_exported(
    m: ContactMessage,
    bot: Seq<char>,
    location: Seq<char>,
    cutoff: (i64, u32),
)
    requires
        author_of(m) == bot,
        m.timestamp matches Some(t) && (rfc3339_instant(t@) matches Some(instant) && !instant_before(
            instant,
            cutoff,
        )),
        m.form matches Some(f) && f.city@ == location,
    ensures
        contacts_csv(seq![m], bot, location, cutoff) == contacts_header() + csv_line(
            m.form->0.first_name@,
            m.form->0.last_name@,
            m.form->0.email@,
        ),
{
    lemma_recent_contact_appends_line(Seq::<ContactMessage>::empty(), m, bot, location, cutoff);
    assert(Seq::<ContactMessage>::empty().push(m) == seq![m]);
    assert(contact_lines(Seq::<ContactMessage>::empty(), bot, location, cutoff) == Seq::<char>::empty());
}

/// An instant as nanoseconds since the epoch.
pub open spec fn instant_nanos(i: (i64, u32)) -> int {
    i.0 * 1_000_000_000 + i.1
}

/// A clock reading's instant as nanoseconds since the epoch.
pub open spec fn reading_nanos(r: ClockReading) -> int {
    r.secs * 1_000_000_000 + r.nanos
}

/// The export window is the last seven days: at a clock reading, an
/// instant (outside a leap second) is in the window exactly when it is no
/// more than 604800 seconds before the reading.
pub proof fn lemma_window_is_the_last_seven_days(now: ClockReading, instant: (i64, u32))
    requires
        is_clock_reading(now),
        instant.1 < 1_000_000_000,
    ensures
        !instant_before(instant, week_before(now)) <==> reading_nanos(now) - instant_nanos(instant)
            <= 604_800_000_000_000,
{
}

/// A message more than seven days older than the clock reading adds
/// nothing to the export.
pub proof fn lemma_export_drops_older_than_a_week(
    msgs: Seq<ContactMessage>,
    m: ContactMessage,
    bot: Seq<char>,
    location: Seq<char>,
    now: ClockReading,
)
    requires
        is_clock_reading(now),
        m.timestamp matches Some(t) && (rfc3339_instant(t@) matches Some(i) && i.1 < 1_000_000_000
            && reading_nanos(now) - instant_nanos(i) > 604_800_000_000_000),
    ensures
        contacts_csv(msgs.push(m), bot, location, week_before(now)) == contacts_csv(
            msgs,
            bot,
            location,
            week_before(now),
        ),
{
    let i = rfc3339_instant(m.timestamp->0@)->0;
    lemma_window_is_the_last_seven_days(now, i);
    lemma_other_message_leaves_export_unchanged(msgs, m, bot, location, week_before(now));
}

/// A contact form for the location whose author id is the bot's, no more
/// than seven days older than the clock reading, adds its line of first
/// name, last name and email at the end of the export.
pub proof fn lemma_export_keeps_the_last_week(
    msgs: Seq<ContactMessage>,
    m: ContactMessage,
    bot: Seq<char>,
    location: Seq<char>,
    now: ClockReading,
)
    requires
        is_clock_reading(now),
        author_of(m) == bot,
        m.form matches Some(f) && f.city@ == location,
        m.timestamp matches Some(t) && (rfc3339_instant(t@) matches Some(i) && i.1 < 1_000_000_000
            && reading_nanos(now) - instant_nanos(i) <= 604_800_000_000_000),
    ensures
        contacts_csv(msgs.push(m), bot, location, week_before(now)) == contacts_header() + contact_lines(
            msgs,
            bot,
            location,
            week_before(now),
        ) + csv_line(m.form->0.first_name@, m.form->0.last_name@, m.form->0.email@),
{
    let i = rfc3339_instant(m.timestamp->0@)->0;
    lemma_window_is_the_last_seven_days(now, i);
    lemma_recent_contact_appends_line(msgs, m, bot, location, week_before(now));
}

/// Decides whether `m` is a recent contact.
fn recent_contact(
    m: &ContactMessage,
    bot_user_id: &str,
    group_location: &str,
    cutoff: (i64, u32),
) -> (keep: bool)
    ensures
        keep == is_recent_contact(*m, bot_user_id@, group_location@, cutoff),
{
    let author: &str = match &m.author_id {
        Some(a) => a.as_str(),
        None => "",
    };
    proof {
        reveal_strlit("");
    }
    assert(author@ == author_of(*m));
    let author_matches = str_eq(author, bot_user_id);
    if !author_matches {
        return false;
    }
    let instant = match &m.timestamp {
        Some(t) => match parse_rfc3339(t.as_str()) {
            Some(i) => i,
            None => return false,
        },
        None => return false,
    };
    if instant.0 < cutoff.0 || (instant.0 == cutoff.0 && instant.1 < cutoff.1) {
        return false;
    }
    match &m.form {
        Some(f) => str_eq(f.city.as_str(), group_location),
        None => false,
    }
}

/// The export of the contact forms for `group_location` among `messages`
/// whose author id (the empty text when absent) is `bot_user_id`,
/// timestamped no earlier than `cutoff`.
pub fn contacts_csv_since(
    bot_user_id: &str,
    group_location: &str,
    messages: &Vec<ContactMessage>,
    cutoff: (i64, u32),
) -> (csv: String)
    ensures
        csv@ == contacts_csv(messages@, bot_user_id@, group_location@, cutoff),
{
    let ghost bot = bot_user_id@;
    let ghost loc = group_location@;
    let mut wrote_header = false;
    let mut lines = String::new();
    let mut i: usize = 0;
    while i < messages.len()
        invariant
            bot == bot_user_id@,
            loc == group_location@,
            i <= messages@.len(),
            wrote_header == has_recent_contact(messages@.take(i as int), bot, loc, cutoff),
            lines@ == contact_lines(messages@.take(i as int), bot, loc, cutoff),
        decreases messages@.len() - i,
    {
        let m = &messages[i];
        let ghost prefix = messages@.take(i as int);
        let ghost next = messages@.take(i + 1);
        assert(next.drop_last() == prefix);
        assert(next.last() == *m);
        if recent_contact(m, bot_user_id, group_location, cutoff) {
            wrote_header = true;
            let f = m.form.as_ref().unwrap();
            let line = csv_record(f.first_name.as_str(), f.last_name.as_str(), f.email.as_str());
            lines.append(line.as_str());
            assert(is_recent_contact(next[i as int], bot, loc, cutoff));
        } else {
            assert forall|j: int| 0 <= j < next.len() && is_recent_contact(#[trigger] next[j], bot, loc, cutoff)
                implies 0 <= j < prefix.len() && is_recent_contact(prefix[j], bot, loc, cutoff) by {
                assert(j != i);
                assert(next[j] == prefix[j]);
            }
        }
        i += 1;
    }
    assert(messages@.take(messages@.len() as int) == messages@);
    if wrote_header {
        let mut out = csv_record("first_name", "last_name", "email");
        out.append(lines.as_str());
        out
    } else {
        String::new()
    }
}

/// The CSV export, at the clock reading `now`, of the contact forms for
/// `group_location` among `messages` whose author id (the empty text when
/// absent) is `bot_user_id`, timestamped during the seven days before `now`.
pub fn contacts_csv_at(
    bot_user_id: &str,
    group_location: &str,
    messages: &Vec<ContactMessage>,
    now: &ClockReading,
) -> (csv: String)
    requires
        is_clock_reading(*now),
    ensures
        csv@ == contacts_csv(messages@, bot_user_id@, group_location@, week_before(*now)),
{
    let cutoff = week_before_reading(now);
    contacts_csv_since(bot_user_id, group_location, messages, cutoff)
}

/// The CSV export of the contact forms for `group_location` among
/// `messages` whose author id (the empty text when absent) is
/// `bot_user_id`, timestamped during the last seven days: the export at
/// one reading of the UTC clock.
pub fn create_contacts_csv(
    bot_user_id: &str,
    group_location: &str,
    messages: Vec<ContactMessage>,
) -> (csv: String)
    ensures
        exists|now: ClockReading|
            is_clock_reading(now) && csv@ == contacts_csv(
                messages@,
                bot_user_id@,
                group_location@,
                week_before(now),
            ),
{
    let now = utc_now();
    contacts_csv_at(bot_user_id, group_location, &messages, &now)
}

} // verus!
