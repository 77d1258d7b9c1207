use srs_worker::clock::ClockReading;
use srs_worker::contacts::{contacts_csv_at, contacts_csv_since, create_contacts_csv, ContactMessage, FormResponse};
use srs_worker::discord::{discord_interaction, report_payload_json, InteractionEvent, InteractionRoute};

fn form(first: &str, last: &str, email: &str, city: &str) -> FormResponse {
    FormResponse {
        first_name: first.to_string(),
        last_name: last.to_string(),
        email: email.to_string(),
        phone: "555".to_string(),
        howhear: "friend".to_string(),
        comment: "hi".to_string(),
        city: city.to_string(),
    }
}

fn message(author: Option<&str>, timestamp: Option<&str>, form: Option<FormResponse>) -> ContactMessage {
    ContactMessage {
        author_id: author.map(|a| a.to_string()),
        timestamp: timestamp.map(|t| t.to_string()),
        form,
    }
}

const NOON: &str = "2024-05-01T12:00:00+00:00";
const NOON_SECS: i64 = 1714564800;

#[test]
fn export_has_header_and_one_line_per_contact() {
    let msgs = vec![
        message(Some("bot"), Some(NOON), Some(form("Ann", "Lee", "ann@x.org", "seattle"))),
        message(Some("bot"), Some("2024-05-02T08:30:00Z"), Some(form("Bo", "Kim", "bo@x.org", "seattle"))),
    ];
    let csv = contacts_csv_since("bot", "seattle", &msgs, (NOON_SECS, 0));
    assert_eq!(csv, "first_name,last_name,email\nAnn,Lee,ann@x.org\nBo,Kim,bo@x.org\n");
}

#[test]
fn export_skips_other_authors_cities_and_old_messages() {
    let msgs = vec![
        message(Some("someone"), Some(NOON), Some(form("A", "B", "a@b", "seattle"))),
        message(Some("bot"), Some(NOON), Some(form("C", "D", "c@d", "portland"))),
        message(Some("bot"), Some("2024-05-01T11:59:59Z"), Some(form("E", "F", "e@f", "seattle"))),
        message(Some("bot"), Some("not a time"), Some(form("G", "H", "g@h", "seattle"))),
        message(Some("bot"), None, Some(form("I", "J", "i@j", "seattle"))),
        message(Some("bot"), Some(NOON), None),
        message(None, Some(NOON), Some(form("K", "L", "k@l", "seattle"))),
        message(Some("bot"), Some("2024-05-01T13:00:00+01:00"), Some(form("M", "N", "m@n", "seattle"))),
    ];
    // 13:00+01:00 is 12:00 UTC: exactly the cutoff, which is kept.
    let csv = contacts_csv_since("bot", "seattle", &msgs, (NOON_SECS, 0));
    assert_eq!(csv, "first_name,last_name,email\nM,N,m@n\n");
}

#[test]
fn export_without_contacts_is_empty() {
    let msgs = vec![message(Some("bot"), Some(NOON), Some(form("A", "B", "a@b", "seattle")))];
    assert_eq!(contacts_csv_since("bot", "seattle", &msgs, (NOON_SECS + 1, 0)), "");
    assert_eq!(contacts_csv_since("bot", "seattle", &Vec::new(), (0, 0)), "");
}

#[test]
fn export_quotes_fields_with_commas() {
    let msgs = vec![message(Some("bot"), Some(NOON), Some(form("Ann, Jr", "Lee", "ann@x.org", "seattle")))];
    let csv = contacts_csv_since("bot", "seattle", &msgs, (0, 0));
    assert_eq!(csv, "first_name,last_name,email\n\"Ann, Jr\",Lee,ann@x.org\n");
}

#[test]
fn export_compares_to_the_nanosecond() {
    let msgs = vec![message(Some("bot"), Some("2024-05-01T12:00:00.5Z"), Some(form("A", "B", "a@b", "x")))];
    assert_eq!(contacts_csv_since("bot", "x", &msgs, (NOON_SECS, 500_000_000)), "first_name,last_name,email\nA,B,a@b\n");
    assert_eq!(contacts_csv_since("bot", "x", &msgs, (NOON_SECS, 500_000_001)), "");
}

#[test]
fn missing_author_matches_an_empty_bot_id() {
    let msgs = vec![message(None, Some(NOON), Some(form("A", "B", "a@b", "x")))];
    assert_eq!(contacts_csv_since("", "x", &msgs, (0, 0)), "first_name,last_name,email\nA,B,a@b\n");
}

#[test]
fn last_week_export_uses_the_clock() {
    let msgs = vec![
        message(Some("bot"), Some("2999-01-01T00:00:00Z"), Some(form("New", "One", "n@o", "x"))),
        message(Some("bot"), Some("1999-01-01T00:00:00Z"), Some(form("Old", "One", "o@o", "x"))),
    ];
    assert_eq!(create_contacts_csv("bot", "x", msgs), "first_name,last_name,email\nNew,One,n@o\n");
}

fn report(messages: Option<Vec<ContactMessage>>, bot_user_id: Option<&str>, argument: &str) -> InteractionRoute {
    discord_interaction(InteractionEvent::Messages { messages, bot_user_id, argument })
}

#[test]
fn report_needs_messages_and_bot_id() {
    assert_eq!(report(None, Some("bot"), "x"), InteractionRoute::Reject(400));
    assert_eq!(report(Some(Vec::new()), None, "x"), InteractionRoute::Reject(500));
    assert_eq!(
        report(Some(Vec::new()), Some("bot"), "x"),
        InteractionRoute::Attach { payload_json: report_payload_json(), csv: String::new() }
    );
    let msgs = vec![message(Some("bot"), Some("2999-01-01T00:00:00Z"), Some(form("A", "B", "a@b", "x")))];
    match report(Some(msgs), Some("bot"), "x") {
        InteractionRoute::Attach { payload_json, csv } => {
            assert_eq!(payload_json, "{\"data\":{\"attachments\":[{\"filename\":\"export.csv\",\"id\":0}],\"content\":\"Contacts export from last 7 days\"},\"type\":4}");
            assert_eq!(csv, "first_name,last_name,email\nA,B,a@b\n");
        }
        other => panic!("unexpected {:?}", other),
    }
}

/// 2026-11-17T00:00:00Z.
fn nov_17() -> ClockReading {
    ClockReading { secs: 1_794_873_600, nanos: 0, year: 2026, month: 11, day: 17 }
}

#[test]
fn export_at_a_clock_reading_keeps_the_last_week() {
    let msgs = vec![
        message(Some("42"), Some("2026-11-16T00:00:00Z"), Some(form("Ann", "L", "e", "sea"))),
        message(Some("42"), Some("2026-11-01T00:00:00Z"), Some(form("Bob", "L", "e", "sea"))),
    ];
    assert_eq!(contacts_csv_at("42", "sea", &msgs, &nov_17()), "first_name,last_name,email\nAnn,L,e\n");
}

#[test]
fn export_window_boundary_is_exactly_seven_days() {
    let msgs = vec![
        message(Some("42"), Some("2026-11-10T00:00:00+00:00"), Some(form("Ann", "L", "e", "sea"))),
        message(Some("42"), Some("2026-11-09T23:59:59Z"), Some(form("Bob", "L", "e", "sea"))),
    ];
    assert_eq!(contacts_csv_at("42", "sea", &msgs, &nov_17()), "first_name,last_name,email\nAnn,L,e\n");
}

#[test]
fn export_of_two_lists_joins_their_rows() {
    let first = vec![message(Some("bot"), Some(NOON), Some(form("Ann", "Lee", "ann@x.org", "x")))];
    let second = vec![
        message(Some("bot"), Some(NOON), Some(form("Bo", "Kim", "bo@x.org", "x"))),
        message(Some("bot"), Some(NOON), Some(form("Cy", "Ng", "cy@x.org", "y"))),
    ];
    let mut both = first.clone();
    both.extend(second.clone());
    let a = contacts_csv_since("bot", "x", &first, (0, 0));
    let b = contacts_csv_since("bot", "x", &second, (0, 0));
    let ab = contacts_csv_since("bot", "x", &both, (0, 0));
    let header = "first_name,last_name,email\n";
    assert_eq!(ab, format!("{}{}{}", header, &a[header.len()..], &b[header.len()..]));
}

#[test]
fn dropping_other_authors_keeps_the_export() {
    let msgs = vec![
        message(Some("someone"), Some(NOON), Some(form("A", "B", "a@b", "x"))),
        message(Some("bot"), Some(NOON), Some(form("C", "D", "c@d", "x"))),
        message(None, Some(NOON), Some(form("E", "F", "e@f", "x"))),
    ];
    let kept: Vec<ContactMessage> = msgs.iter().filter(|m| m.author_id.as_deref() == Some("bot")).cloned().collect();
    assert_eq!(contacts_csv_since("bot", "x", &msgs, (0, 0)), contacts_csv_since("bot", "x", &kept, (0, 0)));
    assert_eq!(contacts_csv_since("bot", "x", &kept, (0, 0)), "first_name,last_name,email\nC,D,c@d\n");
}
