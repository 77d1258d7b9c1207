use srs_worker::content::{
    article_submission, article_submission_at, events_json, open_article_pr, open_events_pr, OpenContentPrRequest,
    OpenEventPrRequest, SubmissionEvent, SubmissionStep,
};
use srs_worker::contacts::FormResponse;
use srs_worker::clock::ClockReading;
use srs_worker::form::{accept_form, form_response_json, ContactFormInput, FormEvent, FormStep};
use srs_worker::pull_request::PrError;
use srs_worker::slug::valid_slug;
use srs_worker::turnstile::{turnstile_request_body, validate_turnstile, TurnstileResult, SITEVERIFY_URL};

fn passed(success: bool) -> TurnstileResult {
    TurnstileResult {
        success,
        error_codes: Vec::new(),
        challenge_ts: None,
        hostname: None,
        action: None,
        cdata: None,
        metadata: None,
    }
}

fn input() -> ContactFormInput {
    ContactFormInput {
        cf_turnstile_response: "tok".to_string(),
        first_name: "Ann".to_string(),
        last_name: "Lee".to_string(),
        email: "ann@x.org".to_string(),
        phone: "555".to_string(),
        howhear: "flyer".to_string(),
        comment: "hello".to_string(),
    }
}

fn article() -> OpenContentPrRequest {
    OpenContentPrRequest {
        data: "Body text".to_string(),
        cf_turnstile_response: "tok".to_string(),
        title: "Title".to_string(),
        authors: "Ann,Bo".to_string(),
        image_url: "/img.png".to_string(),
        image_alt: "alt".to_string(),
    }
}

#[test]
fn slugs() {
    assert!(valid_slug("seattle"));
    assert!(valid_slug("new-york_2"));
    assert!(valid_slug(&"a".repeat(100)));
    assert!(!valid_slug(&"a".repeat(101)));
    assert!(!valid_slug(""));
    assert!(!valid_slug("a b"));
    assert!(!valid_slug("a/b"));
    assert!(!valid_slug("caf\u{e9}"));
}

#[test]
fn json_strings_escape_as_serde_does() {
    assert_eq!(turnstile_request_body("plain", ""), "{\"secret\":\"plain\",\"response\":\"\"}");
    assert_eq!(
        turnstile_request_body("a\"b\\c\n\t\r\u{8}\u{c}", "x"),
        "{\"secret\":\"a\\\"b\\\\c\\n\\t\\r\\b\\f\",\"response\":\"x\"}"
    );
    assert_eq!(
        turnstile_request_body("\u{1}\u{1f}\u{7f}\u{e9}/", "x"),
        "{\"secret\":\"\\u0001\\u001f\u{7f}\u{e9}/\",\"response\":\"x\"}"
    );
}

#[test]
fn turnstile_request_and_fallback() {
    assert_eq!(turnstile_request_body("s3cr\"t", "tok"), "{\"secret\":\"s3cr\\\"t\",\"response\":\"tok\"}");
    assert_eq!(SITEVERIFY_URL, "https://challenges.cloudflare.com/turnstile/v0/siteverify");
    let failed = validate_turnstile(Err("network down".to_string()));
    assert!(!failed.success);
    assert_eq!(failed.error_codes, vec!["internal-error".to_string()]);
    assert!(failed.hostname.is_none() && failed.metadata.is_none());
    let mut answer = passed(true);
    answer.hostname = Some("example.org".to_string());
    let kept = validate_turnstile(Ok(answer));
    assert!(kept.success);
    assert_eq!(kept.hostname.as_deref(), Some("example.org"));
}

#[test]
fn internal_error_result() {
    let r = TurnstileResult::internal_error();
    assert!(!r.success);
    assert_eq!(r.error_codes, vec!["internal-error".to_string()]);
    assert!(r.challenge_ts.is_none() && r.action.is_none() && r.cdata.is_none());
}

fn submitted(success: bool, channel: Option<&str>, group_location: &str) -> FormEvent {
    FormEvent::Submitted {
        validation: passed(success),
        bot_channel: channel.map(|c| c.to_string()),
        group_location: group_location.to_string(),
        input: input(),
    }
}

#[test]
fn form_is_posted_as_json_with_its_city() {
    match accept_form(submitted(true, Some("chan"), "seattle")) {
        FormStep::Send { channel_id, content } => {
            assert_eq!(channel_id, "chan");
            assert_eq!(
                content,
                "{\"first_name\":\"Ann\",\"last_name\":\"Lee\",\"email\":\"ann@x.org\",\"phone\":\"555\",\"howhear\":\"flyer\",\"comment\":\"hello\",\"city\":\"seattle\"}"
            );
        }
        other => panic!("unexpected {:?}", other),
    }
}

#[test]
fn form_gates() {
    assert!(matches!(accept_form(submitted(false, Some("chan"), "x")), FormStep::Reject(403)));
    assert!(matches!(accept_form(submitted(true, None, "x")), FormStep::Reject(500)));
    assert!(matches!(accept_form(FormEvent::Sent { delivered: true }), FormStep::Redirect("/pages/thanks")));
    assert!(matches!(accept_form(FormEvent::Sent { delivered: false }), FormStep::Reject(500)));
}

#[test]
fn form_response_json_escapes() {
    let f = FormResponse {
        first_name: "A\"".to_string(),
        last_name: "B".to_string(),
        email: "e".to_string(),
        phone: "p".to_string(),
        howhear: "h".to_string(),
        comment: "line1\nline2".to_string(),
        city: "c".to_string(),
    };
    assert_eq!(
        form_response_json(&f),
        "{\"first_name\":\"A\\\"\",\"last_name\":\"B\",\"email\":\"e\",\"phone\":\"p\",\"howhear\":\"h\",\"comment\":\"line1\\nline2\",\"city\":\"c\"}"
    );
}

#[test]
fn article_header_quotes_each_author() {
    let header = article().get_article_header("seattle", "2024-05-01");
    assert_eq!(
        header,
        "+++\ntitle= \"Title\"\ndate = 2024-05-01\nauthors = [\"Ann\", \"Bo\"]\n[extra]\nimage = \"/img.png\"\nimage_alt = \"alt\"\nbranch=\"seattle\"\n+++\n"
    );
    let mut single = article();
    single.authors = "Ann".to_string();
    assert!(single.get_article_header("b", "d").contains("authors = [\"Ann\"]"));
    single.authors = String::new();
    assert!(single.get_article_header("b", "d").contains("authors = [\"\"]"));
    single.authors = "A,,B".to_string();
    assert!(single.get_article_header("b", "d").contains("authors = [\"A\", \"\", \"B\"]"));
}

#[test]
fn article_submission_is_header_then_body() {
    let s = article_submission("seattle".to_string(), article(), "2024-05-01");
    assert_eq!(s.content_type, "articles");
    assert_eq!(s.file_ending, "md");
    assert_eq!(s.turnstile_token, "tok");
    assert_eq!(s.group_location, "seattle");
    assert!(s.content.starts_with("+++\ntitle= \"Title\"\ndate = 2024-05-01\n"));
    assert!(s.content.ends_with("+++\nBody text"));
}

fn reading(year: i32, month: u32, day: u32) -> ClockReading {
    ClockReading { secs: 0, nanos: 0, year, month, day }
}

fn submission_of(step: SubmissionStep) -> srs_worker::content::ContentSubmission {
    match step {
        SubmissionStep::OpenPr(s) => s,
        other => panic!("unexpected {:?}", other),
    }
}

#[test]
fn article_is_dated_year_month_day() {
    let s = article_submission_at("seattle".to_string(), article(), &reading(2024, 5, 1));
    assert!(s.content.contains("\ndate = 2024-05-01\n"));
    let s = article_submission_at("seattle".to_string(), article(), &reading(987, 12, 9));
    assert!(s.content.contains("\ndate = 0987-12-09\n"));
    let s = article_submission_at("seattle".to_string(), article(), &reading(12345, 1, 31));
    assert!(s.content.contains("\ndate = +12345-01-31\n"));
    let s = article_submission_at("seattle".to_string(), article(), &reading(-7, 2, 3));
    assert!(s.content.contains("\ndate = -0007-02-03\n"));
}

#[test]
fn article_today_is_dated() {
    let event = SubmissionEvent::Received { group_location: "seattle".to_string(), input: article() };
    let s = submission_of(open_article_pr(event));
    assert!(s.content.contains("\ndate = 2"));
    assert_eq!(s.content.split("\ndate = ").nth(1).unwrap().split('\n').next().unwrap().len(), 10);
    assert!(s.content.ends_with("Body text"));
}

#[test]
fn submission_answers() {
    let ok = SubmissionEvent::<OpenContentPrRequest>::PrDone(Ok(Some("https://github.com/o/r/pull/1".to_string())));
    match open_article_pr(ok) {
        SubmissionStep::Answer(a) => {
            assert_eq!(a.status, 303);
            assert_eq!(
                a.location.as_deref(),
                Some("/pages/articlesubmitted?pr_url=https%3A%2F%2Fgithub.com%2Fo%2Fr%2Fpull%2F1")
            );
        }
        other => panic!("unexpected {:?}", other),
    }
    for err in [PrError::BadTurnstile, PrError::CreateFile("boom".to_string())] {
        match open_events_pr(SubmissionEvent::PrDone(Err(err))) {
            SubmissionStep::Answer(a) => {
                assert_eq!(a.status, 500);
                assert_eq!(a.location, None);
                assert_eq!(a.json_body, Some("{\"error\":\"failed to create pull request\",\"ok\":false}"));
            }
            other => panic!("unexpected {:?}", other),
        }
    }
    match open_events_pr(SubmissionEvent::PrDone(Ok(None))) {
        SubmissionStep::Answer(a) => assert_eq!(a.location.as_deref(), Some("/pages/articlesubmitted?pr_url=")),
        other => panic!("unexpected {:?}", other),
    }
}

#[test]
fn events_file_holds_one_event() {
    let e = OpenEventPrRequest {
        cf_turnstile_response: "tok".to_string(),
        title: "Rally".to_string(),
        image: "/r.png".to_string(),
        image_alt: "r".to_string(),
        location: "Park".to_string(),
        date: "2024-06-01".to_string(),
    };
    let text = "{\"events\":[{\"title\":\"Rally\",\"date\":\"2024-06-01\",\"image\":\"/r.png\",\"image_alt\":\"r\",\"location\":\"Park\"}]}";
    assert_eq!(events_json(&e), text);
    let s = submission_of(open_events_pr(SubmissionEvent::Received { group_location: "seattle".to_string(), input: e }));
    assert_eq!(s.content, text);
    assert_eq!(s.content_type, "events");
    assert_eq!(s.file_ending, "json");
}
