use srs_worker::content::ContentSubmission;
use srs_worker::pull_request::{
    base_commit, content_pr_plan, content_pr_setup, parse_u64, pr_answer, GithubEnv, PrError,
    U64ParseError,
};
use srs_worker::text::push_decimal;
use srs_worker::turnstile::TurnstileResult;

fn passed(success: bool) -> TurnstileResult {
    TurnstileResult {
        success,
        error_codes: Vec::new(),
        challenge_ts: None,
        hostname: None,
        action: None,
        cdata: None,
        metadata: None,
    }
}

fn submission(location: &str) -> ContentSubmission {
    ContentSubmission {
        group_location: location.to_string(),
        content_type: "articles".to_string(),
        content: "hello".to_string(),
        turnstile_token: "tok".to_string(),
        file_ending: "md".to_string(),
    }
}

fn env() -> GithubEnv {
    GithubEnv {
        app_id: Ok("123".to_string()),
        installation_id: Ok("+456".to_string()),
        owner: Ok("org".to_string()),
        repo: Ok("site".to_string()),
        base_branch: Ok("main".to_string()),
        private_key: Ok("KEY".to_string()),
    }
}

#[test]
fn u64_text() {
    assert_eq!(parse_u64("0"), Ok(0));
    assert_eq!(parse_u64("+17"), Ok(17));
    assert_eq!(parse_u64("18446744073709551615"), Ok(u64::MAX));
    assert_eq!(parse_u64("18446744073709551616"), Err(U64ParseError::PosOverflow));
    assert_eq!(parse_u64(""), Err(U64ParseError::Empty));
    assert_eq!(parse_u64("+"), Err(U64ParseError::InvalidDigit));
    assert_eq!(parse_u64("-"), Err(U64ParseError::InvalidDigit));
    assert_eq!(parse_u64("-1"), Err(U64ParseError::InvalidDigit));
    assert_eq!(parse_u64("12a"), Err(U64ParseError::InvalidDigit));
    assert_eq!(parse_u64(" 1"), Err(U64ParseError::InvalidDigit));
    // An invalid digit after the value overflowed is reported as overflow.
    assert_eq!(parse_u64("99999999999999999999x"), Err(U64ParseError::PosOverflow));
    for s in ["0", "7", "42", "1000", "18446744073709551615"] {
        assert_eq!(parse_u64(s), Ok(s.parse::<u64>().unwrap()));
    }
}

#[test]
fn decimal_text() {
    let mut s = String::from("n=");
    push_decimal(&mut s, 0);
    push_decimal(&mut s, 1715000000123);
    assert_eq!(s, "n=01715000000123");
}

#[test]
fn setup_checks_turnstile_then_slug_then_config() {
    assert_eq!(content_pr_setup(&submission("seattle"), &passed(false), env()).unwrap_err(), PrError::BadTurnstile);
    assert_eq!(content_pr_setup(&submission("a/b"), &passed(true), env()).unwrap_err(), PrError::InvalidGroupLocation);
    let mut e = env();
    e.app_id = Ok("x".to_string());
    assert_eq!(
        content_pr_setup(&submission("seattle"), &passed(true), e).unwrap_err(),
        PrError::InvalidAppId(U64ParseError::InvalidDigit)
    );
    let mut e = env();
    e.installation_id = Ok(String::new());
    assert_eq!(
        content_pr_setup(&submission("seattle"), &passed(true), e).unwrap_err(),
        PrError::InvalidInstallationId(U64ParseError::Empty)
    );
    let mut e = env();
    e.repo = Err("no GITHUB_REPO".to_string());
    e.private_key = Err("no key".to_string());
    assert_eq!(
        content_pr_setup(&submission("seattle"), &passed(true), e).unwrap_err(),
        PrError::MissingVar("no GITHUB_REPO".to_string())
    );
    let setup = content_pr_setup(&submission("seattle"), &passed(true), env()).unwrap();
    assert_eq!(setup.app_id, 123);
    assert_eq!(setup.installation_id, 456);
    assert_eq!(setup.owner, "org");
    assert_eq!(setup.repo, "site");
    assert_eq!(setup.base_branch, "main");
    assert_eq!(setup.private_key, "KEY");
}

#[test]
fn plan_names_branch_file_and_pull_request() {
    let plan = content_pr_plan(&submission("seattle"), 1715000000123);
    assert_eq!(plan.branch, "seattle-articles-1715000000123");
    assert_eq!(plan.path, "articles/seattle/1715000000123.md");
    assert_eq!(plan.commit_message, "Add content submission for seattle-articles");
    assert_eq!(plan.contents, b"hello\n".to_vec());
    assert_eq!(plan.title, "Content submission: seattle-articles");
    assert_eq!(plan.body, "Automated content submission for `seattle-articles`.");
}

#[test]
fn base_branch_must_be_a_commit() {
    assert_eq!(base_commit(Some("abc".to_string())), Ok("abc".to_string()));
    assert_eq!(base_commit(None), Err(PrError::BaseNotCommit));
}

#[test]
fn error_messages() {
    assert_eq!(PrError::BadTurnstile.message(), "bad turnstile");
    assert_eq!(PrError::InvalidGroupLocation.message(), "invalid group_location");
    assert_eq!(
        PrError::InvalidAppId(U64ParseError::InvalidDigit).message(),
        "invalid GITHUB_APP_ID: invalid digit found in string"
    );
    assert_eq!(
        PrError::InvalidInstallationId(U64ParseError::PosOverflow).message(),
        "invalid GITHUB_INSTALLATION_ID: number too large to fit in target type"
    );
    assert_eq!(U64ParseError::Empty.message(), "cannot parse integer from empty string");
    assert_eq!(PrError::GetBaseBranch("404".to_string()).message(), "get base branch: 404");
    assert_eq!(PrError::CreateFile("x".to_string()).message(), "create file: x");
    assert_eq!(PrError::MissingVar("why".to_string()).message(), "why");
    assert_eq!(PrError::BaseNotCommit.message(), "base branch did not point to a commit");
}

#[test]
fn answer_redirects_with_encoded_url() {
    let answer = pr_answer(&Ok(Some("https://github.com/o/r/pull/1".to_string())));
    assert_eq!(answer.status, 303);
    assert_eq!(
        answer.location.as_deref(),
        Some("/pages/articlesubmitted?pr_url=https%3A%2F%2Fgithub.com%2Fo%2Fr%2Fpull%2F1")
    );
    assert_eq!(answer.json_body, None);
    let answer = pr_answer(&Ok(Some("a b~*".to_string())));
    assert_eq!(answer.location.as_deref(), Some("/pages/articlesubmitted?pr_url=a+b%7E*"));
    let answer = pr_answer(&Ok(None));
    assert_eq!(answer.location.as_deref(), Some("/pages/articlesubmitted?pr_url="));
}

#[test]
fn answer_to_failure_is_json_error() {
    let answer = pr_answer(&Err(PrError::BadTurnstile));
    assert_eq!(answer.status, 500);
    assert_eq!(answer.location, None);
    assert_eq!(answer.json_body, Some("{\"error\":\"failed to create pull request\",\"ok\":false}"));
}
