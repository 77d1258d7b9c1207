//! Turning a content submission into a pull request: the checks before any
//! GitHub call, the names and texts of the branch, file and pull request,
//! and the answer to the submitter.
use vstd::prelude::*;
use vstd::string::*;
use vstd::utf8::encode_utf8;

use crate::content::ContentSubmission;
use crate::slug::{is_slug, valid_slug};
use crate::text::{decimal, lemma_decimal_is_digits, push_decimal, text_or_empty};
use crate::turnstile::TurnstileResult;

verus! {

/// Why a decimal text is not a `u64`.
#[derive(Debug, Clone, Copy, PartialEq, Eq)]
pub enum U64ParseError {
    Empty,
    InvalidDigit,
    PosOverflow,
}

/// An ASCII decimal digit.
pub open spec fn is_decimal_digit(b: u8) -> bool {
    48 <= b <= 57
}

/// Reads the digits `d` after the value `acc` read so far, left to right:
/// a non-digit is an invalid digit, a value past `u64::MAX` an overflow.
pub open spec fn read_digits(d: Seq<u8>, acc: int) -> Result<u64, U64ParseError>
    decreases d.len(),
{
    if d.len() == 0 {
        Ok(acc as u64)
    } else if !is_decimal_digit(d[0]) {
        Err(U64ParseError::InvalidDigit)
    } else if acc * 10 + (d[0] - 48) > u64::MAX {
        Err(U64ParseError::PosOverflow)
    } else {
        read_digits(d.drop_first(), acc * 10 + (d[0] - 48))
    }
}

/// `str::parse::<u64>` on the bytes `b`: an optional `+` followed by
/// decimal digits whose value fits in a `u64`.
pub open spec fn u64_parse(b: Seq<u8>) -> Result<u64, U64ParseError> {
    if b.len() == 0 {
        Err(U64ParseError::Empty)
    } else if b.len() == 1 && (b[0] == 43 || b[0] == 45) {
        Err(U64ParseError::InvalidDigit)
    } else if b[0] == 43 {
        read_digits(b.drop_first(), 0)
    } else {
        read_digits(b, 0)
    }
}

/// The bytes of the decimal numeral of `n`.
pub open spec fn decimal_bytes(n: nat) -> Seq<u8> {
    decimal(n).map_values(|c: char| c as u8)
}

proof fn lemma_read_decimal_prefix(n: nat, rest: Seq<u8>)
    requires
        n <= u64::MAX,
    ensures
        read_digits(decimal_bytes(n) + rest, 0) == read_digits(rest, n as int),
    decreases n,
{
    let d = (48 + n % 10) as u8;
    if n < 10 {
        assert(decimal_bytes(n) =~= seq![d]);
        assert((decimal_bytes(n) + rest).drop_first() =~= rest);
    } else {
        lemma_read_decimal_prefix(n / 10, seq![d] + rest);
        assert(decimal_bytes(n) =~= decimal_bytes(n / 10) + seq![d]);
        assert(decimal_bytes(n) + rest =~= decimal_bytes(n / 10) + (seq![d] + rest));
        assert((seq![d] + rest).drop_first() =~= rest);
        assert((n / 10) * 10 + n % 10 == n);
    }
}

/// Reading the decimal numeral of a `u64` gives that number back, with or
/// without a leading `+`.
pub proof fn lemma_u64_parse_reads_decimal(n: u64)
    ensures
        u64_parse(decimal_bytes(n as nat)) == Ok::<u64, U64ParseError>(n),
        u64_parse(seq![43u8] + decimal_bytes(n as nat)) == Ok::<u64, U64ParseError>(n),
{
    lemma_read_decimal_prefix(n as nat, Seq::<u8>::empty());
    assert(decimal_bytes(n as nat) + Seq::<u8>::empty() =~= decimal_bytes(n as nat));
    lemma_decimal_is_digits(n as nat);
    assert(decimal_bytes(n as nat)[0] == decimal(n as nat)[0] as u8);
    assert((seq![43u8] + decimal_bytes(n as nat)).drop_first() =~= decimal_bytes(n as nat));
}

/// Reads a `u64` from decimal text as `str::parse::<u64>` does.
pub fn parse_u64(s: &str) -> (r: Result<u64, U64ParseError>)
    ensures
        r == u64_parse(s.spec_bytes()),
{
    let b = s.as_bytes();
    if b.len() == 0 {
        return Err(U64ParseError::Empty);
    }
    if b.len() == 1 && (b[0] == 43 || b[0] == 45) {
        return Err(U64ParseError::InvalidDigit);
    }
    let start: usize = if b[0] == 43 { 1 } else { 0 };
    let ghost digits = if b[0] == 43 { b@.drop_first() } else { b@ };
    assert(digits == b@.skip(start as int));
    let mut acc: u64 = 0;
    let mut i: usize = start;
    while i < b.len()
        invariant
            b@ == s.spec_bytes(),
            start <= i <= b@.len(),
            u64_parse(b@) == read_digits(b@.skip(i as int), acc as int),
        decreases b@.len() - i,
    {
        let ghost rest = b@.skip(i as int);
        assert(rest.drop_first() == b@.skip(i + 1));
        assert(rest[0] == b@[i as int]);
        let c = b[i];
        if !(48 <= c && c <= 57) {
            return Err(U64ParseError::InvalidDigit);
        }
        let d = (c - 48) as u64;
        match acc.checked_mul(10) {
            Some(m) => match m.checked_add(d) {
                Some(v) => {
                    acc = v;
                },
                None => {
                    return Err(U64ParseError::PosOverflow);
                },
            },
            None => {
                assert(acc * 10 + d > u64::MAX);
                return Err(U64ParseError::PosOverflow);
            },
        }
        i += 1;
    }
    assert(b@.skip(b@.len() as int).len() == 0);
    Ok(acc)
}

/// Why a submission did not become a pull request.
#[derive(Debug, Clone, PartialEq, Eq)]
pub enum PrError {
    /// The Turnstile check failed.
    BadTurnstile,
    /// The group location is not a slug.
    InvalidGroupLocation,
    /// A configuration variable could not be read; the text says why.
    MissingVar(String),
    /// `GITHUB_APP_ID` is not a `u64`.
    InvalidAppId(U64ParseError),
    /// `GITHUB_INSTALLATION_ID` is not a `u64`.
    InvalidInstallationId(U64ParseError),
    /// The GitHub client could not be set up.
    ClientSetup(String),
    /// The base branch could not be read.
    GetBaseBranch(String),
    /// The base branch does not point to a commit.
    BaseNotCommit,
    /// The submission branch could not be created.
    CreateBranch(String),
    /// The file could not be created.
    CreateFile(String),
    /// The pull request could not be opened.
    CreatePullRequest(String),
}

/// The message of a `u64` parse error.
pub open spec fn parse_error_text(e: U64ParseError) -> Seq<char> {
    match e {
        U64ParseError::Empty => "cannot parse integer from empty string"@,
        U64ParseError::InvalidDigit => "invalid digit found in string"@,
        U64ParseError::PosOverflow => "number too large to fit in target type"@,
    }
}

/// The message of a pull-request error.
pub open spec fn pr_error_text(e: PrError) -> Seq<char> {
    match e {
        PrError::BadTurnstile => "bad turnstile"@,
        PrError::InvalidGroupLocation => "invalid group_location"@,
        PrError::MissingVar(why) => why@,
        PrError::InvalidAppId(k) => "invalid GITHUB_APP_ID: "@ + parse_error_text(k),
        PrError::InvalidInstallationId(k) => "invalid GITHUB_INSTALLATION_ID: "@ + parse_error_text(k),
        PrError::ClientSetup(why) => "GitHub auth/client setup: "@ + why@,
        PrError::GetBaseBranch(why) => "get base branch: "@ + why@,
        PrError::BaseNotCommit => "base branch did not point to a commit"@,
        PrError::CreateBranch(why) => "create branch: "@ + why@,
        PrError::CreateFile(why) => "create file: "@ + why@,
        PrError::CreatePullRequest(why) => "create pull request: "@ + why@,
    }
}

impl U64ParseError {
    /// The message of this error.
    pub fn message(&self) -> (text: &'static str)
        ensures
            text@ == parse_error_text(*self),
    {
        match self {
            U64ParseError::Empty => "cannot parse integer from empty string",
            U64ParseError::InvalidDigit => "invalid digit found in string",
            U64ParseError::PosOverflow => "number too large to fit in target type",
        }
    }
}

impl PrError {
    /// The message of this error.
    pub fn message(&self) -> (text: String)
        ensures
            text@ == pr_error_text(*self),
    {
        let mut text = String::new();
        match self {
            PrError::BadTurnstile => text.append("bad turnstile"),
            PrError::InvalidGroupLocation => text.append("invalid group_location"),
            PrError::MissingVar(why) => text.append(why.as_str()),
            PrError::InvalidAppId(k) => {
                text.append("invalid GITHUB_APP_ID: ");
                text.append(k.message());
            },
            PrError::InvalidInstallationId(k) => {
                text.append("invalid GITHUB_INSTALLATION_ID: ");
                text.append(k.message());
            },
            PrError::ClientSetup(why) => {
                text.append("GitHub auth/client setup: ");
                text.append(why.as_str());
            },
            PrError::GetBaseBranch(why) => {
                text.append("get base branch: ");
                text.append(why.as_str());
            },
            PrError::BaseNotCommit => text.append("base branch did not point to a commit"),
            PrError::CreateBranch(why) => {
                text.append("create branch: ");
                text.append(why.as_str());
            },
            PrError::CreateFile(why) => {
                text.append("create file: ");
                text.append(why.as_str());
            },
            PrError::CreatePullRequest(why) => {
                text.append("create pull request: ");
                text.append(why.as_str());
            },
        }
        proof {
            reveal_strlit("");
        }
        text
    }
}

/// The GitHub configuration as read from the environment: each variable's
/// text, or why it could not be read.
#[derive(Debug)]
pub struct GithubEnv {
    pub app_id: Result<String, String>,
    pub installation_id: Result<String, String>,
    pub owner: Result<String, String>,
    pub repo: Result<String, String>,
    pub base_branch: Result<String, String>,
    pub private_key: Result<String, String>,
}

/// The checked GitHub configuration of one submission.
#[derive(Debug, Clone)]
pub struct GithubSetup {
    pub app_id: u64,
    pub installation_id: u64,
    pub owner: String,
    pub repo: String,
    pub base_branch: String,
    pub private_key: String,
}

/// The outcome of the checks made before any GitHub call: the Turnstile
/// check passed, the group location is a slug, and every configuration
/// variable reads (the two ids as `u64`), in this order.
pub open spec fn github_setup(passed: bool, slug_ok: bool, env: GithubEnv) -> Result<GithubSetup, PrError> {
    if !passed {
        Err(PrError::BadTurnstile)
    } else if !slug_ok {
        Err(PrError::InvalidGroupLocation)
    } else {
        match env.app_id {
            Err(why) => Err(PrError::MissingVar(why)),
            Ok(app_id) => match u64_parse(encode_utf8(app_id@)) {
                Err(k) => Err(PrError::InvalidAppId(k)),
                Ok(app_id) => match env.installation_id {
                    Err(why) => Err(PrError::MissingVar(why)),
                    Ok(installation_id) => match u64_parse(encode_utf8(installation_id@)) {
                        Err(k) => Err(PrError::InvalidInstallationId(k)),
                        Ok(installation_id) => match env.owner {
                            Err(why) => Err(PrError::MissingVar(why)),
                            Ok(owner) => match env.repo {
                                Err(why) => Err(PrError::MissingVar(why)),
                                Ok(repo) => match env.base_branch {
                                    Err(why) => Err(PrError::MissingVar(why)),
                                    Ok(base_branch) => match env.private_key {
                                        Err(why) => Err(PrError::MissingVar(why)),
                                        Ok(private_key) => Ok(
                                            GithubSetup {
                                                app_id,
                                                installation_id,
                                                owner,
                                                repo,
                                                base_branch,
                                                private_key,
                                            },
                                        ),
                                    },
                                },
                            },
                        },
                    },
                },
            },
        }
    }
}

/// The checks made before any GitHub call for `submission`, given the
/// result of its Turnstile check and the configuration read from the
/// environment.
pub fn content_pr_setup(submission: &ContentSubmission, validation: &TurnstileResult, env: GithubEnv) -> (setup:
    Result<GithubSetup, PrError>)
    ensures
        setup == github_setup(
            validation.success,
            is_slug(submission.group_location@),
            env,
        ),
        setup is Ok ==> validation.success && is_slug(submission.group_location@),
{
    if !validation.success {
        return Err(PrError::BadTurnstile);
    }
    if !valid_slug(submission.group_location.as_str()) {
        return Err(PrError::InvalidGroupLocation);
    }
    let app_id = match env.app_id {
        Err(why) => return Err(PrError::MissingVar(why)),
        Ok(text) => match parse_u64(text.as_str()) {
            Err(k) => return Err(PrError::InvalidAppId(k)),
            Ok(v) => v,
        },
    };
    let installation_id = match env.installation_id {
        Err(why) => return Err(PrError::MissingVar(why)),
        Ok(text) => match parse_u64(text.as_str()) {
            Err(k) => return Err(PrError::InvalidInstallationId(k)),
            Ok(v) => v,
        },
    };
    let owner = match env.owner {
        Err(why) => return Err(PrError::MissingVar(why)),
        Ok(v) => v,
    };
    let repo = match env.repo {
        Err(why) => return Err(PrError::MissingVar(why)),
        Ok(v) => v,
    };
    let base_branch = match env.base_branch {
        Err(why) => return Err(PrError::MissingVar(why)),
        Ok(v) => v,
    };
    let private_key = match env.private_key {
        Err(why) => return Err(PrError::MissingVar(why)),
        Ok(v) => v,
    };
    Ok(GithubSetup { app_id, installation_id, owner, repo, base_branch, private_key })
}

/// The branch, file and pull request of a submission.
#[derive(Debug, Clone)]
pub struct PrPlan {
    pub branch: String,
    pub path: String,
    pub commit_message: String,
    pub contents: Vec<u8>,
    pub title: String,
    pub body: String,
}

/// `location-type`, the name of a submission in messages.
pub open spec fn submission_name(location: Seq<char>, content_type: Seq<char>) -> Seq<char> {
    location + "-"@ + content_type
}

/// The branch of a submission made at `timestamp` (milliseconds).
pub open spec fn submission_branch(location: Seq<char>, content_type: Seq<char>, timestamp: u64) -> Seq<char> {
    submission_name(location, content_type) + "-"@ + decimal(timestamp as nat)
}

/// The file of a submission made at `timestamp`: `type/location/timestamp.ending`.
pub open spec fn submission_path(
    location: Seq<char>,
    content_type: Seq<char>,
    file_ending: Seq<char>,
    timestamp: u64,
) -> Seq<char> {
    content_type + "/"@ + location + "/"@ + decimal(timestamp as nat) + "."@ + file_ending
}

/// A path segment that names an entry inside its parent directory: not
/// empty, not `.` or `..`, and without `/`.
pub open spec fn is_safe_segment(s: Seq<char>) -> bool {
    &&& s.len() > 0
    &&& s != "."@
    &&& s != ".."@
    &&& forall|i: int| 0 <= i < s.len() ==> s[i] != '/'
}

/// A submission's file lies three levels down, in safe segments: once the
/// checks before any GitHub call passed, the path of an article or event
/// file is its type, its group location and its file name, joined by `/`,
/// none of them empty, `.`, `..` or holding a `/`.
pub proof fn lemma_submission_path_segments(
    passed: bool,
    env: GithubEnv,
    location: Seq<char>,
    content_type: Seq<char>,
    file_ending: Seq<char>,
    timestamp: u64,
)
    requires
        github_setup(passed, is_slug(location), env) is Ok,
        content_type == "articles"@ || content_type == "events"@,
        file_ending == "md"@ || file_ending == "json"@,
    ensures
        submission_path(location, content_type, file_ending, timestamp) == content_type + "/"@ + location
            + "/"@ + (decimal(timestamp as nat) + "."@ + file_ending),
        is_safe_segment(content_type),
        is_safe_segment(location),
        is_safe_segment(decimal(timestamp as nat) + "."@ + file_ending),
{
    reveal_strlit("articles");
    reveal_strlit("events");
    reveal_strlit("md");
    reveal_strlit("json");
    reveal_strlit(".");
    reveal_strlit("..");
    reveal_strlit("/");
    assert(is_slug(location));
    assert(location[0] != '.');
    let name = decimal(timestamp as nat) + "."@ + file_ending;
    lemma_decimal_is_digits(timestamp as nat);
    assert(name.len() >= 3);
    assert forall|i: int| 0 <= i < name.len() implies name[i] != '/' by {
        if i < decimal(timestamp as nat).len() {
            assert(name[i] == decimal(timestamp as nat)[i]);
        }
    }
    assert(submission_path(location, content_type, file_ending, timestamp) =~= content_type + "/"@ + location
        + "/"@ + name);
}

/// The text of `p` before its first `/` (all of `p` when it has none).
pub open spec fn first_segment(p: Seq<char>) -> Seq<char>
    decreases p.len(),
{
    if p.len() == 0 {
        p
    } else if p[0] == '/' {
        Seq::<char>::empty()
    } else {
        seq![p[0]] + first_segment(p.drop_first())
    }
}

proof fn lemma_first_segment_of(a: Seq<char>, b: Seq<char>)
    requires
        forall|i: int| 0 <= i < a.len() ==> a[i] != '/',
    ensures
        first_segment(a + seq!['/'] + b) == a,
    decreases a.len(),
{
    let p = a + seq!['/'] + b;
    if a.len() == 0 {
        assert(p[0] == '/');
        assert(a =~= Seq::<char>::empty());
    } else {
        lemma_first_segment_of(a.drop_first(), b);
        assert(p.drop_first() =~= a.drop_first() + seq!['/'] + b);
        assert(seq![a[0]] + a.drop_first() =~= a);
    }
}

/// The branch, commit message, pull-request title and body name the
/// submission after the directory its file is written under: the name is
/// the group location, a dash and the first segment of the file's path (its
/// content type), and the branch adds a dash and the timestamp that names
/// the file. Submissions of different content types get different names.
pub proof fn lemma_names_agree_with_path(
    location: Seq<char>,
    content_type: Seq<char>,
    file_ending: Seq<char>,
    timestamp: u64,
)
    requires
        forall|i: int| 0 <= i < content_type.len() ==> content_type[i] != '/',
    ensures
        submission_name(location, content_type) == location + "-"@ + first_segment(
            submission_path(location, content_type, file_ending, timestamp),
        ),
        submission_branch(location, content_type, timestamp) == location + "-"@ + first_segment(
            submission_path(location, content_type, file_ending, timestamp),
        ) + "-"@ + decimal(timestamp as nat),
        forall|other: Seq<char>|
            #[trigger] submission_name(location, other) == submission_name(location, content_type) ==> other
                == content_type,
{
    reveal_strlit("/");
    let rest = location + "/"@ + decimal(timestamp as nat) + "."@ + file_ending;
    assert(submission_path(location, content_type, file_ending, timestamp) =~= content_type + seq!['/'] + rest);
    lemma_first_segment_of(content_type, rest);
    assert forall|other: Seq<char>|
        #[trigger] submission_name(location, other) == submission_name(location, content_type) implies other
        == content_type by {
        let prefix = location + "-"@;
        assert(submission_name(location, other) =~= prefix + other);
        assert(submission_name(location, content_type) =~= prefix + content_type);
        assert(other =~= (prefix + other).subrange(prefix.len() as int, (prefix + other).len() as int));
        assert(content_type =~= (prefix + content_type).subrange(
            prefix.len() as int,
            (prefix + content_type).len() as int,
        ));
    }
}

/// Names the branch, file, commit and pull request of `submission`, made at
/// `timestamp`; the file holds the content followed by a newline.
pub fn content_pr_plan(submission: &ContentSubmission, timestamp: u64) -> (plan: PrPlan)
    ensures
        plan.branch@ == submission_branch(
            submission.group_location@,
            submission.content_type@,
            timestamp,
        ),
        plan.path@ == submission_path(
            submission.group_location@,
            submission.content_type@,
            submission.file_ending@,
            timestamp,
        ),
        plan.commit_message@ == "Add content submission for "@ + submission_name(
            submission.group_location@,
            submission.content_type@,
        ),
        plan.contents@ == encode_utf8(submission.content@).push(10u8),
        plan.title@ == "Content submission: "@ + submission_name(
            submission.group_location@,
            submission.content_type@,
        ),
        plan.body@ == "Automated content submission for `"@ + submission_name(
            submission.group_location@,
            submission.content_type@,
        ) + "`."@,
{
    let location = submission.group_location.as_str();
    let content_type = submission.content_type.as_str();
    let mut name = String::new();
    name.append(location);
    name.append("-");
    name.append(content_type);

    let mut branch = String::new();
    branch.append(name.as_str());
    branch.append("-");
    push_decimal(&mut branch, timestamp);

    let mut path = String::new();
    path.append(content_type);
    path.append("/");
    path.append(location);
    path.append("/");
    push_decimal(&mut path, timestamp);
    path.append(".");
    path.append(submission.file_ending.as_str());

    let mut commit_message = String::new();
    commit_message.append("Add content submission for ");
    commit_message.append(name.as_str());

    let bytes = submission.content.as_str().as_bytes();
    let mut contents: Vec<u8> = Vec::new();
    let mut i: usize = 0;
    while i < bytes.len()
        invariant
            i <= bytes@.len(),
            contents@ == bytes@.take(i as int),
        decreases bytes@.len() - i,
    {
        contents.push(bytes[i]);
        i += 1;
        assert(contents@ == bytes@.take(i as int));
    }
    assert(bytes@.take(bytes@.len() as int) == bytes@);
    contents.push(10u8);

    let mut title = String::new();
    title.append("Content submission: ");
    title.append(name.as_str());

    let mut body = String::new();
    body.append("Automated content submission for `");
    body.append(name.as_str());
    body.append("`.");

    PrPlan { branch, path, commit_message, contents, title, body }
}

/// The commit the base branch points to: its sha when the reference
/// names a commit (`None` for another kind of object).
pub fn base_commit(commit_sha: Option<String>) -> (sha: Result<String, PrError>)
    ensures
        commit_sha is Some ==> sha == Ok::<String, PrError>(commit_sha->0),
        commit_sha is None ==> sha == Err::<String, PrError>(PrError::BaseNotCommit),
{
    match commit_sha {
        Some(s) => Ok(s),
        None => Err(PrError::BaseNotCommit),
    }
}

/// A byte kept as is in `application/x-www-form-urlencoded` text.
pub open spec fn urlencoded_unchanged(b: u8) -> bool {
    b == 42 || b == 45 || b == 46 || (48 <= b <= 57) || (65 <= b <= 90) || b == 95 || (97 <= b <= 122)
}

/// An upper-case hexadecimal digit for `0 <= n < 16`.
pub open spec fn upper_hex_char(n: int) -> char {
    if n < 10 {
        (48 + n) as char
    } else {
        (55 + n) as char
    }
}

/// How one byte is written in `application/x-www-form-urlencoded` text.
pub open spec fn urlencoded_byte(b: u8) -> Seq<char> {
    if urlencoded_unchanged(b) {
        seq![b as char]
    } else if b == 32 {
        seq!['+']
    } else {
        seq!['%', upper_hex_char(b as int / 16), upper_hex_char(b as int % 16)]
    }
}

/// The bytes `b` in `application/x-www-form-urlencoded` text.
pub open spec fn urlencoded(b: Seq<u8>) -> Seq<char>
    decreases b.len(),
{
    if b.len() == 0 {
        seq![]
    } else {
        urlencoded(b.drop_last()) + urlencoded_byte(b.last())
    }
}

/// Calls `form_urlencoded::Serializer::new(String::new())`, then
/// `append_pair(name, value)` and `finish()`. Claimed, as its source shows:
/// the text is `name=value`, each side's UTF-8 bytes kept when they are
/// ASCII letters, digits or `*-._`, a space written `+`, any other byte
/// written `%XX` in upper-case hex.
#[verifier::external_body]
fn urlencoded_pair(name: &str, value: &str) -> (text: String)
    ensures
        text@ == urlencoded(name.spec_bytes()) + "="@ + urlencoded(value.spec_bytes()),
{
    form_urlencoded::Serializer::new(String::new()).append_pair(name, value).finish()
}

/// The answer to a content submission.
#[derive(Debug, Clone)]
pub struct PrAnswer {
    pub status: u16,
    pub location: Option<String>,
    pub json_body: Option<&'static str>,
}

/// The body answering a failed submission.
pub open spec fn pr_failure_body() -> Seq<char> {
    "{\"error\":\"failed to create pull request\",\"ok\":false}"@
}

/// The address of the confirmation page for the pull request `url`.
pub open spec fn submitted_page(url: Seq<char>) -> Seq<char> {
    "/pages/articlesubmitted?pr_url="@ + urlencoded(encode_utf8(url))
}

/// A character that stands inside a form-urlencoded value without ending
/// it: an ASCII letter or digit, `*`, `-`, `.`, `_`, `+` or `%`.
pub open spec fn is_urlencoded_char(c: char) -> bool {
    ('a' <= c <= 'z') || ('A' <= c <= 'Z') || ('0' <= c <= '9') || c == '*' || c == '-' || c == '.' || c == '_'
        || c == '+' || c == '%'
}

proof fn lemma_urlencoded_chars(b: Seq<u8>)
    ensures
        forall|i: int| 0 <= i < urlencoded(b).len() ==> is_urlencoded_char(#[trigger] urlencoded(b)[i]),
    decreases b.len(),
{
    if b.len() > 0 {
        lemma_urlencoded_chars(b.drop_last());
        let head = urlencoded(b.drop_last());
        let tail = urlencoded_byte(b.last());
        assert(forall|i: int| 0 <= i < tail.len() ==> is_urlencoded_char(#[trigger] tail[i]));
        assert forall|i: int| 0 <= i < urlencoded(b).len() implies is_urlencoded_char(#[trigger] urlencoded(b)[i]) by {
            if i < head.len() {
                assert(urlencoded(b)[i] == head[i]);
            } else {
                assert(urlencoded(b)[i] == tail[i - head.len()]);
            }
        }
    }
}

/// The confirmation page's address carries the pull request's address as
/// a single `pr_url` query value: after `pr_url=` come only letters,
/// digits and `*-._+%`, so no `&`, `=`, `#`, `/`, `?` or space of the
/// address survives unescaped.
pub proof fn lemma_submitted_page_has_one_query_value(url: Seq<char>)
    ensures
        exists|v: Seq<char>|
            submitted_page(url) == "/pages/articlesubmitted?pr_url="@ + v && forall|i: int|
                0 <= i < v.len() ==> is_urlencoded_char(#[trigger] v[i]),
{
    lemma_urlencoded_chars(encode_utf8(url));
    let v = urlencoded(encode_utf8(url));
    assert(submitted_page(url) == "/pages/articlesubmitted?pr_url="@ + v);
    assert(forall|i: int| 0 <= i < v.len() ==> is_urlencoded_char(#[trigger] v[i]));
}

/// The parameter name `pr_url` is kept as is in form-urlencoded text.
proof fn lemma_pr_url_name_unchanged()
    ensures
        urlencoded("pr_url".spec_bytes()) == "pr_url"@,
{
    reveal_strlit("pr_url");
    assert(is_ascii("pr_url"));
    vstd::string::is_ascii_spec_bytes("pr_url");
    let b = "pr_url".spec_bytes();
    assert(b == seq![112u8, 114u8, 95u8, 117u8, 114u8, 108u8]);
    reveal_with_fuel(urlencoded, 7);
    assert(b.drop_last().drop_last().drop_last().drop_last().drop_last().drop_last() == Seq::<u8>::empty());
    assert(urlencoded(b) == "pr_url"@);
}

/// `answer` answers a submission whose pull-request step ended with
/// `result`: a 303 redirect to the confirmation page carrying the pull
/// request's address (the empty text when GitHub gave none), or, for any
/// error, a 500 with the same JSON error body.
pub open spec fn answers_pr_result(answer: PrAnswer, result: Result<Option<String>, PrError>) -> bool {
    if result is Ok {
        &&& answer.status == 303
        &&& answer.json_body is None
        &&& answer.location is Some
        &&& answer.location->0@ == submitted_page(text_or_empty(result->Ok_0))
    } else {
        &&& answer.status == 500
        &&& answer.location is None
        &&& answer.json_body is Some
        &&& answer.json_body->0@ == pr_failure_body()
    }
}

/// Answers a submission from the outcome of its pull-request step.
pub fn pr_answer(result: &Result<Option<String>, PrError>) -> (answer: PrAnswer)
    ensures
        answers_pr_result(answer, *result),
{
    match result {
        Ok(url) => {
            let u: &str = match url {
                Some(u) => u.as_str(),
                None => "",
            };
            proof {
                reveal_strlit("");
                lemma_pr_url_name_unchanged();
            }
            let pair = urlencoded_pair("pr_url", u);
            let mut location = String::new();
            location.append("/pages/articlesubmitted?");
            location.append(pair.as_str());
            proof {
                reveal_strlit("/pages/articlesubmitted?");
                reveal_strlit("/pages/articlesubmitted?pr_url=");
                reveal_strlit("=");
                reveal_strlit("pr_url");
                assert("/pages/articlesubmitted?"@ + "pr_url"@ + "="@ =~= "/pages/articlesubmitted?pr_url="@);
                assert(u@ == text_or_empty(*url));
                assert(location@ =~= submitted_page(u@));
            }
            PrAnswer { status: 303, location: Some(location), json_body: None }
        },
        Err(_) => PrAnswer {
            status: 500,
            location: None,
            json_body: Some("{\"error\":\"failed to create pull request\",\"ok\":false}"),
        },
    }
}

} // verus!
