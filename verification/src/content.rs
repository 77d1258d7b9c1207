//! Content submissions (articles and events) that become pull requests on
//! the website repository.
use vstd::prelude::*;
use vstd::string::*;

use crate::clock::{date_text, is_clock_reading, reading_date_text, utc_now, ClockReading};
use crate::json::{is_json_string_literal, json_quote, json_string, lemma_json_quote_reads_back};
use crate::pull_request::{answers_pr_result, pr_answer, PrAnswer, PrError};
use crate::text::{push_char, str_chars};

verus! {

/// A submitted article.
#[derive(Debug, Clone)]
pub struct OpenContentPrRequest {
    pub data: String,
    pub cf_turnstile_response: String,
    pub title: String,
    pub authors: String,
    pub image_url: String,
    pub image_alt: String,
}

/// A submitted event.
#[derive(Debug, Clone)]
pub struct OpenEventPrRequest {
    pub cf_turnstile_response: String,
    pub title: String,
    pub image: String,
    pub image_alt: String,
    pub location: String,
    pub date: String,
}

/// A comma-separated author list as TOML strings: each author between
/// double quotes, the authors separated by `, `.
pub open spec fn quoted_authors(authors: Seq<char>) -> Seq<char> {
    seq!['"'] + comma_to_separator(authors) + seq!['"']
}

/// `s` with every `,` replaced by `", "`.
pub open spec fn comma_to_separator(s: Seq<char>) -> Seq<char>
    decreases s.len(),
{
    if s.len() == 0 {
        seq![]
    } else {
        comma_to_separator(s.drop_last()) + if s.last() == ',' {
            "\", \""@
        } else {
            seq![s.last()]
        }
    }
}

proof fn lemma_separator_concat(a: Seq<char>, b: Seq<char>)
    ensures
        comma_to_separator(a + b) == comma_to_separator(a) + comma_to_separator(b),
    decreases b.len(),
{
    if b.len() == 0 {
        assert(a + b == a);
    } else {
        lemma_separator_concat(a, b.drop_last());
        assert((a + b).drop_last() == a + b.drop_last());
        assert((a + b).last() == b.last());
    }
}

/// Each comma-separated author is quoted on its own: the list `a,b` is
/// written as the list `a`, then `, `, then the list `b`.
pub proof fn lemma_authors_split_at_comma(a: Seq<char>, b: Seq<char>)
    ensures
        quoted_authors(a + seq![','] + b) == quoted_authors(a) + ", "@ + quoted_authors(b),
{
    lemma_separator_concat(a + seq![','], b);
    lemma_separator_concat(a, seq![',']);
    assert(seq![','].drop_last() == Seq::<char>::empty());
    assert(comma_to_separator(seq![',']) == "\", \""@) by {
        assert(seq![','].last() == ',');
        assert(comma_to_separator(Seq::<char>::empty()) == Seq::<char>::empty());
        assert(Seq::<char>::empty() + "\", \""@ =~= "\", \""@);
    }
    reveal_strlit("\", \"");
    reveal_strlit(", ");
    assert(quoted_authors(a + seq![','] + b) =~= quoted_authors(a) + ", "@ + quoted_authors(b));
}

/// A single author (no comma) is written between double quotes.
pub proof fn lemma_single_author_quoted(a: Seq<char>)
    requires
        forall|i: int| 0 <= i < a.len() ==> a[i] != ',',
    ensures
        quoted_authors(a) == seq!['"'] + a + seq!['"'],
{
    lemma_separator_is_identity_without_commas(a);
}

proof fn lemma_separator_is_identity_without_commas(a: Seq<char>)
    requires
        forall|i: int| 0 <= i < a.len() ==> a[i] != ',',
    ensures
        comma_to_separator(a) == a,
    decreases a.len(),
{
    if a.len() > 0 {
        lemma_separator_is_identity_without_commas(a.drop_last());
        assert(a.drop_last().push(a.last()) == a);
    }
}

/// The Zola front matter of an article.
pub open spec fn article_header(
    title: Seq<char>,
    date: Seq<char>,
    authors: Seq<char>,
    image_url: Seq<char>,
    image_alt: Seq<char>,
    branch: Seq<char>,
) -> Seq<char> {
    "+++\ntitle= \""@ + title + "\"\ndate = "@ + date + "\nauthors = ["@ + quoted_authors(authors)
        + "]\n[extra]\nimage = \""@ + image_url + "\"\nimage_alt = \""@ + image_alt + "\"\nbranch=\""@
        + branch + "\"\n+++\n"@
}

impl OpenContentPrRequest {
    /// The front matter heading the article, for the site `branch` and the
    /// publication `date`.
    pub fn get_article_header(&self, branch: &str, date: &str) -> (header: String)
        ensures
            header@ == article_header(
                self.title@,
                date@,
                self.authors@,
                self.image_url@,
                self.image_alt@,
                branch@,
            ),
    {
        let mut header = String::new();
        header.append("+++\ntitle= \"");
        header.append(self.title.as_str());
        header.append("\"\ndate = ");
        header.append(date);
        header.append("\nauthors = [");
        push_char(&mut header, '"');
        let ghost before = header@;
        let chars = str_chars(self.authors.as_str());
        let mut i: usize = 0;
        while i < chars.len()
            invariant
                chars@ == self.authors@,
                i <= chars@.len(),
                header@ == before + comma_to_separator(chars@.take(i as int)),
            decreases chars@.len() - i,
        {
            let c = chars[i];
            let ghost prev = chars@.take(i as int);
            assert(chars@.take(i + 1).drop_last() == prev);
            if c == ',' {
                header.append("\", \"");
            } else {
                push_char(&mut header, c);
            }
            i += 1;
        }
        assert(chars@.take(chars@.len() as int) == chars@);
        push_char(&mut header, '"');
        header.append("]\n[extra]\nimage = \"");
        header.append(self.image_url.as_str());
        header.append("\"\nimage_alt = \"");
        header.append(self.image_alt.as_str());
        header.append("\"\nbranch=\"");
        header.append(branch);
        header.append("\"\n+++\n");
        header
    }
}

/// A submission on its way to becoming a pull request.
#[derive(Debug, Clone)]
pub struct ContentSubmission {
    pub group_location: String,
    pub content_type: String,
    pub content: String,
    pub turnstile_token: String,
    pub file_ending: String,
}

/// The JSON events file holding one event.
pub open spec fn events_text(
    title: Seq<char>,
    date: Seq<char>,
    image: Seq<char>,
    image_alt: Seq<char>,
    location: Seq<char>,
) -> Seq<char> {
    "{\"events\":[{\"title\":"@ + json_quote(title) + ",\"date\":"@ + json_quote(date)
        + ",\"image\":"@ + json_quote(image) + ",\"image_alt\":"@ + json_quote(image_alt)
        + ",\"location\":"@ + json_quote(location) + "}]}"@
}

/// The events file is JSON: an object whose `events` array holds one
/// object, whose `title`, `date`, `image`, `image_alt` and `location`
/// members are string literals that read back as the submitted texts.
pub proof fn lemma_events_file_is_json(
    title: Seq<char>,
    date: Seq<char>,
    image: Seq<char>,
    image_alt: Seq<char>,
    location: Seq<char>,
)
    ensures
        exists|l1: Seq<char>, l2: Seq<char>, l3: Seq<char>, l4: Seq<char>, l5: Seq<char>|
            {
                &&& is_json_string_literal(l1, title)
                &&& is_json_string_literal(l2, date)
                &&& is_json_string_literal(l3, image)
                &&& is_json_string_literal(l4, image_alt)
                &&& is_json_string_literal(l5, location)
                &&& events_text(title, date, image, image_alt, location) == "{\"events\":[{\"title\":"@ + l1
                    + ",\"date\":"@ + l2 + ",\"image\":"@ + l3 + ",\"image_alt\":"@ + l4 + ",\"location\":"@
                    + l5 + "}]}"@
            },
{
    lemma_json_quote_reads_back(title);
    lemma_json_quote_reads_back(date);
    lemma_json_quote_reads_back(image);
    lemma_json_quote_reads_back(image_alt);
    lemma_json_quote_reads_back(location);
    let l1 = json_quote(title);
    let l2 = json_quote(date);
    let l3 = json_quote(image);
    let l4 = json_quote(image_alt);
    let l5 = json_quote(location);
    assert(events_text(title, date, image, image_alt, location) == "{\"events\":[{\"title\":"@ + l1
        + ",\"date\":"@ + l2 + ",\"image\":"@ + l3 + ",\"image_alt\":"@ + l4 + ",\"location\":"@ + l5
        + "}]}"@);
}

/// Writes the events file for one event.
pub fn events_json(input: &OpenEventPrRequest) -> (text: String)
    ensures
        text@ == events_text(input.title@, input.date@, input.image@, input.image_alt@, input.location@),
{
    let mut text = String::new();
    text.append("{\"events\":[{\"title\":");
    text.append(json_string(input.title.as_str()).as_str());
    text.append(",\"date\":");
    text.append(json_string(input.date.as_str()).as_str());
    text.append(",\"image\":");
    text.append(json_string(input.image.as_str()).as_str());
    text.append(",\"image_alt\":");
    text.append(json_string(input.image_alt.as_str()).as_str());
    text.append(",\"location\":");
    text.append(json_string(input.location.as_str()).as_str());
    text.append("}]}");
    text
}

/// `s` is the submission of the event `input` for `group_location`: the
/// events file under `events`, as JSON.
pub open spec fn is_events_submission(s: ContentSubmission, group_location: String, input: OpenEventPrRequest) -> bool {
    &&& s.group_location == group_location
    &&& s.content_type@ == "events"@
    &&& s.content@ == events_text(input.title@, input.date@, input.image@, input.image_alt@, input.location@)
    &&& s.turnstile_token == input.cf_turnstile_response
    &&& s.file_ending@ == "json"@
}

/// `s` is the submission of the article `input` for `group_location`,
/// dated `date`: front matter and markdown under `articles`.
pub open spec fn is_article_submission(
    s: ContentSubmission,
    group_location: String,
    input: OpenContentPrRequest,
    date: Seq<char>,
) -> bool {
    &&& s.group_location == group_location
    &&& s.content_type@ == "articles"@
    &&& s.content@ == article_header(
        input.title@,
        date,
        input.authors@,
        input.image_url@,
        input.image_alt@,
        group_location@,
    ) + input.data@
    &&& s.turnstile_token == input.cf_turnstile_response
    &&& s.file_ending@ == "md"@
}

/// The submission of an event.
pub fn events_submission(group_location: String, input: OpenEventPrRequest) -> (submission: ContentSubmission)
    ensures
        is_events_submission(submission, group_location, input),
{
    let content = events_json(&input);
    ContentSubmission {
        group_location,
        content_type: "events".to_owned(),
        content,
        turnstile_token: input.cf_turnstile_response,
        file_ending: "json".to_owned(),
    }
}

/// The submission of an article dated `date`.
pub fn article_submission(group_location: String, input: OpenContentPrRequest, date: &str) -> (submission:
    ContentSubmission)
    ensures
        is_article_submission(submission, group_location, input, date@),
{
    let mut content = input.get_article_header(group_location.as_str(), date);
    content.append(input.data.as_str());
    ContentSubmission {
        group_location,
        content_type: "articles".to_owned(),
        content,
        turnstile_token: input.cf_turnstile_response,
        file_ending: "md".to_owned(),
    }
}

/// What happens to a submission handler: the request with its group
/// location and form arrives, or its pull-request step ended.
#[derive(Debug)]
pub enum SubmissionEvent<R> {
    Received { group_location: String, input: R },
    PrDone(Result<Option<String>, PrError>),
}

/// What a submission handler does next: open the pull request of this
/// submission, or send this answer.
#[derive(Debug)]
pub enum SubmissionStep {
    OpenPr(ContentSubmission),
    Answer(PrAnswer),
}

/// The event-submission handler: a received event becomes a pull request
/// of its events file; once that step ended, the submitter gets a 303 to
/// the confirmation page, or a 500 with the JSON error body.
pub fn open_events_pr(event: SubmissionEvent<OpenEventPrRequest>) -> (step: SubmissionStep)
    ensures
        event matches SubmissionEvent::Received { group_location, input } ==> (step matches SubmissionStep::OpenPr(
            s,
        ) && is_events_submission(s, group_location, input)),
        event matches SubmissionEvent::PrDone(r) ==> (step matches SubmissionStep::Answer(a) && answers_pr_result(
            a,
            r,
        )),
{
    match event {
        SubmissionEvent::Received { group_location, input } => SubmissionStep::OpenPr(
            events_submission(group_location, input),
        ),
        SubmissionEvent::PrDone(r) => SubmissionStep::Answer(pr_answer(&r)),
    }
}

/// The submission of an article dated on the UTC day of the clock reading `now`.
pub fn article_submission_at(group_location: String, input: OpenContentPrRequest, now: &ClockReading) -> (submission:
    ContentSubmission)
    requires
        is_clock_reading(*now),
    ensures
        is_article_submission(
            submission,
            group_location,
            input,
            date_text(now.year as int, now.month as int, now.day as int),
        ),
{
    let date = reading_date_text(now);
    article_submission(group_location, input, date.as_str())
}

/// The article-submission handler: a received article becomes a pull
/// request of its markdown, dated on the UTC day the clock reads; once that
/// step ended, the submitter gets a 303 to the confirmation page, or a 500
/// with the JSON error body.
pub fn open_article_pr(event: SubmissionEvent<OpenContentPrRequest>) -> (step: SubmissionStep)
    ensures
        event matches SubmissionEvent::Received { group_location, input } ==> (step matches SubmissionStep::OpenPr(
            s,
        ) && exists|now: ClockReading|
            is_clock_reading(now) && is_article_submission(
                s,
                group_location,
                input,
                date_text(now.year as int, now.month as int, now.day as int),
            )),
        event matches SubmissionEvent::PrDone(r) ==> (step matches SubmissionStep::Answer(a) && answers_pr_result(
            a,
            r,
        )),
{
    match event {
        SubmissionEvent::Received { group_location, input } => {
            let now = utc_now();
            SubmissionStep::OpenPr(article_submission_at(group_location, input, &now))
        },
        SubmissionEvent::PrDone(r) => SubmissionStep::Answer(pr_answer(&r)),
    }
}

} // verus!
