//! The GitLab REST model: the records the API exchanges, how request URLs are
//! formed, and when a failed request is retried.
use vstd::prelude::*;
use base64::Engine;

use crate::error::ReforgeError;
use crate::error::ReforgeErrorView;
use crate::fmt::decimal_of;
use crate::fmt::decimal_spec;
use crate::fmt::digit_char;
use crate::text::push_text;
use crate::text::starts_with_spec;
use crate::text::chars_of;
use crate::text::extend_chars;
use crate::text::replace_all;
use crate::text::replace_spec;
use crate::text::string_of;
use crate::text::trim_end_char;
use crate::text::trim_end_char_in;

verus! {

/// Number of attempts a request gets before its failure is final.
pub const MAX_RETRIES: u32 = 3;

/// One entry of a repository tree listing.
#[derive(Debug, Clone)]
pub struct TreeEntry {
    pub id: String,
    pub name: String,
    pub path: String,
    pub entry_type: String,
    pub mode: String,
}

/// What a commit does to a file.
#[derive(Debug, Clone, Copy, PartialEq, Eq)]
pub enum CommitActionKind {
    Create,
    Update,
    Delete,
    Move,
}

/// One file change of a commit.
#[derive(Debug, Clone)]
pub struct CommitAction {
    pub action: CommitActionKind,
    pub file_path: String,
    pub content: String,
}

/// The fields of a merge request to create.
#[derive(Debug, Clone)]
pub struct CreateMrParams {
    pub source_branch: String,
    pub target_branch: String,
    pub title: String,
    pub description: String,
    pub labels: Vec<String>,
    pub assignee_ids: Vec<u64>,
    pub merge_when_pipeline_succeeds: Option<bool>,
}

/// The fields of a merge request to change.
#[derive(Debug, Clone)]
pub struct UpdateMrParams {
    pub title: Option<String>,
    pub description: Option<String>,
    pub state_event: Option<String>,
}

/// A merge request as the API lists it.
#[derive(Debug, Clone)]
pub struct MergeRequest {
    pub iid: u64,
    pub title: String,
    pub source_branch: String,
    pub target_branch: String,
    pub state: String,
    pub web_url: String,
}

pub struct MergeRequestView {
    pub iid: u64,
    pub title: Seq<char>,
    pub source_branch: Seq<char>,
    pub target_branch: Seq<char>,
    pub state: Seq<char>,
    pub web_url: Seq<char>,
}

impl View for MergeRequest {
    type V = MergeRequestView;

    open spec fn view(&self) -> MergeRequestView {
        MergeRequestView {
            iid: self.iid,
            title: self.title@,
            source_branch: self.source_branch@,
            target_branch: self.target_branch@,
            state: self.state@,
            web_url: self.web_url@,
        }
    }
}

impl MergeRequest {
    /// A copy with the same value.
    pub fn duplicate(&self) -> (r: Self)
        ensures
            r@ == self@,
    {
        MergeRequest {
            iid: self.iid,
            title: crate::text::copy_string(&self.title),
            source_branch: crate::text::copy_string(&self.source_branch),
            target_branch: crate::text::copy_string(&self.target_branch),
            state: crate::text::copy_string(&self.state),
            web_url: crate::text::copy_string(&self.web_url),
        }
    }
}

/// A merge request with its conflict and staleness fields.
#[derive(Debug, Clone)]
pub struct MrDetail {
    pub iid: u64,
    pub title: String,
    pub source_branch: String,
    pub target_branch: String,
    pub state: String,
    pub web_url: String,
    pub has_conflicts: bool,
    pub diverged_commits_count: Option<u64>,
}

/// An issue as the API returns it.
#[derive(Debug, Clone)]
pub struct Issue {
    pub iid: u64,
    pub title: String,
    pub description: Option<String>,
    pub web_url: String,
    pub state: String,
}

/// The API base of a GitLab instance: its URL without trailing slashes.
pub open spec fn base_url_spec(url: Seq<char>) -> Seq<char> {
    trim_end_char(url, '/')
}

/// Normalises a GitLab instance URL into the API base (trailing `/` removed).
pub fn base_url(url: &str) -> (r: String)
    ensures
        r@ == base_url_spec(url@),
{
    string_of(&trim_end_char_in(&chars_of(url), '/'))
}

/// The v4 API URL of `path` under `base`.
pub open spec fn api_url_spec(base: Seq<char>, path: Seq<char>) -> Seq<char> {
    base + "/api/v4"@ + path
}

/// Forms the v4 API URL of `path` under the base URL.
pub fn api_url(base: &str, path: &str) -> (r: String)
    ensures
        r@ == api_url_spec(base@, path@),
{
    let mut out = chars_of(base);
    extend_chars(&mut out, &chars_of("/api/v4"));
    extend_chars(&mut out, &chars_of(path));
    string_of(&out)
}

/// A project path as the API expects it in a URL: every `/` written `%2F`.
pub open spec fn encode_project_spec(project: Seq<char>) -> Seq<char> {
    replace_spec(project, "/"@, "%2F"@)
}

/// Encodes a project path (`group/project`) for use in an API URL.
pub fn encode_project(project: &str) -> (r: String)
    ensures
        r@ == encode_project_spec(project@),
{
    string_of(&replace_all(&chars_of(project), &chars_of("/"), &chars_of("%2F")))
}

/// Bytes that percent-encoding leaves as they are: letters, digits, `-`, `_`, `.`, `~`.
pub open spec fn unreserved(b: u8) -> bool {
    (65 <= b <= 90) || (97 <= b <= 122) || (48 <= b <= 57) || b == 45 || b == 95 || b == 46 || b == 126
}

/// An uppercase hexadecimal digit.
pub open spec fn upper_hex(d: nat) -> char {
    if d < 10 { digit_char(d) } else if d == 10 { 'A' } else if d == 11 { 'B' } else if d == 12 { 'C' }
    else if d == 13 { 'D' } else if d == 14 { 'E' } else { 'F' }
}

/// The percent-encoding of one byte.
pub open spec fn encode_byte(b: u8) -> Seq<char> {
    if unreserved(b) {
        seq![b as char]
    } else {
        seq!['%', upper_hex((b / 16) as nat), upper_hex((b % 16) as nat)]
    }
}

/// The percent-encoding of a byte sequence.
pub open spec fn encode_bytes(bs: Seq<u8>) -> Seq<char>
    decreases bs.len(),
{
    if bs.len() == 0 {
        seq![]
    } else {
        encode_bytes(bs.drop_last()) + encode_byte(bs.last())
    }
}

fn upper_hex_of(d: u8) -> (c: char)
    requires
        d < 16,
    ensures
        c == upper_hex(d as nat),
{
    if d == 0 { '0' } else if d == 1 { '1' } else if d == 2 { '2' } else if d == 3 { '3' }
    else if d == 4 { '4' } else if d == 5 { '5' } else if d == 6 { '6' } else if d == 7 { '7' }
    else if d == 8 { '8' } else if d == 9 { '9' } else if d == 10 { 'A' } else if d == 11 { 'B' }
    else if d == 12 { 'C' } else if d == 13 { 'D' } else if d == 14 { 'E' } else { 'F' }
}

/// Percent-encodes the UTF-8 bytes of `input` for a URL query or path segment.
pub fn encode(input: &str) -> (r: String)
    ensures
        r@ == encode_bytes(vstd::utf8::encode_utf8(input@)),
{
    let bytes = input.as_bytes();
    let ghost bs = bytes@;
    let mut out: Vec<char> = Vec::new();
    let mut i: usize = 0;
    while i < bytes.len()
        invariant
            i <= bs.len(),
            bs == bytes@,
            out@ == encode_bytes(bs.take(i as int)),
        decreases bs.len() - i,
    {
        let b = bytes[i];
        assert(bs.take(i + 1).drop_last() =~= bs.take(i as int));
        let ghost before = out@;
        if (65 <= b && b <= 90) || (97 <= b && b <= 122) || (48 <= b && b <= 57) || b == 45 || b == 95 || b == 46
            || b == 126 {
            out.push(b as char);
        } else {
            out.push('%');
            out.push(upper_hex_of(b / 16));
            out.push(upper_hex_of(b % 16));
        }
        assert(out@ =~= before + encode_byte(b));
        i = i + 1;
    }
    assert(bs.take(bs.len() as int) =~= bs);
    string_of(&out)
}

/// How one attempt of a request ended, as far as the retry decision needs it.
pub enum AttemptOutcome {
    /// A response arrived with this status; `retry_after` is the `retry-after`
    /// header's text when the header is present.
    Response { status: u16, retry_after: Option<String> },
    /// The request could not be sent or no response arrived.
    TransportError,
}

/// What to do after an attempt.
#[derive(Debug, PartialEq, Eq)]
pub enum RetryStep {
    /// Hand the response back: it succeeded.
    Success,
    /// Wait this many seconds (as the server asked), then make the next attempt.
    WaitSecs(u64),
    /// Wait this many milliseconds, then make the next attempt.
    WaitMillis(u64),
    /// Give up and report this attempt's failure.
    Fail,
}

/// The back-off before the next attempt after attempt `attempt` (0-based): 500 ms doubled per attempt.
pub open spec fn backoff_millis(attempt: u32) -> int {
    (500 * vstd::arithmetic::power2::pow2(attempt as nat)) as int
}

/// The retry policy: 2xx succeeds; 429 with a numeric `retry-after` waits that many
/// seconds; a 5xx or a transport error before the last attempt waits the back-off;
/// anything else fails.
pub open spec fn retry_step_spec(attempt: u32, status: Option<u16>, retry_after: Option<Seq<char>>) -> RetryStep {
    match status {
        Some(s) => {
            if 200 <= s <= 299 {
                RetryStep::Success
            } else if s == 429 && retry_after is Some && crate::text::parse_u64_spec(retry_after->0) is Some {
                RetryStep::WaitSecs(crate::text::parse_u64_spec(retry_after->0)->0)
            } else if 500 <= s <= 599 && attempt + 1 < MAX_RETRIES {
                RetryStep::WaitMillis(backoff_millis(attempt) as u64)
            } else {
                RetryStep::Fail
            }
        },
        None => {
            if attempt + 1 < MAX_RETRIES {
                RetryStep::WaitMillis(backoff_millis(attempt) as u64)
            } else {
                RetryStep::Fail
            }
        },
    }
}

/// Decides what follows attempt `attempt` of a request.
pub fn retry_step(attempt: u32, outcome: &AttemptOutcome) -> (r: RetryStep)
    requires
        attempt < MAX_RETRIES,
    ensures
        r == (match outcome {
            AttemptOutcome::Response { status, retry_after } => retry_step_spec(
                attempt,
                Some(*status),
                crate::text::opt_view(*retry_after),
            ),
            AttemptOutcome::TransportError => retry_step_spec(attempt, None, None),
        }),
{
    proof {
        vstd::arithmetic::power2::lemma2_to64();
    }
    let backoff: u64 = if attempt == 0 { 500 } else if attempt == 1 { 1000 } else { 2000 };
    assert(backoff == backoff_millis(attempt));
    match outcome {
        AttemptOutcome::Response { status, retry_after } => {
            let s = *status;
            if 200 <= s && s <= 299 {
                return RetryStep::Success;
            }
            if s == 429 {
                if let Some(text) = retry_after {
                    if let Some(secs) = crate::text::parse_u64(&chars_of(text.as_str())) {
                        return RetryStep::WaitSecs(secs);
                    }
                }
            }
            if 500 <= s && s <= 599 && attempt + 1 < MAX_RETRIES {
                RetryStep::WaitMillis(backoff)
            } else {
                RetryStep::Fail
            }
        },
        AttemptOutcome::TransportError => {
            if attempt + 1 < MAX_RETRIES {
                RetryStep::WaitMillis(backoff)
            } else {
                RetryStep::Fail
            }
        },
    }
}

/// Retries are bounded: after the last attempt a server or transport error is
/// final, never followed by another back-off.
pub proof fn lemma_last_attempt_never_backs_off(status: Option<u16>, retry_after: Option<Seq<char>>)
    ensures
        !(retry_step_spec((MAX_RETRIES - 1) as u32, status, retry_after) is WaitMillis),
{
}

/// The page that follows a listing page: the `x-next-page` header read as a page
/// number, when the page came back full.
pub open spec fn next_page_spec(header: Option<Seq<char>>, batch_len: int, per_page: int) -> Option<u32> {
    match header {
        Some(h) => match crate::text::parse_u64_spec(h) {
            Some(v) => if v <= u32::MAX && batch_len == per_page {
                Some(v as u32)
            } else {
                None
            },
            None => None,
        },
        None => None,
    }
}

/// Decides whether a paginated listing goes on, and with which page.
pub fn next_page(header: Option<&str>, batch_len: usize, per_page: usize) -> (r: Option<u32>)
    ensures
        r == next_page_spec(match header {
            Some(h) => Some(h@),
            None => None,
        }, batch_len as int, per_page as int),
{
    match header {
        Some(h) => match crate::text::parse_u64(&chars_of(h)) {
            Some(v) => if v <= 4294967295u64 && batch_len == per_page {
                Some(v as u32)
            } else {
                None
            },
            None => None,
        },
        None => None,
    }
}

/// The URL of one page of a repository tree listing.
pub open spec fn tree_url_spec(
    base: Seq<char>,
    project: Seq<char>,
    ref_name: Seq<char>,
    per_page: nat,
    page: nat,
    path: Option<Seq<char>>,
    recursive: bool,
) -> Seq<char> {
    base + "/api/v4/projects/"@ + encode_project_spec(project) + "/repository/tree?ref="@ + ref_name
        + "&per_page="@ + decimal_spec(per_page) + "&page="@ + decimal_spec(page) + (match path {
        Some(p) => "&path="@ + p,
        None => seq![],
    }) + (if recursive {
        "&recursive=true"@
    } else {
        seq![]
    })
}

/// Forms the URL of one page of a repository tree listing.
pub fn tree_url(base: &str, project: &str, ref_name: &str, per_page: u32, page: u32, path: Option<&str>, recursive: bool) -> (r: String)
    ensures
        r@ == tree_url_spec(base@, project@, ref_name@, per_page as nat, page as nat, match path {
            Some(p) => Some(p@),
            None => None,
        }, recursive),
{
    let mut out = chars_of(base);
    push_text(&mut out, "/api/v4/projects/");
    let enc = encode_project(project);
    push_text(&mut out, enc.as_str());
    push_text(&mut out, "/repository/tree?ref=");
    push_text(&mut out, ref_name);
    push_text(&mut out, "&per_page=");
    extend_chars(&mut out, &decimal_of(per_page as u64));
    push_text(&mut out, "&page=");
    extend_chars(&mut out, &decimal_of(page as u64));
    let ghost before = out@;
    match path {
        Some(p) => {
            push_text(&mut out, "&path=");
            push_text(&mut out, p);
        },
        None => {
            assert(out@ =~= before + Seq::<char>::empty());
        },
    }
    let ghost mid = out@;
    if recursive {
        push_text(&mut out, "&recursive=true");
    } else {
        assert(out@ =~= mid + Seq::<char>::empty());
    }
    string_of(&out)
}

/// The merge requests whose source branch starts with `prefix`, in order.
pub open spec fn with_branch_prefix(mrs: Seq<MergeRequestView>, prefix: Seq<char>) -> Seq<MergeRequestView>
    decreases mrs.len(),
{
    if mrs.len() == 0 {
        seq![]
    } else {
        let prev = with_branch_prefix(mrs.drop_last(), prefix);
        if starts_with_spec(mrs.last().source_branch, prefix) {
            prev.push(mrs.last())
        } else {
            prev
        }
    }
}

pub open spec fn mrs_view(v: Seq<MergeRequest>) -> Seq<MergeRequestView> {
    v.map_values(|m: MergeRequest| m@)
}

/// Keeps the merge requests whose source branch starts with the prefix, when one is given.
pub fn retain_branch_prefix(mrs: Vec<MergeRequest>, prefix: Option<&str>) -> (r: Vec<MergeRequest>)
    ensures
        mrs_view(r@) == match prefix {
            Some(p) => with_branch_prefix(mrs_view(mrs@), p@),
            None => mrs_view(mrs@),
        },
{
    match prefix {
        None => mrs,
        Some(p) => {
            let pv = chars_of(p);
            let ghost mv = mrs_view(mrs@);
            let mut out: Vec<MergeRequest> = Vec::new();
            let n = mrs.len();
            let mut i: usize = 0;
            while i < n
                invariant
                    i <= n,
                    n == mv.len(),
                    mv == mrs_view(mrs@),
                    pv@ == p@,
                    mrs_view(out@) == with_branch_prefix(mv.take(i as int), p@),
                decreases n - i,
            {
                let m = &mrs[i];
                assert(m@ == mv[i as int]);
                assert(mv.take(i + 1).drop_last() =~= mv.take(i as int));
                let ghost before = mrs_view(out@);
                if crate::text::starts_with(&chars_of(m.source_branch.as_str()), &pv) {
                    out.push(m.duplicate());
                    assert(mrs_view(out@) =~= before.push(mv[i as int]));
                }
                i = i + 1;
            }
            assert(mv.take(n as int) =~= mv);
            out
        },
    }
}

/// What `base64::engine::general_purpose::STANDARD` decodes a text to, or the
/// message of its decode error.
pub uninterp spec fn base64_standard_decode(text: Seq<char>) -> Result<Seq<u8>, Seq<char>>;

/// Decodes standard, padded base64.
/// Trusted: calls `STANDARD.decode` and renders a `DecodeError` with `to_string`;
/// both outcomes are named by `base64_standard_decode`.
#[verifier::external_body]
fn base64_decode(text: &str) -> (r: Result<Vec<u8>, String>)
    ensures
        match r {
            Ok(b) => base64_standard_decode(text@) == Ok::<Seq<u8>, Seq<char>>(b@),
            Err(m) => base64_standard_decode(text@) == Err::<Seq<u8>, Seq<char>>(m@),
        },
{
    base64::engine::general_purpose::STANDARD.decode(text).map_err(|e| e.to_string())
}

/// The message that `std::str::Utf8Error` renders for bytes that are not UTF-8.
pub uninterp spec fn utf8_error_text(bytes: Seq<u8>) -> Seq<char>;

/// Reads bytes as UTF-8 text.
/// Trusted: calls `std::str::from_utf8`, which succeeds exactly on valid UTF-8 and
/// then gives the decoded text; the error's message is named by `utf8_error_text`.
#[verifier::external_body]
fn utf8_text(bytes: &[u8]) -> (r: Result<String, String>)
    ensures
        match r {
            Ok(s) => vstd::utf8::valid_utf8(bytes@) && s@ == vstd::utf8::decode_utf8(bytes@),
            Err(m) => !vstd::utf8::valid_utf8(bytes@) && m@ == utf8_error_text(bytes@),
        },
{
    match std::str::from_utf8(bytes) {
        Ok(s) => Ok(s.to_string()),
        Err(e) => Err(e.to_string()),
    }
}

/// The text of a file as the files API returns it: base64 content (line breaks
/// removed) decoded and read as UTF-8; content in any other encoding as given.
pub open spec fn file_content_spec(content: Seq<char>, encoding: Seq<char>, path: Seq<char>) -> Result<Seq<char>, ReforgeErrorView> {
    if encoding == "base64"@ {
        match base64_standard_decode(replace_spec(content, "\n"@, seq![])) {
            Err(m) => Err(ReforgeErrorView::Parse { file: path, reason: "Base64 decode failed: "@ + m }),
            Ok(bytes) => if vstd::utf8::valid_utf8(bytes) {
                Ok(vstd::utf8::decode_utf8(bytes))
            } else {
                Err(ReforgeErrorView::Parse { file: path, reason: "UTF-8 decode failed: "@ + utf8_error_text(bytes) })
            },
        }
    } else {
        Ok(content)
    }
}

/// Decodes the content of a file response.
pub fn decode_file_content(content: &str, encoding: &str, path: &str) -> (r: Result<String, ReforgeError>)
    ensures
        match r {
            Ok(s) => file_content_spec(content@, encoding@, path@) == Ok::<Seq<char>, ReforgeErrorView>(s@),
            Err(e) => file_content_spec(content@, encoding@, path@) == Err::<Seq<char>, ReforgeErrorView>(e@),
        },
{
    if crate::text::chars_eq(&chars_of(encoding), &chars_of("base64")) {
        let joined = string_of(&replace_all(&chars_of(content), &chars_of("\n"), &Vec::new()));
        match base64_decode(joined.as_str()) {
            Err(m) => {
                let mut reason = chars_of("Base64 decode failed: ");
                push_text(&mut reason, m.as_str());
                Err(ReforgeError::Parse { file: path.to_string(), reason: string_of(&reason) })
            },
            Ok(bytes) => match utf8_text(bytes.as_slice()) {
                Ok(s) => Ok(s),
                Err(m) => {
                    let mut reason = chars_of("UTF-8 decode failed: ");
                    push_text(&mut reason, m.as_str());
                    Err(ReforgeError::Parse { file: path.to_string(), reason: string_of(&reason) })
                },
            },
        }
    } else {
        Ok(content.to_string())
    }
}

} // verus!
