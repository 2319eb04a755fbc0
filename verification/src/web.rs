//! The run form of the web console: job states and form validation.

use vstd::prelude::*;
use crate::text::str_eq;
use vstd::string::StrSliceExecFns;

verus! {

/// Whether a character has the Unicode `White_Space` property, by which
/// `char::is_whitespace` and `str::trim` decide: the ASCII tab, line feed,
/// vertical tab, form feed, carriage return and space, the next line, the
/// no-break space, the Ogham space mark, the spaces from the en quad to the
/// hair space, the line and paragraph separators, the narrow no-break space,
/// the medium mathematical space and the ideographic space.
pub open spec fn is_whitespace_char(c: char) -> bool {
    let u = c as u32;
    ||| 0x09 <= u <= 0x0D
    ||| u == 0x20
    ||| u == 0x85
    ||| u == 0xA0
    ||| u == 0x1680
    ||| 0x2000 <= u <= 0x200A
    ||| u == 0x2028
    ||| u == 0x2029
    ||| u == 0x202F
    ||| u == 0x205F
    ||| u == 0x3000
}

/// The number of white-space characters at the start of `s`.
pub open spec fn leading_space(s: Seq<char>) -> nat
    decreases s.len(),
{
    if s.len() > 0 && is_whitespace_char(s[0]) {
        1 + leading_space(s.drop_first())
    } else {
        0
    }
}

/// The number of white-space characters at the end of `s`.
pub open spec fn trailing_space(s: Seq<char>) -> nat
    decreases s.len(),
{
    if s.len() > 0 && is_whitespace_char(s.last()) {
        1 + trailing_space(s.drop_last())
    } else {
        0
    }
}

/// `s` without its leading and trailing white space.
pub open spec fn trimmed(s: Seq<char>) -> Seq<char> {
    if leading_space(s) == s.len() {
        Seq::empty()
    } else {
        s.subrange(leading_space(s) as int, s.len() - trailing_space(s))
    }
}

proof fn lemma_leading_space(s: Seq<char>)
    ensures
        leading_space(s) <= s.len(),
        forall|k: int| 0 <= k < leading_space(s) ==> is_whitespace_char(#[trigger] s[k]),
        leading_space(s) < s.len() ==> !is_whitespace_char(s[leading_space(s) as int]),
    decreases s.len(),
{
    if s.len() > 0 && is_whitespace_char(s[0]) {
        let t = s.drop_first();
        lemma_leading_space(t);
        assert forall|k: int| 0 <= k < leading_space(s) implies is_whitespace_char(#[trigger] s[k]) by {
            if k > 0 {
                assert(s[k] == t[k - 1]);
            }
        }
        if leading_space(s) < s.len() {
            assert(s[leading_space(s) as int] == t[leading_space(t) as int]);
        }
    }
}

proof fn lemma_trailing_space(s: Seq<char>)
    ensures
        trailing_space(s) <= s.len(),
        forall|k: int| s.len() - trailing_space(s) <= k < s.len() ==> is_whitespace_char(#[trigger] s[k]),
        trailing_space(s) < s.len() ==> !is_whitespace_char(s[s.len() - 1 - trailing_space(s)]),
    decreases s.len(),
{
    if s.len() > 0 && is_whitespace_char(s.last()) {
        let t = s.drop_last();
        lemma_trailing_space(t);
        assert forall|k: int| s.len() - trailing_space(s) <= k < s.len() implies is_whitespace_char(#[trigger] s[k]) by {
            if k < s.len() - 1 {
                assert(s[k] == t[k]);
            }
        }
        if trailing_space(s) < s.len() {
            assert(s[s.len() - 1 - trailing_space(s)] == t[t.len() - 1 - trailing_space(t)]);
        }
    }
}

/// Whether a character is white space, as [`is_whitespace_char`] says.
fn is_whitespace(c: char) -> (r: bool)
    ensures
        r == is_whitespace_char(c),
{
    let u = c as u32;
    (0x09 <= u && u <= 0x0D) || u == 0x20 || u == 0x85 || u == 0xA0 || u == 0x1680 || (0x2000 <= u && u <= 0x200A)
        || u == 0x2028 || u == 0x2029 || u == 0x202F || u == 0x205F || u == 0x3000
}

proof fn lemma_leading_space_unique(s: Seq<char>, lo: int)
    requires
        0 <= lo <= s.len(),
        forall|k: int| 0 <= k < lo ==> is_whitespace_char(#[trigger] s[k]),
        lo < s.len() ==> !is_whitespace_char(s[lo]),
    ensures
        lo == leading_space(s),
{
    lemma_leading_space(s);
    let l = leading_space(s) as int;
    if lo < l {
        assert(is_whitespace_char(s[lo]));
    } else if lo > l {
        assert(is_whitespace_char(s[l]));
    }
}

proof fn lemma_trailing_space_unique(s: Seq<char>, hi: int)
    requires
        0 <= hi <= s.len(),
        forall|k: int| hi <= k < s.len() ==> is_whitespace_char(#[trigger] s[k]),
        hi > 0 ==> !is_whitespace_char(s[hi - 1]),
    ensures
        s.len() - hi == trailing_space(s),
{
    lemma_trailing_space(s);
    let h = s.len() - trailing_space(s);
    if hi > h {
        assert(is_whitespace_char(s[hi - 1]));
    } else if hi < h {
        assert(is_whitespace_char(s[h - 1]));
    }
}

/// `s` without its leading and trailing white space, as `str::trim` gives it.
pub(crate) fn trim(s: &str) -> (r: &str)
    ensures
        r@ == trimmed(s@),
{
    let n = s.unicode_len();
    let mut lo: usize = 0;
    while lo < n && is_whitespace(s.get_char(lo))
        invariant
            n == s@.len(),
            lo <= n,
            forall|k: int| 0 <= k < lo ==> is_whitespace_char(#[trigger] s@[k]),
        decreases n - lo,
    {
        lo = lo + 1;
    }
    proof {
        lemma_leading_space_unique(s@, lo as int);
    }
    if lo == n {
        return s.substring_char(n, n);
    }
    let mut hi: usize = n;
    while hi > lo && is_whitespace(s.get_char(hi - 1))
        invariant
            n == s@.len(),
            lo < hi <= n,
            !is_whitespace_char(s@[lo as int]),
            forall|k: int| hi <= k < n ==> is_whitespace_char(#[trigger] s@[k]),
        decreases hi,
    {
        hi = hi - 1;
    }
    proof {
        lemma_trailing_space_unique(s@, hi as int);
    }
    s.substring_char(lo, hi)
}

/// Trimming leaves nothing exactly when every character is white space.
proof fn lemma_trimmed_empty(s: Seq<char>)
    ensures
        (trimmed(s).len() == 0) == is_blank(s),
{
    lemma_leading_space(s);
    lemma_trailing_space(s);
    let p = leading_space(s) as int;
    if p < s.len() {
        assert(!is_whitespace_char(s[p]));
        let q = s.len() - 1 - trailing_space(s);
        assert(!is_whitespace_char(s[q]));
        assert(p <= q);
        assert(trimmed(s).len() == s.len() - trailing_space(s) - p);
    } else {
        assert forall|k: int| 0 <= k < s.len() implies is_whitespace_char(#[trigger] s[k]) by {}
    }
}

/// Whether a text holds nothing but white space.
pub open spec fn is_blank(s: Seq<char>) -> bool {
    forall|k: int| 0 <= k < s.len() ==> is_whitespace_char(#[trigger] s[k])
}

/// Whether a text is empty once surrounding white space is removed.
pub fn is_blank_text(s: &str) -> (r: bool)
    ensures
        r == is_blank(s@),
{
    let t = trim(s);
    proof {
        lemma_trimmed_empty(s@);
    }
    t.is_empty()
}

/// The state of a console job.
#[derive(Clone, Copy, Debug, PartialEq, Eq, Structural)]
pub enum JobState {
    Queued,
    Running,
    Completed,
    Failed,
}

impl JobState {
    pub open spec fn spec_label(self) -> Seq<char> {
        match self {
            JobState::Queued => "queued"@,
            JobState::Running => "running"@,
            JobState::Completed => "completed"@,
            JobState::Failed => "failed"@,
        }
    }

    /// The lowercase name of the state.
    pub fn label(self) -> (r: &'static str)
        ensures
            r@ == self.spec_label(),
    {
        match self {
            JobState::Queued => "queued",
            JobState::Running => "running",
            JobState::Completed => "completed",
            JobState::Failed => "failed",
        }
    }
}

/// The fields of the run form.
#[derive(Clone, Debug)]
pub struct RunForm {
    pub dataset: String,
    pub start_step: u8,
    pub end_step: u8,
    pub backend: String,
    pub io_workers: u16,
    pub cpu_workers: u16,
    pub dry_run: Option<String>,
}

impl RunForm {
    /// The dry-run box is checked when the form carries the field at all.
    pub fn is_dry_run(&self) -> (r: bool)
        ensures
            r == self.dry_run.is_some(),
    {
        self.dry_run.is_some()
    }
}

/// An HTTP error answer: status code and message.
#[derive(Clone, Debug)]
pub struct AppError {
    pub status: u16,
    pub message: String,
}

impl AppError {
    pub fn bad_request(message: String) -> (r: AppError)
        ensures
            r.status == 400,
            r.message@ == message@,
    {
        AppError { status: 400, message }
    }

    pub fn not_found(message: String) -> (r: AppError)
        ensures
            r.status == 404,
            r.message@ == message@,
    {
        AppError { status: 404, message }
    }

    pub fn internal(message: String) -> (r: AppError)
        ensures
            r.status == 500,
            r.message@ == message@,
    {
        AppError { status: 500, message }
    }
}

/// The backends a run may request.
pub open spec fn known_backend(b: Seq<char>) -> bool {
    b == "auto"@ || b == "threads"@ || b == "processes"@ || b == "gpu"@ || b == "native"@
}

/// Whether the console accepts a run form with these steps, dataset path and
/// backend.
pub open spec fn form_accepted(start_step: u8, end_step: u8, dataset: Seq<char>, backend: Seq<char>) -> bool {
    (1 <= start_step <= end_step <= 8) && !is_blank(dataset) && known_backend(backend)
}

/// The console accepts a form exactly when its stage range lies within
/// 1..8 and is not backwards, its dataset path is not blank, and its backend
/// is one of auto, threads, processes, gpu and native.
pub proof fn law_form_accepts_documented_backends(start_step: u8, end_step: u8, dataset: Seq<char>, backend: Seq<char>)
    ensures
        form_accepted(start_step, end_step, dataset, backend) <==> ((1 <= start_step <= end_step <= 8) && !is_blank(dataset)
            && (backend == "auto"@ || backend == "threads"@ || backend == "processes"@ || backend == "gpu"@ || backend
            == "native"@)),
{
}

/// Checks a submitted form: stage range within `1..=8` and not backwards, a
/// dataset path that is not blank, and a known backend, in that order.
pub fn validate_form(form: &RunForm) -> (r: Result<(), AppError>)
    ensures
        !(1 <= form.start_step <= form.end_step <= 8) ==> (r matches Err(e) && e.status == 400
            && e.message@ == "stage range must be within 1..8"@),
        (1 <= form.start_step <= form.end_step <= 8) && is_blank(form.dataset@) ==> (r matches Err(e)
            && e.status == 400 && e.message@ == "dataset path is required"@),
        (1 <= form.start_step <= form.end_step <= 8) && !is_blank(form.dataset@) && !known_backend(form.backend@)
            ==> (r matches Err(e) && e.status == 400 && e.message@ == "unsupported backend"@),
        r is Ok <==> (1 <= form.start_step <= form.end_step <= 8) && !is_blank(form.dataset@) && known_backend(
            form.backend@,
        ),
        r is Ok <==> form_accepted(form.start_step, form.end_step, form.dataset@, form.backend@),
{
    if form.start_step == 0 || form.end_step == 0 || form.start_step > form.end_step || form.end_step > 8 {
        return Err(AppError::bad_request(String::from_str("stage range must be within 1..8")));
    }
    if is_blank_text(form.dataset.as_str()) {
        return Err(AppError::bad_request(String::from_str("dataset path is required")));
    }
    let b = form.backend.as_str();
    if str_eq(b, "auto") || str_eq(b, "threads") || str_eq(b, "processes") || str_eq(b, "gpu") || str_eq(b, "native") {
        Ok(())
    } else {
        Err(AppError::bad_request(String::from_str("unsupported backend")))
    }
}

} // verus!
