//! What both platform adapters share: the fixed-delay retry policy on
//! rate limits, the cursor law of pagination, platform dispatch, and JSON
//! text escaping.

use vstd::prelude::*;
use vstd::string::StrSliceExecFns;
use vstd::string::StringExecFns;

use crate::text::push_char;

pub mod bluesky;
pub mod twitter;

verus! {

/// Seconds to wait before retrying a rate-limited request.
pub const RETRY_DELAY_SECS: u64 = 5;

/// How many consecutive empty pages that still advance the cursor an
/// adapter may take before it treats the source as exhausted.
pub const EMPTY_PAGE_RETRIES: usize = 5;

/// The platforms this library has an adapter for.
pub enum Platform {
    Twitter,
    Bluesky,
}

/// The adapter that a configured platform tag names: "twitter" and "x"
/// name one, "bluesky" and "bsky" the other, anything else none.
pub open spec fn spec_platform_of(tag: Seq<char>) -> Option<Platform> {
    if tag == "twitter"@ || tag == "x"@ {
        Some(Platform::Twitter)
    } else if tag == "bluesky"@ || tag == "bsky"@ {
        Some(Platform::Bluesky)
    } else {
        None
    }
}

/// The adapter that a configured platform tag names, if any.
pub fn platform_of_tag(tag: &str) -> (r: Option<Platform>)
    ensures
        r == spec_platform_of(tag@),
{
    if crate::text::str_eq(tag, "twitter") || crate::text::str_eq(tag, "x") {
        Some(Platform::Twitter)
    } else if crate::text::str_eq(tag, "bluesky") || crate::text::str_eq(tag, "bsky") {
        Some(Platform::Bluesky)
    } else {
        None
    }
}

/// A fatal violation of the platform's response contract: the API shape
/// changed, and the account's run must end rather than corrupt output.
#[derive(Debug)]
pub enum ApiError {
    UnknownMediaType(String),
    MalformedResponse(String),
}

impl ApiError {
    /// A short description of the error.
    pub open spec fn spec_message(&self) -> Seq<char> {
        match self {
            ApiError::UnknownMediaType(t) => t@,
            ApiError::MalformedResponse(m) => m@,
        }
    }

    /// A short description of the error.
    pub fn message(&self) -> (r: &str)
        ensures
            r@ == self.spec_message(),
    {
        match self {
            ApiError::UnknownMediaType(t) => t.as_str(),
            ApiError::MalformedResponse(m) => m.as_str(),
        }
    }
}

/// One attempt of an outside request, as the retry policy sees it.
pub enum FetchOutcome {
    Success,
    RateLimited,
    Failed,
}

/// What to do after one attempt: accept the result, retry after the fixed
/// delay, or warn and retry at once. Both retries are unbounded.
pub enum RetryAction {
    Accept,
    DelayRetry,
    ImmediateRetry,
}

/// The retry policy on one attempt: only a success is accepted, a rate
/// limit waits the fixed delay, any other failure retries at once.
pub fn retry_action(o: &FetchOutcome) -> (r: RetryAction)
    ensures
        (r is Accept) == (o is Success),
        (r is DelayRetry) == (o is RateLimited),
        (r is ImmediateRetry) == (o is Failed),
{
    match o {
        FetchOutcome::Success => RetryAction::Accept,
        FetchOutcome::RateLimited => RetryAction::DelayRetry,
        FetchOutcome::Failed => RetryAction::ImmediateRetry,
    }
}

/// The index of the first successful attempt, if any.
pub open spec fn first_success(s: Seq<FetchOutcome>) -> Option<int>
    decreases s.len(),
{
    if s.len() == 0 {
        None
    } else if s[0] is Success {
        Some(0)
    } else {
        match first_success(s.skip(1)) {
            Some(i) => Some(i + 1),
            None => None,
        }
    }
}

/// How many of the attempts hit the rate limit; each costs one fixed delay.
pub open spec fn count_delays(s: Seq<FetchOutcome>) -> nat
    decreases s.len(),
{
    if s.len() == 0 {
        0
    } else {
        count_delays(s.drop_last()) + if s.last() is RateLimited {
            1nat
        } else {
            0nat
        }
    }
}

proof fn lemma_first_success_some(s: Seq<FetchOutcome>, i: int)
    requires
        0 <= i < s.len(),
        s[i] is Success,
        forall|j: int| 0 <= j < i ==> !(s[j] is Success),
    ensures
        first_success(s) == Some(i),
    decreases s.len(),
{
    if i > 0 {
        lemma_first_success_some(s.skip(1), i - 1);
    }
}

proof fn lemma_first_success_none(s: Seq<FetchOutcome>)
    requires
        forall|j: int| 0 <= j < s.len() ==> !(s[j] is Success),
    ensures
        first_success(s) == None::<int>,
    decreases s.len(),
{
    if s.len() > 0 {
        lemma_first_success_none(s.skip(1));
    }
}

/// What the whole run comes to: the index of the accepted attempt and the
/// number of fixed delays waited on the way there.
pub struct RetryRun {
    pub attempts: usize,
    pub delays: usize,
}

/// Run the retry policy over a pre-listed sequence of attempt outcomes:
/// the first success is accepted, every rate limit before it costs one
/// fixed delay, every other failure is retried at once; a list without a
/// success never returns.
pub fn run_retries(outcomes: &Vec<FetchOutcome>) -> (r: Option<RetryRun>)
    ensures
        match r {
            Some(rr) => first_success(outcomes@) == Some(rr.attempts as int) && rr.delays
                == count_delays(outcomes@.take(rr.attempts as int)),
            None => first_success(outcomes@) is None,
        },
{
    let mut delays: usize = 0;
    let mut i: usize = 0;
    #[verifier::loop_isolation(false)]
    while i < outcomes.len()
        invariant
            i <= outcomes@.len(),
            delays <= i,
            delays == count_delays(outcomes@.take(i as int)),
            forall|j: int| 0 <= j < i ==> !(outcomes@[j] is Success),
        decreases outcomes@.len() - i,
    {
        proof {
            assert(outcomes@.take(i + 1 as int).drop_last() =~= outcomes@.take(i as int));
            assert(outcomes@.take(i + 1 as int).last() == outcomes@[i as int]);
        }
        match retry_action(&outcomes[i]) {
            RetryAction::Accept => {
                proof {
                    lemma_first_success_some(outcomes@, i as int);
                }
                return Some(RetryRun { attempts: i, delays });
            },
            RetryAction::DelayRetry => {
                delays = delays + 1;
            },
            RetryAction::ImmediateRetry => {},
        }
        i = i + 1;
    }
    proof {
        lemma_first_success_none(outcomes@);
    }
    None
}

/// A run that hits the rate limit `n` times and then succeeds accepts the
/// success without an error, having waited exactly `n` fixed delays.
pub proof fn lemma_rate_limited_then_success(s: Seq<FetchOutcome>, n: int)
    requires
        0 <= n < s.len(),
        forall|j: int| 0 <= j < n ==> s[j] is RateLimited,
        s[n] is Success,
    ensures
        first_success(s) == Some(n),
        count_delays(s.take(n)) == n,
{
    lemma_first_success_some(s, n);
    lemma_count_all_rate_limited(s, n);
}

proof fn lemma_count_all_rate_limited(s: Seq<FetchOutcome>, n: int)
    requires
        0 <= n <= s.len(),
        forall|j: int| 0 <= j < n ==> s[j] is RateLimited,
    ensures
        count_delays(s.take(n)) == n,
    decreases n,
{
    if n > 0 {
        lemma_count_all_rate_limited(s, n - 1);
        assert(s.take(n).drop_last() =~= s.take(n - 1));
        assert(s.take(n).last() == s[n - 1]);
    } else {
        assert(s.take(0) =~= Seq::<FetchOutcome>::empty());
    }
}

/// The cursors a pagination run produces, one page fetch at a time:
/// starting from `init`, each returned cursor that differs from the one
/// before is taken up, and the first one that repeats its predecessor
/// ends the run.
pub open spec fn cursor_run(init: Option<Seq<char>>, rc: Seq<Seq<char>>) -> Seq<Seq<char>>
    decreases rc.len(),
{
    if rc.len() == 0 {
        Seq::empty()
    } else if init == Some(rc[0]) {
        Seq::empty()
    } else {
        seq![rc[0]] + cursor_run(Some(rc[0]), rc.skip(1))
    }
}

/// The cursor law: the cursors a run produces are the returned ones in
/// order, no produced cursor repeats its immediate predecessor, and the
/// run stops short exactly when the next returned cursor equals the one
/// immediately before it.
pub proof fn lemma_cursor_run_law(init: Option<Seq<char>>, rc: Seq<Seq<char>>)
    ensures
        cursor_run(init, rc).len() <= rc.len(),
        forall|i: int|
            0 <= i < cursor_run(init, rc).len() ==> cursor_run(init, rc)[i] == rc[i],
        forall|i: int|
            1 <= i < cursor_run(init, rc).len() ==> #[trigger] cursor_run(init, rc)[i]
                != cursor_run(init, rc)[i - 1],
        cursor_run(init, rc).len() > 0 ==> init != Some(cursor_run(init, rc)[0]),
        cursor_run(init, rc).len() < rc.len() ==> ({
            let k = cursor_run(init, rc).len() as int;
            if k == 0 {
                init == Some(rc[0])
            } else {
                rc[k] == rc[k - 1]
            }
        }),
    decreases rc.len(),
{
    if rc.len() > 0 && init != Some(rc[0]) {
        lemma_cursor_run_law(Some(rc[0]), rc.skip(1));
        let sub = cursor_run(Some(rc[0]), rc.skip(1));
        let run = cursor_run(init, rc);
        assert(run =~= seq![rc[0]] + sub);
        assert(forall|j: int| 0 <= j < rc.skip(1).len() ==> rc.skip(1)[j] == rc[j + 1]);
        assert forall|i: int| 0 <= i < run.len() implies run[i] == rc[i] by {
            if i > 0 {
                assert(run[i] == sub[i - 1]);
                assert(sub[i - 1] == rc.skip(1)[i - 1]);
            }
        }
        assert forall|i: int| 1 <= i < run.len() implies #[trigger] run[i] != run[i - 1] by {
            if i == 1 {
                assert(run[1] == sub[0]);
                assert(run[0] == rc[0]);
                assert(Some(rc[0]) != Some(sub[0]));
            } else {
                assert(run[i] == sub[i - 1]);
                assert(run[i - 1] == sub[i - 2]);
                assert(sub[i - 1] != sub[i - 2]);
            }
        }
        if run.len() < rc.len() {
            let k = run.len() as int;
            if sub.len() == 0 {
                assert(rc.skip(1).len() > 0);
                assert(Some(rc[0]) == Some(rc.skip(1)[0]));
                assert(rc[k] == rc[k - 1]);
            } else {
                assert(rc.skip(1)[sub.len() as int] == rc.skip(1)[sub.len() - 1]);
                assert(rc[k] == rc[k - 1]);
            }
        }
    }
}

/// With a source that never hands out the same cursor twice, the
/// produced sequence repeats no cursor at all; in general the mechanism
/// compares only with the immediate predecessor.
pub proof fn lemma_cursor_run_no_repeats(init: Option<Seq<char>>, rc: Seq<Seq<char>>)
    requires
        forall|i: int, j: int| 0 <= i < j < rc.len() ==> rc[i] != rc[j],
    ensures
        forall|i: int, j: int|
            0 <= i < j < cursor_run(init, rc).len() ==> cursor_run(init, rc)[i] != cursor_run(
                init,
                rc,
            )[j],
{
    lemma_cursor_run_law(init, rc);
    assert forall|i: int, j: int|
        0 <= i < j < cursor_run(init, rc).len() implies #[trigger] cursor_run(init, rc)[i]
        != #[trigger] cursor_run(init, rc)[j] by {
        assert(cursor_run(init, rc)[i] == rc[i]);
        assert(cursor_run(init, rc)[j] == rc[j]);
    }
}

/// The lowercase hexadecimal digit for `d`.
pub open spec fn hex_digit(d: int) -> char {
    if d < 10 {
        ((48 + d) as u8) as char
    } else {
        ((87 + d) as u8) as char
    }
}

/// The JSON escape of one character: backslash and double quote are
/// backslash-escaped, the control characters get their short escapes or
/// the four-digit form, and every other character stands as it is.
pub open spec fn spec_escape_char(c: char) -> Seq<char> {
    if c == '\\' {
        "\\\\"@
    } else if c == '"' {
        "\\\""@
    } else if c == '\u{0008}' {
        "\\b"@
    } else if c == '\u{000c}' {
        "\\f"@
    } else if c == '\n' {
        "\\n"@
    } else if c == '\r' {
        "\\r"@
    } else if c == '\t' {
        "\\t"@
    } else if (c as u32) < 32 {
        "\\u00"@ + seq![hex_digit(((c as u32) / 16) as int), hex_digit(((c as u32) % 16) as int)]
    } else {
        seq![c]
    }
}

/// JSON string escaping for the values this library embeds in request
/// bodies, character by character as `spec_escape_char` says.
pub open spec fn spec_json_escape(s: Seq<char>) -> Seq<char>
    decreases s.len(),
{
    if s.len() == 0 {
        Seq::empty()
    } else {
        spec_escape_char(s[0]) + spec_json_escape(s.skip(1))
    }
}

/// The lowercase hexadecimal digit for `d`.
fn hex_char(d: u8) -> (r: char)
    requires
        d < 16,
    ensures
        r == hex_digit(d as int),
{
    if d < 10 {
        (48 + d) as char
    } else {
        (87 + d) as char
    }
}

/// Escape `s` for embedding in a JSON string literal.
pub fn json_escape(s: &str) -> (r: String)
    ensures
        r@ == spec_json_escape(s@),
{
    let n = s.unicode_len();
    let mut out = String::new();
    let mut i: usize = 0;
    proof {
        assert(s@.skip(0) =~= s@);
    }
    #[verifier::loop_isolation(false)]
    while i < n
        invariant
            i <= n,
            out@ + spec_json_escape(s@.skip(i as int)) == spec_json_escape(s@),
        decreases n - i,
    {
        let c = s.get_char(i);
        proof {
            assert(s@.skip(i as int)[0] == c);
            assert(s@.skip(i as int).skip(1) =~= s@.skip(i + 1));
        }
        if c == '\\' {
            out.append("\\\\");
        } else if c == '"' {
            out.append("\\\"");
        } else if c == '\u{0008}' {
            out.append("\\b");
        } else if c == '\u{000c}' {
            out.append("\\f");
        } else if c == '\n' {
            out.append("\\n");
        } else if c == '\r' {
            out.append("\\r");
        } else if c == '\t' {
            out.append("\\t");
        } else if (c as u32) < 32 {
            let v = c as u32;
            out.append("\\u00");
            push_char(&mut out, hex_char((v / 16) as u8));
            push_char(&mut out, hex_char((v % 16) as u8));
        } else {
            push_char(&mut out, c);
        }
        i = i + 1;
        proof {
            assert(out@ + spec_json_escape(s@.skip(i as int)) =~= spec_json_escape(s@));
        }
    }
    proof {
        assert(s@.skip(n as int) =~= Seq::<char>::empty());
        assert(out@ =~= spec_json_escape(s@));
    }
    out
}

} // verus!
