use vstd::prelude::*;
use vstd::string::StringExecFns;
use crate::config::RETRY_N;
use crate::text::{
    chars_of, find_chars, rfind_chars, spec_find_from, spec_occurs_at, spec_rfind, spec_trim, trim,
};
use crate::workdir::{join_path, spec_join};

verus! {

/// `s` without a leading fence "```" followed by `pat`, where it opens with one.
pub open spec fn spec_strip_code_prefix(s: Seq<char>, pat: Seq<char>) -> Seq<char> {
    let p = "```"@ + pat;
    if spec_occurs_at(s, p, 0) {
        s.subrange(p.len() as int, s.len() as int)
    } else {
        s
    }
}

/// `input` without a leading fence "```" followed by `pat`, where it opens with one.
pub fn strip_code_prefix<'a>(input: &'a str, pat: &str) -> (r: &'a str)
    ensures
        r@ == spec_strip_code_prefix(input@, pat@),
{
    let mut p = String::from_str("```");
    p.append(pat);
    let cs = chars_of(input);
    let ps = chars_of(p.as_str());
    let mut k: usize = 0;
    let n = cs.len();
    let m = ps.len();
    if m > n {
        return input;
    }
    while k < m
        invariant
            m <= n,
            cs@ == input@,
            ps@ == p@,
            p@ == "```"@ + pat@,
            n == cs@.len(),
            m == ps@.len(),
            k <= m,
            forall|j: int| 0 <= j < k ==> cs@[j] == ps@[j],
        decreases m - k,
    {
        if cs[k] != ps[k] {
            assert(input@.subrange(0, m as int)[k as int] != p@[k as int]);
            return input;
        }
        k = k + 1;
    }
    assert(input@.subrange(0, m as int) =~= p@);
    input.substring_char(m, n)
}

/// The body after a leading fence and its language tag, where one opens it,
/// the tags tried in turn.
pub open spec fn spec_strip_fence_tags(s: Seq<char>) -> Seq<char> {
    let s1 = spec_strip_code_prefix(s, "cpp"@);
    let s2 = spec_strip_code_prefix(s1, "CPP"@);
    let s3 = spec_strip_code_prefix(s2, "C++"@);
    let s4 = spec_strip_code_prefix(s3, "c++"@);
    let s5 = spec_strip_code_prefix(s4, "c"@);
    let s6 = spec_strip_code_prefix(s5, "C"@);
    spec_strip_code_prefix(s6, "\n"@)
}

/// The program in a model's answer. The answer is trimmed; what stands before
/// its first fence "```" becomes a leading block comment; a language tag after
/// that fence is dropped; the program ends at the last fence. Text between the
/// first and the last fence stays whole, inner fences included.
pub open spec fn spec_strip_code_wrapper(input: Seq<char>) -> Seq<char> {
    let t = spec_trim(input);
    let idx = spec_find_from(t, "```"@, 0);
    let event = if idx >= 0 { t.subrange(0, idx) } else { Seq::empty() };
    let rest = if idx >= 0 { t.subrange(idx, t.len() as int) } else { t };
    let body = spec_strip_fence_tags(rest);
    let end = spec_rfind(body, "```"@);
    let code = if end >= 0 { body.subrange(0, end) } else { body };
    "/*"@ + event + "*/\n"@ + code
}

/// The program in a model's answer, with the text before its code fence kept
/// as a leading comment.
pub fn strip_code_wrapper(input: &str) -> (r: String)
    ensures
        r@ == spec_strip_code_wrapper(input@),
{
    let t = trim(input);
    let tcs = chars_of(t);
    let fence = chars_of("```");
    let n = tcs.len();
    let (event, rest) = match find_chars(&tcs, &fence) {
        Some(idx) => (t.substring_char(0, idx), t.substring_char(idx, n)),
        None => ("", t),
    };
    proof {
        if spec_find_from(t@, "```"@, 0) < 0 {
            assert(event@ =~= Seq::<char>::empty()) by {
                reveal_strlit("");
            }
        }
    }
    let rest = strip_code_prefix(rest, "cpp");
    let rest = strip_code_prefix(rest, "CPP");
    let rest = strip_code_prefix(rest, "C++");
    let rest = strip_code_prefix(rest, "c++");
    let rest = strip_code_prefix(rest, "c");
    let rest = strip_code_prefix(rest, "C");
    let rest = strip_code_prefix(rest, "\n");
    let rcs = chars_of(rest);
    let code = match rfind_chars(&rcs, &fence) {
        Some(end) => rest.substring_char(0, end),
        None => rest,
    };
    let mut r = String::from_str("/*");
    r.append(event);
    r.append("*/\n");
    r.append(code);
    r
}

/// The programs in the answers of one request, in order.
pub fn extract_programs(answers: &Vec<String>) -> (r: Vec<String>)
    ensures
        r@.len() == answers@.len(),
        forall|i: int| 0 <= i < r@.len() ==> #[trigger] r@[i]@ == spec_strip_code_wrapper(answers@[i]@),
{
    let mut r: Vec<String> = Vec::new();
    let mut i: usize = 0;
    while i < answers.len()
        invariant
            i <= answers@.len(),
            r@.len() == i,
            forall|k: int| 0 <= k < i ==> #[trigger] r@[k]@ == spec_strip_code_wrapper(answers@[k]@),
        decreases answers.len() - i,
    {
        r.push(strip_code_wrapper(answers[i].as_str()));
        i = i + 1;
    }
    r
}

/// The default base address of the model's service.
pub fn _get_openai_base() -> (r: &'static str)
    ensures
        r@ == "https://api.openai.com/v1"@,
{
    "https://api.openai.com/v1"
}

/// The file that keeps the request layer's token and cost counters, in the
/// library's miscellaneous directory.
pub fn get_usage_log_path(misc_dir: &str) -> (r: String)
    ensures
        r@ == spec_join(misc_dir@, "openai_usage"@),
{
    join_path(misc_dir, "openai_usage")
}

/// How a failed or successful request was classified.
#[derive(Clone, Copy, Debug, PartialEq, Eq, Structural)]
pub enum Critical {
    /// The request succeeded.
    Normal,
    /// A passing failure: worth another attempt.
    NonCritical,
    /// A permanent failure.
    Critical,
}

/// What the request loop does after an attempt.
#[derive(Clone, Copy, Debug, PartialEq, Eq, Structural)]
pub enum RetryStep {
    /// Hand the response on.
    Accept,
    /// Send the request again.
    Retry,
    /// Hand the error on.
    Fail,
    /// Stop: every attempt failed in passing.
    GiveUp,
}

/// The decision after attempt `attempt` (from 0) was classified as `kind`:
/// a passing failure is retried until `RETRY_N` attempts were made.
pub fn retry_step(attempt: u8, kind: Critical) -> (r: RetryStep)
    ensures
        kind == Critical::Normal ==> r == RetryStep::Accept,
        kind == Critical::Critical ==> r == RetryStep::Fail,
        kind == Critical::NonCritical ==> r == (if attempt + 1 < RETRY_N {
            RetryStep::Retry
        } else {
            RetryStep::GiveUp
        }),
{
    match kind {
        Critical::Normal => RetryStep::Accept,
        Critical::Critical => RetryStep::Fail,
        Critical::NonCritical => {
            if (attempt as u16) + 1 < RETRY_N as u16 {
                RetryStep::Retry
            } else {
                RetryStep::GiveUp
            }
        },
    }
}

} // verus!
