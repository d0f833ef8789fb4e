use vstd::prelude::*;
use vstd::string::StringExecFns;
use crate::config::{parse_u32_chars, spec_parse_u32};
use crate::merge::{
    dec, digit_char, find_sep, lemma_digit_char, lemma_next_sep_bounds, lemma_parse_dec, lemma_split_cons,
    lemma_split_none, lemma_split_step, split_from,
};
use crate::text::{chars_of, string_of_chars};

verus! {

/// The request layer's token counters.
#[derive(Clone, Copy, Debug, PartialEq, Eq, Structural)]
pub struct TokenUsage {
    pub prompt_tokens: u32,
    pub completion_tokens: u32,
}

/// The usage log `s`: the prompt tokens, the completion tokens and the cost,
/// separated by single spaces. The cost is kept as written.
pub open spec fn spec_parse_usage(s: Seq<char>) -> Option<(TokenUsage, Seq<char>)> {
    let parts = split_from(s, ' ', 0);
    if parts.len() != 3 {
        None
    } else {
        match (spec_parse_u32(parts[0]), spec_parse_u32(parts[1])) {
            (Some(p), Some(c)) => Some((TokenUsage { prompt_tokens: p, completion_tokens: c }, parts[2])),
            _ => None,
        }
    }
}

/// The text of the usage log for `u` with cost `cost`.
pub open spec fn spec_usage_line(u: TokenUsage, cost: Seq<char>) -> Seq<char> {
    dec(u.prompt_tokens as nat) + seq![' '] + dec(u.completion_tokens as nat) + seq![' '] + cost
}

/// Appends `n` in decimal to `out`.
fn push_dec(n: u32, out: &mut Vec<char>)
    ensures
        final(out)@ == old(out)@ + dec(n as nat),
    decreases n,
{
    if n >= 10 {
        push_dec(n / 10, out);
    }
    let d = n % 10;
    proof {
        lemma_digit_char(d as nat);
    }
    let c = if d == 0 { '0' } else if d == 1 { '1' } else if d == 2 { '2' } else if d == 3 { '3' }
        else if d == 4 { '4' } else if d == 5 { '5' } else if d == 6 { '6' } else if d == 7 { '7' }
        else if d == 8 { '8' } else { '9' };
    assert(c == digit_char(d as nat));
    out.push(c);
    proof {
        if n >= 10 {
            assert(dec(n as nat) == dec((n / 10) as nat).push(digit_char((n % 10) as nat)));
        } else {
            assert(dec(n as nat) == seq![digit_char(n as nat)]);
        }
    }
    assert(final(out)@ =~= old(out)@ + dec(n as nat));
}

impl TokenUsage {
    /// The usage log's text for these counters and the cost as written.
    pub fn usage_line(&self, cost: &str) -> (r: String)
        ensures
            r@ == spec_usage_line(*self, cost@),
    {
        let mut v: Vec<char> = Vec::new();
        push_dec(self.prompt_tokens, &mut v);
        v.push(' ');
        push_dec(self.completion_tokens, &mut v);
        v.push(' ');
        let mut r = string_of_chars(&v);
        r.append(cost);
        assert(r@ =~= spec_usage_line(*self, cost@));
        r
    }
}

/// Adds to `usage` the tokens of a response that used `prompt` and
/// `completion` tokens.
pub fn log_openai_usage(usage: &mut TokenUsage, prompt: u32, completion: u32)
    requires
        old(usage).prompt_tokens + prompt <= u32::MAX,
        old(usage).completion_tokens + completion <= u32::MAX,
    ensures
        final(usage).prompt_tokens == old(usage).prompt_tokens + prompt,
        final(usage).completion_tokens == old(usage).completion_tokens + completion,
{
    usage.prompt_tokens = usage.prompt_tokens + prompt;
    usage.completion_tokens = usage.completion_tokens + completion;
}

/// The counters and the cost text of a usage log.
pub fn load_openai_usage(content: &str) -> (r: Option<(TokenUsage, String)>)
    ensures
        r is None <==> spec_parse_usage(content@) is None,
        r matches Some((u, c)) ==> spec_parse_usage(content@) == Some((u, c@)),
{
    let cs = chars_of(content);
    let n = cs.len();
    let ghost s = content@;
    let ghost parts = split_from(s, ' ', 0);
    proof {
        lemma_split_step(s, ' ', 0);
        lemma_next_sep_bounds(s, ' ', 0, n as int);
    }
    let e0 = find_sep(&cs, ' ', 0, n);
    if e0 == n {
        return None;
    }
    proof {
        lemma_split_step(s, ' ', e0 + 1);
        lemma_next_sep_bounds(s, ' ', e0 + 1, n as int);
    }
    let e1 = find_sep(&cs, ' ', e0 + 1, n);
    if e1 == n {
        return None;
    }
    proof {
        lemma_split_step(s, ' ', e1 + 1);
        lemma_next_sep_bounds(s, ' ', e1 + 1, n as int);
    }
    let e2 = find_sep(&cs, ' ', e1 + 1, n);
    if e2 < n {
        proof {
            let t = split_from(s, ' ', e2 + 1);
            assert(parts.len() == 3 + t.len());
        }
        return None;
    }
    assert(parts.len() == 3);
    assert(parts[0] == s.subrange(0, e0 as int));
    assert(parts[1] == s.subrange(e0 + 1, e1 as int));
    assert(parts[2] == s.subrange(e1 + 1, n as int));
    let p = match parse_u32_chars(&cs, 0, e0) {
        Some(v) => v,
        None => {
            return None;
        },
    };
    let c = match parse_u32_chars(&cs, e0 + 1, e1) {
        Some(v) => v,
        None => {
            return None;
        },
    };
    let cost = content.substring_char(e1 + 1, n).to_owned();
    Some((TokenUsage { prompt_tokens: p, completion_tokens: c }, cost))
}

/// Reading back a usage log gives the counters and the cost that were
/// written, for a cost written without spaces.
pub proof fn lemma_usage_round_trip(u: TokenUsage, cost: Seq<char>)
    requires
        !cost.contains(' '),
    ensures
        spec_parse_usage(spec_usage_line(u, cost)) == Some((u, cost)),
{
    let dp = dec(u.prompt_tokens as nat);
    let dc = dec(u.completion_tokens as nat);
    lemma_parse_dec(u.prompt_tokens as nat);
    lemma_parse_dec(u.completion_tokens as nat);
    let line = spec_usage_line(u, cost);
    assert(line =~= dp + seq![' '] + (dc + seq![' '] + cost));
    lemma_split_cons(dp, dc + seq![' '] + cost, ' ');
    lemma_split_cons(dc, cost, ' ');
    lemma_split_none(cost, ' ');
    assert(split_from(line, ' ', 0) =~= seq![dp, dc, cost]);
}

} // verus!
