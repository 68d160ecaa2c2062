//! Whole-number statistics of a time window and of a model.
use vstd::prelude::*;

use crate::types::{CoreStats, ModelSummary};

verus! {

/// The whole-number totals kept for a window in the session store.
#[derive(Clone, Copy, Debug, PartialEq, Eq, Structural, Default)]
pub struct AuxCounts {
    pub messages: i64,
    pub tool_calls: i64,
    pub cache_read_tokens: i64,
    pub cache_write_tokens: i64,
    pub reasoning_tokens: i64,
    pub premature: i64,
    pub completed_sessions: i64,
}

/// The whole-number statistics of a window, from both stores.
#[derive(Clone, Copy, Debug, PartialEq, Eq, Structural, Default)]
pub struct PeriodCounts {
    pub api_calls: i64,
    pub input_tokens: i64,
    pub output_tokens: i64,
    pub sessions: i64,
    pub messages: i64,
    pub tool_calls: i64,
    pub cache_read_tokens: i64,
    pub cache_write_tokens: i64,
    pub reasoning_tokens: i64,
    pub premature: i64,
    pub completed_sessions: i64,
    pub total_tokens: i64,
}

/// All tokens of a window: input, output, cache reads, cache writes and reasoning.
pub open spec fn token_total(core: CoreStats, aux: AuxCounts) -> int {
    core.input_tokens + core.output_tokens + aux.cache_read_tokens + aux.cache_write_tokens
        + aux.reasoning_tokens
}

/// Every partial sum of the token total, in the order it is added, fits an `i64`.
pub open spec fn token_total_fits(a: int, b: int, c: int, d: int, e: int) -> bool {
    &&& i64::MIN <= a + b <= i64::MAX
    &&& i64::MIN <= a + b + c <= i64::MAX
    &&& i64::MIN <= a + b + c + d <= i64::MAX
    &&& i64::MIN <= a + b + c + d + e <= i64::MAX
}

impl PeriodCounts {
    /// Combines the call-log totals and the session-store totals of a window:
    /// every count is taken over as it is, and `total_tokens` adds up the five
    /// kinds of tokens.
    pub fn compute(core: &CoreStats, aux: &AuxCounts) -> (p: PeriodCounts)
        requires
            token_total_fits(
                core.input_tokens as int,
                core.output_tokens as int,
                aux.cache_read_tokens as int,
                aux.cache_write_tokens as int,
                aux.reasoning_tokens as int,
            ),
        ensures
            p.api_calls == core.api_calls,
            p.input_tokens == core.input_tokens,
            p.output_tokens == core.output_tokens,
            p.sessions == core.sessions,
            p.messages == aux.messages,
            p.tool_calls == aux.tool_calls,
            p.cache_read_tokens == aux.cache_read_tokens,
            p.cache_write_tokens == aux.cache_write_tokens,
            p.reasoning_tokens == aux.reasoning_tokens,
            p.premature == aux.premature,
            p.completed_sessions == aux.completed_sessions,
            p.total_tokens == core.input_tokens + core.output_tokens + aux.cache_read_tokens
                + aux.cache_write_tokens + aux.reasoning_tokens,
    {
        let total_tokens = core.input_tokens + core.output_tokens + aux.cache_read_tokens
            + aux.cache_write_tokens + aux.reasoning_tokens;
        PeriodCounts {
            api_calls: core.api_calls,
            input_tokens: core.input_tokens,
            output_tokens: core.output_tokens,
            sessions: core.sessions,
            messages: aux.messages,
            tool_calls: aux.tool_calls,
            cache_read_tokens: aux.cache_read_tokens,
            cache_write_tokens: aux.cache_write_tokens,
            reasoning_tokens: aux.reasoning_tokens,
            premature: aux.premature,
            completed_sessions: aux.completed_sessions,
            total_tokens,
        }
    }
}

/// The cache and reasoning token totals of one model in the session store.
#[derive(Clone, Copy, Debug, PartialEq, Eq, Structural, Default)]
pub struct CacheTotals {
    pub cache_read_tokens: i64,
    pub cache_write_tokens: i64,
    pub reasoning_tokens: i64,
}

impl ModelSummary {
    /// The summary of a model from its call-log totals and its session-store
    /// totals; `total_tokens` adds up the five kinds of tokens.
    pub fn from_totals(usage: &CoreStats, cache: &CacheTotals) -> (s: ModelSummary)
        requires
            token_total_fits(
                usage.input_tokens as int,
                usage.output_tokens as int,
                cache.cache_read_tokens as int,
                cache.cache_write_tokens as int,
                cache.reasoning_tokens as int,
            ),
        ensures
            s.api_calls == usage.api_calls,
            s.input_tokens == usage.input_tokens,
            s.output_tokens == usage.output_tokens,
            s.sessions == usage.sessions,
            s.cache_read_tokens == cache.cache_read_tokens,
            s.cache_write_tokens == cache.cache_write_tokens,
            s.reasoning_tokens == cache.reasoning_tokens,
            s.total_tokens == usage.input_tokens + usage.output_tokens + cache.cache_read_tokens
                + cache.cache_write_tokens + cache.reasoning_tokens,
    {
        let total_tokens = usage.input_tokens + usage.output_tokens + cache.cache_read_tokens
            + cache.cache_write_tokens + cache.reasoning_tokens;
        ModelSummary {
            api_calls: usage.api_calls,
            input_tokens: usage.input_tokens,
            output_tokens: usage.output_tokens,
            cache_read_tokens: cache.cache_read_tokens,
            cache_write_tokens: cache.cache_write_tokens,
            reasoning_tokens: cache.reasoning_tokens,
            sessions: usage.sessions,
            total_tokens,
        }
    }
}

/// A finished session with at least one API call, as the performance figures see it.
#[derive(Clone, Copy, Debug, PartialEq, Eq, Structural)]
pub struct CompletedSession {
    /// The session ended strictly after it started.
    pub ran_for_a_while: bool,
    pub input_tokens: i64,
    pub output_tokens: i64,
}

/// The whole-number totals of the finished sessions of a window.
#[derive(Clone, Copy, Debug, PartialEq, Eq, Structural)]
pub struct CompletedTotals {
    /// How many finished sessions there are.
    pub completed_sessions: i64,
    /// How many of them ended strictly after they started.
    pub timed_sessions: i64,
    /// Input tokens of the sessions that ended strictly after they started.
    pub total_input: i64,
    /// Output tokens of the sessions that ended strictly after they started.
    pub total_output: i64,
}

/// The number of the first `n` sessions that ended after they started.
pub open spec fn timed_upto(s: Seq<CompletedSession>, n: int) -> int
    decreases n,
{
    if n <= 0 {
        0
    } else {
        timed_upto(s, n - 1) + (if s[n - 1].ran_for_a_while {
            1int
        } else {
            0int
        })
    }
}

/// The input tokens of the first `n` sessions that ended after they started.
pub open spec fn input_upto(s: Seq<CompletedSession>, n: int) -> int
    decreases n,
{
    if n <= 0 {
        0
    } else {
        input_upto(s, n - 1) + (if s[n - 1].ran_for_a_while {
            s[n - 1].input_tokens as int
        } else {
            0
        })
    }
}

/// The output tokens of the first `n` sessions that ended after they started.
pub open spec fn output_upto(s: Seq<CompletedSession>, n: int) -> int
    decreases n,
{
    if n <= 0 {
        0
    } else {
        output_upto(s, n - 1) + (if s[n - 1].ran_for_a_while {
            s[n - 1].output_tokens as int
        } else {
            0
        })
    }
}

/// No running total of input or output tokens overflows an `i64`.
pub open spec fn completed_sums_fit(s: Seq<CompletedSession>) -> bool {
    forall|n: int|
        #![trigger input_upto(s, n)]
        #![trigger output_upto(s, n)]
        0 <= n <= s.len() ==> {
            &&& i64::MIN <= input_upto(s, n) <= i64::MAX
            &&& i64::MIN <= output_upto(s, n) <= i64::MAX
        }
}

/// Counts the finished sessions of a window and adds up the tokens of those
/// that ended after they started (the ones whose speed can be measured).
pub fn summarize_completed(sessions: &Vec<CompletedSession>) -> (t: CompletedTotals)
    requires
        sessions.len() <= i64::MAX,
        completed_sums_fit(sessions@),
    ensures
        t.completed_sessions == sessions.len(),
        t.timed_sessions == timed_upto(sessions@, sessions.len() as int),
        t.total_input == input_upto(sessions@, sessions.len() as int),
        t.total_output == output_upto(sessions@, sessions.len() as int),
{
    let mut timed: i64 = 0;
    let mut total_input: i64 = 0;
    let mut total_output: i64 = 0;
    let mut i: usize = 0;
    while i < sessions.len()
        invariant
            i <= sessions.len(),
            sessions.len() <= i64::MAX,
            completed_sums_fit(sessions@),
            timed == timed_upto(sessions@, i as int),
            0 <= timed <= i,
            total_input == input_upto(sessions@, i as int),
            total_output == output_upto(sessions@, i as int),
        decreases sessions.len() - i,
    {
        let s = sessions[i];
        if s.ran_for_a_while {
            assert(input_upto(sessions@, i + 1) == total_input + s.input_tokens);
            assert(output_upto(sessions@, i + 1) == total_output + s.output_tokens);
            timed = timed + 1;
            total_input = total_input + s.input_tokens;
            total_output = total_output + s.output_tokens;
        }
        i = i + 1;
    }
    CompletedTotals {
        completed_sessions: sessions.len() as i64,
        timed_sessions: timed,
        total_input,
        total_output,
    }
}

/// The bytes a cleanup gave back: how much the store shrank, or nothing when it did not.
pub fn space_reclaimed(before: i64, after: i64) -> (saved: i64)
    requires
        before <= after || before - after <= i64::MAX,
    ensures
        saved == (if before > after {
            before - after
        } else {
            0
        }),
{
    if before > after {
        before - after
    } else {
        0
    }
}

/// The tokens a session used: input, output and cache reads.
pub fn session_total_tokens(input_tokens: i64, output_tokens: i64, cache_read_tokens: i64) -> (total: i64)
    requires
        i64::MIN <= input_tokens + output_tokens <= i64::MAX,
        i64::MIN <= input_tokens + output_tokens + cache_read_tokens <= i64::MAX,
    ensures
        total == input_tokens + output_tokens + cache_read_tokens,
{
    input_tokens + output_tokens + cache_read_tokens
}

/// Every kind of token counts one for one toward a window's total: a window
/// with no tokens has a total of nothing, and changing the count of any one
/// kind (input, output, cache reads, cache writes or reasoning) changes the
/// total by exactly as much, whatever the other counts are.
pub proof fn law_token_total_counts_each_kind(core: CoreStats, aux: AuxCounts, v: i64)
    ensures
        token_total(
            CoreStats { input_tokens: 0, output_tokens: 0, ..core },
            AuxCounts { cache_read_tokens: 0, cache_write_tokens: 0, reasoning_tokens: 0, ..aux },
        ) == 0,
        token_total(CoreStats { input_tokens: v, ..core }, aux) - token_total(core, aux) == v
            - core.input_tokens,
        token_total(CoreStats { output_tokens: v, ..core }, aux) - token_total(core, aux) == v
            - core.output_tokens,
        token_total(core, AuxCounts { cache_read_tokens: v, ..aux }) - token_total(core, aux) == v
            - aux.cache_read_tokens,
        token_total(core, AuxCounts { cache_write_tokens: v, ..aux }) - token_total(core, aux) == v
            - aux.cache_write_tokens,
        token_total(core, AuxCounts { reasoning_tokens: v, ..aux }) - token_total(core, aux) == v
            - aux.reasoning_tokens,
{
}

proof fn lemma_completed_prefix(s: Seq<CompletedSession>, x: CompletedSession, n: int)
    requires
        0 <= n <= s.len(),
    ensures
        timed_upto(s.push(x), n) == timed_upto(s, n),
        input_upto(s.push(x), n) == input_upto(s, n),
        output_upto(s.push(x), n) == output_upto(s, n),
    decreases n,
{
    if n > 0 {
        lemma_completed_prefix(s, x, n - 1);
        assert(s.push(x)[n - 1] == s[n - 1]);
    }
}

/// A finished session that ran for a while adds one to the timed sessions and
/// all its input and output tokens to the totals; one that did not adds nothing,
/// whatever its token counts.
pub proof fn law_completed_session_adds_to_totals(s: Seq<CompletedSession>, x: CompletedSession)
    ensures
        timed_upto(s.push(x), s.len() + 1int) == timed_upto(s, s.len() as int) + (if x.ran_for_a_while {
            1int
        } else {
            0int
        }),
        input_upto(s.push(x), s.len() + 1int) == input_upto(s, s.len() as int) + (if x.ran_for_a_while {
            x.input_tokens as int
        } else {
            0int
        }),
        output_upto(s.push(x), s.len() + 1int) == output_upto(s, s.len() as int) + (if x.ran_for_a_while {
            x.output_tokens as int
        } else {
            0int
        }),
{
    lemma_completed_prefix(s, x, s.len() as int);
    assert(s.push(x)[s.len() as int] == x);
}

proof fn lemma_timed_same_flags(s: Seq<CompletedSession>, t: Seq<CompletedSession>, n: int)
    requires
        0 <= n <= s.len(),
        t.len() == s.len(),
        forall|i: int| 0 <= i < s.len() ==> #[trigger] t[i].ran_for_a_while == s[i].ran_for_a_while,
    ensures
        timed_upto(t, n) == timed_upto(s, n),
        0 <= timed_upto(s, n) <= n,
    decreases n,
{
    if n > 0 {
        lemma_timed_same_flags(s, t, n - 1);
    }
}

/// The number of timed sessions depends on which sessions ran for a while and
/// on nothing else: two lists with the same sessions running for a while, one by
/// one, count the same, whatever their token counts; and it is never more than
/// the number of sessions, reaching it when every session ran for a while.
pub proof fn law_timed_sessions_count_flags(s: Seq<CompletedSession>, t: Seq<CompletedSession>)
    ensures
        0 <= timed_upto(s, s.len() as int) <= s.len(),
        t.len() == s.len() && (forall|i: int|
            0 <= i < s.len() ==> #[trigger] t[i].ran_for_a_while == s[i].ran_for_a_while)
            ==> timed_upto(t, t.len() as int) == timed_upto(s, s.len() as int),
        (forall|i: int| 0 <= i < s.len() ==> #[trigger] s[i].ran_for_a_while) ==> timed_upto(
            s,
            s.len() as int,
        ) == s.len(),
{
    lemma_timed_same_flags(s, s, s.len() as int);
    if t.len() == s.len() && (forall|i: int|
        0 <= i < s.len() ==> #[trigger] t[i].ran_for_a_while == s[i].ran_for_a_while) {
        lemma_timed_same_flags(s, t, s.len() as int);
    }
    if forall|i: int| 0 <= i < s.len() ==> #[trigger] s[i].ran_for_a_while {
        lemma_timed_all(s, s.len() as int);
    }
}

proof fn lemma_timed_all(s: Seq<CompletedSession>, n: int)
    requires
        0 <= n <= s.len(),
        forall|i: int| 0 <= i < s.len() ==> #[trigger] s[i].ran_for_a_while,
    ensures
        timed_upto(s, n) == n,
    decreases n,
{
    if n > 0 {
        lemma_timed_all(s, n - 1);
    }
}

} // verus!
