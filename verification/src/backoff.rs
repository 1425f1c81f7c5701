use vstd::prelude::*;
use vstd::arithmetic::power2::{lemma_pow2_strictly_increases, pow2};
use vstd::bits::{lemma_u32_pow2_no_overflow, lemma_u32_shl_is_mul};

use crate::time::{max_duration_nanos, Duration};

verus! {

/// Draws a number uniformly from `0..bound`.
///
/// Calls `rand::Rng::gen_range` on the thread-local generator of `rand::thread_rng`, which panics
/// on an empty range (hence `bound > 0`) and otherwise returns a value of the half-open range. The
/// value is random: the contract claims only that it lies in the range.
#[verifier::external_body]
fn random_below(bound: u128) -> (res: u128)
    requires
        bound > 0,
    ensures
        res < bound,
{
    rand::Rng::gen_range(&mut rand::thread_rng(), 0..bound)
}

/// The state of a backoff iterator.
pub struct BackoffState {
    pub max_num_retries: u32,
    pub retries: u32,
    pub backoff_slot_size: nat,
}

/// An iterator of randomized exponential backoff delays, one per permitted retry.
///
/// The `n`th delay (counting from one) is drawn from `0..slot * 2^n`.
pub struct BackoffIterator {
    max_num_retries: u32,
    retries: u32,
    backoff_slot_size: Duration,
}

impl View for BackoffIterator {
    type V = BackoffState;

    closed spec fn view(&self) -> BackoffState {
        BackoffState {
            max_num_retries: self.max_num_retries,
            retries: self.retries,
            backoff_slot_size: self.backoff_slot_size@,
        }
    }
}

impl BackoffState {
    /// The exclusive upper bound of the delay drawn for the `attempt`th retry.
    pub open spec fn window(self, attempt: nat) -> nat {
        self.backoff_slot_size * pow2(attempt)
    }

    /// The next call would draw a delay (rather than report that the retries are used up).
    pub open spec fn draws_next(self) -> bool {
        self.retries + 1 <= self.max_num_retries
    }

    /// The next call can be made: the retry counter does not overflow and, where a delay is
    /// drawn, its window is a non-empty range of representable durations.
    pub open spec fn next_ok(self) -> bool {
        &&& self.retries < u32::MAX
        &&& self.draws_next() ==> {
            &&& self.retries + 1 < 32
            &&& self.backoff_slot_size > 0
            &&& self.window((self.retries + 1) as nat) <= max_duration_nanos()
        }
    }
}

impl BackoffIterator {
    /// Creates an iterator that allows `max_num_retries` retries with the given backoff slot size.
    pub fn new(max_num_retries: u32, backoff_slot_size: Duration) -> (res: BackoffIterator)
        ensures
            res@ == (BackoffState {
                max_num_retries,
                retries: 0,
                backoff_slot_size: backoff_slot_size@,
            }),
    {
        BackoffIterator { max_num_retries, retries: 0, backoff_slot_size }
    }

    /// Returns the delay to wait before the next retry, or `None` once `max_num_retries` retries
    /// have been handed out.
    pub fn next(&mut self) -> (res: Option<Duration>)
        requires
            old(self)@.next_ok(),
        ensures
            final(self)@ == (BackoffState { retries: (old(self)@.retries + 1) as u32, ..old(self)@ }),
            res is None <==> !old(self)@.draws_next(),
            res matches Some(d) ==> d@ < final(self)@.window(final(self)@.retries as nat),
    {
        self.retries = self.retries + 1;
        if self.retries > self.max_num_retries {
            return None;
        }
        proof {
            lemma_u32_pow2_no_overflow(self.retries as nat);
            lemma_u32_shl_is_mul(1, self.retries);
        }
        let scale: u32 = 1u32 << self.retries;
        let slot = self.backoff_slot_size.as_nanos();
        proof {
            assert(slot as nat * scale as nat == self@.window(self.retries as nat));
            vstd::arithmetic::power2::lemma_pow2_pos(self.retries as nat);
            assert(slot as nat * scale as nat > 0) by (nonlinear_arith)
                requires
                    slot > 0,
                    scale > 0,
            ;
        }
        let max = slot * scale as u128;
        let nanos = random_below(max);
        Some(Duration::from_total_nanos(nanos))
    }
}

/// Each delay is shorter than the slot size times two to the power of its retry number, and the
/// windows double from one retry to the next.
pub proof fn lemma_windows_double(state: BackoffState, attempt: nat)
    ensures
        state.window(attempt + 1) == 2 * state.window(attempt),
        state.backoff_slot_size > 0 ==> state.window(attempt) < state.window(attempt + 1),
{
    lemma_pow2_strictly_increases(attempt, attempt + 1);
    vstd::arithmetic::power2::lemma_pow2_unfold(attempt + 1);
    assert(state.backoff_slot_size * pow2(attempt + 1) == 2 * (state.backoff_slot_size * pow2(
        attempt,
    ))) by (nonlinear_arith)
        requires
            pow2(attempt + 1) == 2 * pow2(attempt),
    ;
    if state.backoff_slot_size > 0 {
        assert(state.backoff_slot_size * pow2(attempt) < state.backoff_slot_size * pow2(attempt + 1))
            by (nonlinear_arith)
            requires
                pow2(attempt) < pow2(attempt + 1),
                state.backoff_slot_size > 0,
        ;
    }
}

/// A request is retried at most `max_num_retries` times: from a fresh iterator, the calls that
/// each draw a delay number no more than the iterator allows.
pub proof fn lemma_retry_budget(states: Seq<BackoffState>)
    requires
        states.len() > 0,
        states[0].retries == 0,
        forall|i: int|
            0 <= i < states.len() - 1 ==> (#[trigger] states[i]).draws_next() && states[i + 1] == (
            BackoffState { retries: (states[i].retries + 1) as u32, ..states[i] }),
    ensures
        states.len() - 1 <= states[0].max_num_retries,
{
    assert forall|i: int| 0 <= i < states.len() implies #[trigger] states[i].retries == i
        && states[i].max_num_retries == states[0].max_num_retries by {
        lemma_retry_count(states, i);
    }
    if states.len() > 1 {
        let last = states.len() - 2;
        assert(states[last].draws_next());
        assert(states[last].retries == last);
    }
}

/// The calls made on a fresh iterator, one after the other: `states[i]` is the state before call
/// `i` (counting from zero), `results[i]` what it returned, each step as `next` says.
pub open spec fn calls_from_fresh(states: Seq<BackoffState>, results: Seq<Option<Duration>>) -> bool {
    &&& states.len() == results.len() + 1
    &&& states[0].retries == 0
    &&& forall|i: int|
        0 <= i < results.len() ==> {
            &&& states[i + 1] == (BackoffState { retries: (states[i].retries + 1) as u32, ..states[i] })
            &&& (#[trigger] results[i] is None <==> !states[i].draws_next())
            &&& (results[i] matches Some(d) ==> d@ < states[i + 1].window(states[i + 1].retries as nat))
        }
}

/// From a fresh iterator that allows `n` retries with slot size `s`, the `k`th call (counting
/// from one) draws a delay shorter than `s * 2^k` while `k <= n`, and returns none for every
/// later call: exactly `n` delays are handed out, and then none, for good.
pub proof fn lemma_calls_from_fresh(states: Seq<BackoffState>, results: Seq<Option<Duration>>)
    requires
        calls_from_fresh(states, results),
        results.len() < u32::MAX,
    ensures
        forall|k: int|
            1 <= k <= results.len() ==> {
                &&& (#[trigger] results[k - 1] is Some <==> k <= states[0].max_num_retries)
                &&& (results[k - 1] matches Some(d) ==> d@ < states[0].backoff_slot_size * pow2(k as nat))
            },
{
    assert forall|i: int| 0 <= i < states.len() implies #[trigger] states[i].retries == i
        && states[i].max_num_retries == states[0].max_num_retries
        && states[i].backoff_slot_size == states[0].backoff_slot_size by {
        lemma_fresh_count(states, results, i);
    }
    assert forall|k: int| 1 <= k <= results.len() implies {
        &&& (#[trigger] results[k - 1] is Some <==> k <= states[0].max_num_retries)
        &&& (results[k - 1] matches Some(d) ==> d@ < states[0].backoff_slot_size * pow2(k as nat))
    } by {
        assert(states[k - 1].retries == k - 1);
        assert(states[k].retries == k);
    }
}

proof fn lemma_fresh_count(states: Seq<BackoffState>, results: Seq<Option<Duration>>, i: int)
    requires
        calls_from_fresh(states, results),
        results.len() < u32::MAX,
        0 <= i < states.len(),
    ensures
        states[i].retries == i,
        states[i].max_num_retries == states[0].max_num_retries,
        states[i].backoff_slot_size == states[0].backoff_slot_size,
    decreases i,
{
    if i > 0 {
        lemma_fresh_count(states, results, i - 1);
        assert(results[i - 1] is None <==> !states[i - 1].draws_next());
    }
}

proof fn lemma_retry_count(states: Seq<BackoffState>, i: int)
    requires
        0 <= i < states.len(),
        states[0].retries == 0,
        forall|j: int|
            0 <= j < states.len() - 1 ==> (#[trigger] states[j]).draws_next() && states[j + 1] == (
            BackoffState { retries: (states[j].retries + 1) as u32, ..states[j] }),
    ensures
        states[i].retries == i,
        states[i].max_num_retries == states[0].max_num_retries,
    decreases i,
{
    if i > 0 {
        lemma_retry_count(states, i - 1);
        assert(states[i - 1].draws_next());
    }
}

} // verus!
