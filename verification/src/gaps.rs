//! Run-length constrained gap placement for the elevated platform layer.
//!
//! The elevated layer walks the map's columns left to right and decides, one
//! column at a time, whether to leave a gap or to place a solid tile.  The
//! decision consumes one coin flip per column and is constrained by the run
//! counters: a gap may only open after enough consecutive solid tiles, a gap
//! run is capped at a maximum length, and a gap run that is exactly one step
//! short of the minimum gap run is forced to continue (an off-by-one policy
//! kept on purpose: a run of any other length is never forced).

use vstd::prelude::*;

verus! {

/// The run-length rules that constrain the gap decision.
#[derive(Clone, Copy, PartialEq, Eq, Structural, Debug)]
pub struct GapRules {
    /// Once a gap run is exactly one step short of this length, the next
    /// step is forced to be a gap as well.
    pub min_consecutive_gaps: u64,
    /// No gap run ever grows beyond this length.
    pub max_consecutive_gaps: u64,
    /// A gap may only open after at least this many consecutive solid tiles.
    pub min_consecutive_tiles: u64,
}

/// The two run counters the generator carries across columns.
#[derive(Clone, Copy, PartialEq, Eq, Structural, Debug)]
pub struct GapRunState {
    /// Length of the current trailing run of gaps.
    pub consecutive_gap_count: u64,
    /// Length of the current trailing run of solid tiles.
    pub consecutive_tile_count: u64,
}

/// The counters at the start of a generation pass.
pub open spec fn initial_run_state() -> GapRunState {
    GapRunState { consecutive_gap_count: 0, consecutive_tile_count: 0 }
}

/// Whether the current column becomes a gap: the coin (or the forced
/// continuation one step short of the minimum gap run) asks for a gap, the
/// preceding solid run is long enough, and the gap run has not hit its cap.
pub open spec fn gap_decision(st: GapRunState, coin: bool, rules: GapRules) -> bool {
    &&& st.consecutive_tile_count >= rules.min_consecutive_tiles
    &&& (coin || st.consecutive_gap_count + 1 == rules.min_consecutive_gaps)
    &&& st.consecutive_gap_count < rules.max_consecutive_gaps
}

/// The counters after one column: a gap extends the gap run and resets the
/// tile run; a solid tile does the opposite.
pub open spec fn advance_run_state(st: GapRunState, empty: bool) -> GapRunState {
    if empty {
        GapRunState {
            consecutive_gap_count: (st.consecutive_gap_count + 1) as u64,
            consecutive_tile_count: 0,
        }
    } else {
        GapRunState {
            consecutive_gap_count: 0,
            consecutive_tile_count: (st.consecutive_tile_count + 1) as u64,
        }
    }
}

/// The counters after the first `k` columns of a pass over `coins`.
pub open spec fn run_state_at(coins: Seq<bool>, rules: GapRules, k: int) -> GapRunState
    decreases k,
{
    if k <= 0 {
        initial_run_state()
    } else {
        let prev = run_state_at(coins, rules, k - 1);
        advance_run_state(prev, gap_decision(prev, coins[k - 1], rules))
    }
}

/// Whether column `k` of the pass over `coins` is a gap.
pub open spec fn empty_at(coins: Seq<bool>, rules: GapRules, k: int) -> bool {
    gap_decision(run_state_at(coins, rules, k), coins[k], rules)
}

/// The whole gap mask of a pass: `true` marks a gap column.
pub open spec fn mask_of(coins: Seq<bool>, rules: GapRules) -> Seq<bool> {
    Seq::new(coins.len(), |k: int| empty_at(coins, rules, k))
}

/// One generation pass over the coin flips, producing the gap mask.
pub fn elevated_mask(coins: &Vec<bool>, rules: GapRules) -> (mask: Vec<bool>)
    ensures
        mask@ == mask_of(coins@, rules),
        mask@.len() == coins@.len(),
        forall|k: int| 0 <= k < coins@.len() ==> mask@[k] == empty_at(coins@, rules, k),
{
    let mut mask: Vec<bool> = Vec::new();
    let mut st = GapRunState { consecutive_gap_count: 0, consecutive_tile_count: 0 };
    let mut k: usize = 0;
    while k < coins.len()
        invariant
            k <= coins@.len(),
            mask@.len() == k,
            st == run_state_at(coins@, rules, k as int),
            st.consecutive_tile_count <= k,
            forall|j: int| 0 <= j < k ==> mask@[j] == empty_at(coins@, rules, j),
        decreases coins@.len() - k,
    {
        let coin = coins[k];
        let empty = st.consecutive_tile_count >= rules.min_consecutive_tiles
            && (coin || (rules.min_consecutive_gaps > 0
                && st.consecutive_gap_count == rules.min_consecutive_gaps - 1))
            && st.consecutive_gap_count < rules.max_consecutive_gaps;
        assert(empty == gap_decision(st, coin, rules));
        if empty {
            st = GapRunState {
                consecutive_gap_count: st.consecutive_gap_count + 1,
                consecutive_tile_count: 0,
            };
        } else {
            st = GapRunState {
                consecutive_gap_count: 0,
                consecutive_tile_count: st.consecutive_tile_count + 1,
            };
        }
        mask.push(empty);
        k = k + 1;
    }
    proof {
        assert(mask@ =~= mask_of(coins@, rules));
    }
    mask
}

/// The gap counter never exceeds the configured maximum.
pub proof fn lemma_gap_count_bounded(coins: Seq<bool>, rules: GapRules, k: int)
    ensures
        run_state_at(coins, rules, k).consecutive_gap_count <= rules.max_consecutive_gaps,
    decreases k,
{
    if k > 0 {
        lemma_gap_count_bounded(coins, rules, k - 1);
    }
}

/// The gap counter after `k` columns is exactly the length of the trailing
/// gap run of the mask's first `k` columns: the counter's worth of columns
/// just before `k` are gaps, and the column right before that run, if the
/// run does not reach back to the start, is solid.
pub proof fn lemma_trailing_gap_run(coins: Seq<bool>, rules: GapRules, k: int)
    requires
        0 <= k,
    ensures
        run_state_at(coins, rules, k).consecutive_gap_count <= k,
        forall|j: int|
            k - run_state_at(coins, rules, k).consecutive_gap_count <= j < k
                ==> empty_at(coins, rules, j),
        run_state_at(coins, rules, k).consecutive_gap_count < k
            ==> !empty_at(coins, rules, k - run_state_at(coins, rules, k).consecutive_gap_count - 1),
    decreases k,
{
    if k > 0 {
        lemma_trailing_gap_run(coins, rules, k - 1);
    }
}

/// The tile counter after `k` columns is exactly the length of the trailing
/// solid run of the mask's first `k` columns.
pub proof fn lemma_trailing_tile_run(coins: Seq<bool>, rules: GapRules, k: int)
    requires
        0 <= k,
    ensures
        run_state_at(coins, rules, k).consecutive_tile_count <= k,
        forall|j: int|
            k - run_state_at(coins, rules, k).consecutive_tile_count <= j < k
                ==> !empty_at(coins, rules, j),
    decreases k,
{
    if k > 0 {
        lemma_trailing_tile_run(coins, rules, k - 1);
    }
}

/// No run of consecutive gaps exceeds the maximum: every window of
/// `max_consecutive_gaps + 1` consecutive columns contains a solid one.
pub proof fn lemma_gap_runs_bounded(coins: Seq<bool>, rules: GapRules, s: int)
    requires
        0 <= s,
        s + rules.max_consecutive_gaps < coins.len(),
    ensures
        exists|t: int|
            s <= t <= s + rules.max_consecutive_gaps && !#[trigger] empty_at(coins, rules, t),
{
    let k = s + rules.max_consecutive_gaps + 1;
    let g = run_state_at(coins, rules, k).consecutive_gap_count as int;
    lemma_gap_count_bounded(coins, rules, k);
    lemma_trailing_gap_run(coins, rules, k);
    let t = k - g - 1;
    assert(s <= t <= s + rules.max_consecutive_gaps && !empty_at(coins, rules, t));
}

/// A new gap never opens without a long enough solid run right before it:
/// if column `k` is a gap, then at least `min_consecutive_tiles` columns
/// stand before it and the `min_consecutive_tiles` columns immediately
/// before it are solid.
pub proof fn lemma_gap_needs_solid_run(coins: Seq<bool>, rules: GapRules, k: int)
    requires
        0 <= k < coins.len(),
        empty_at(coins, rules, k),
    ensures
        k >= rules.min_consecutive_tiles,
        forall|j: int| k - rules.min_consecutive_tiles <= j < k ==> !empty_at(coins, rules, j),
{
    lemma_trailing_tile_run(coins, rules, k);
}

/// With a positive solid-run minimum, every gap is isolated: the column
/// after a gap is always solid, because the gap resets the tile counter
/// below the minimum.  This is the behaviour the default rules exhibit.
pub proof fn lemma_positive_tile_minimum_isolates_gaps(
    coins: Seq<bool>,
    rules: GapRules,
    k: int,
)
    requires
        rules.min_consecutive_tiles >= 1,
        0 <= k,
        empty_at(coins, rules, k),
    ensures
        !empty_at(coins, rules, k + 1),
{
}

/// Once a gap run is triggered it is extended to the minimum gap run length,
/// provided nothing overrides the forced continuation: the solid-run minimum
/// must be zero (a positive one ends every run at length one), the forced
/// continuation only ever fires one step short of the minimum, so the
/// minimum must be at most two, and the cap must leave room for it.
pub proof fn lemma_gap_run_reaches_minimum(coins: Seq<bool>, rules: GapRules, k: int)
    requires
        rules.min_consecutive_tiles == 0,
        rules.min_consecutive_gaps <= 2,
        rules.min_consecutive_gaps <= rules.max_consecutive_gaps,
        0 <= k,
        k + 1 < coins.len(),
        empty_at(coins, rules, k),
        !empty_at(coins, rules, k + 1),
    ensures
        run_state_at(coins, rules, k + 1).consecutive_gap_count >= rules.min_consecutive_gaps,
{
}

} // verus!
