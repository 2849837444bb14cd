use vstd::prelude::*;

verus! {

/// How many times an operation is tried when nothing else is said.
pub const RETRIES: u32 = 20;

/// Seconds of waiting that each failed try adds before the next one.
pub const SLEEP_UNIT: u32 = 1;

/// What the caller of a retried operation does next.
#[derive(Clone, Copy, Debug, PartialEq, Eq, Structural)]
pub enum Move {
    /// Sleep for `delay` seconds, run the operation and report how it went.
    Try { delay: u64 },
    /// Every try failed: run the fallback, once. Nothing follows.
    Fallback,
    /// The operation succeeded. Nothing follows.
    Done,
}

/// A bounded retry of one operation, with a wait that grows by one unit with
/// every failed try.
#[derive(Clone, Copy, Debug, PartialEq, Eq, Structural)]
pub struct Attempt {
    /// How many times the operation may be tried.
    pub retries: u32,
    /// Seconds that each failed try adds to the wait.
    pub unit: u32,
    /// Tries ordered so far.
    pub made: u32,
    /// Whether the last move has been given.
    pub over: bool,
}

/// The first move of a retry: the first try, without a wait, or the fallback
/// at once where no try is allowed.
pub open spec fn first_move(retries: u32) -> Move {
    if retries == 0 {
        Move::Fallback
    } else {
        Move::Try { delay: 0 }
    }
}

/// The retry as it stands after its first move.
pub open spec fn started(retries: u32, unit: u32) -> Attempt {
    if retries == 0 {
        Attempt { retries, unit, made: 0, over: true }
    } else {
        Attempt { retries, unit, made: 1, over: false }
    }
}

/// Seconds to wait before the try numbered `i`, counted from 0.
pub open spec fn wait(i: int, unit: u32) -> u64 {
    (i * unit) as u64
}

/// The move that follows a try that ended as `succeeded` says.
pub open spec fn next_move(a: Attempt, succeeded: bool) -> Move {
    if a.over || succeeded {
        Move::Done
    } else if a.made < a.retries {
        Move::Try { delay: wait(a.made as int, a.unit) }
    } else {
        Move::Fallback
    }
}

/// The retry as it stands after that move.
pub open spec fn after_report(a: Attempt, succeeded: bool) -> Attempt {
    if a.over || succeeded {
        Attempt { over: true, ..a }
    } else if a.made < a.retries {
        Attempt { made: (a.made + 1) as u32, ..a }
    } else {
        Attempt { over: true, ..a }
    }
}

/// The moves that follow when the tries end as `outcomes` says, one after the
/// other, until the retry is over or the outcomes run out.
pub open spec fn moves_after(a: Attempt, outcomes: Seq<bool>) -> Seq<Move>
    decreases outcomes.len(),
{
    if a.over || outcomes.len() == 0 {
        Seq::empty()
    } else {
        seq![next_move(a, outcomes[0])] + moves_after(
            after_report(a, outcomes[0]),
            outcomes.skip(1),
        )
    }
}

/// All the moves of a retry whose tries end as `outcomes` says.
pub open spec fn moves(retries: u32, unit: u32, outcomes: Seq<bool>) -> Seq<Move> {
    seq![first_move(retries)] + moves_after(started(retries, unit), outcomes)
}

/// The tries numbered `from` up to `to`, each with its wait.
pub open spec fn tries(unit: u32, from: int, to: int) -> Seq<Move> {
    Seq::new(
        (if to >= from { to - from } else { 0 }) as nat,
        |i: int| Move::Try { delay: wait(from + i, unit) },
    )
}

impl Attempt {
    /// Starts a retry of at most `retries` tries and gives its first move.
    pub fn start(retries: u32, unit: u32) -> (r: (Attempt, Move))
        ensures
            r.0 == started(retries, unit),
            r.1 == first_move(retries),
    {
        if retries == 0 {
            (Attempt { retries, unit, made: 0, over: true }, Move::Fallback)
        } else {
            (Attempt { retries, unit, made: 1, over: false }, Move::Try { delay: 0 })
        }
    }

    /// Takes how the last try ended and gives the next move: nothing more
    /// after a success, the next try with its wait after a failure while
    /// tries are left, and the fallback after the last one.
    pub fn report(&mut self, succeeded: bool) -> (next: Move)
        ensures
            next == next_move(*old(self), succeeded),
            *final(self) == after_report(*old(self), succeeded),
    {
        if self.over || succeeded {
            self.over = true;
            Move::Done
        } else if self.made < self.retries {
            assert(self.made as u64 * self.unit as u64 <= u64::MAX) by (nonlinear_arith)
                requires
                    self.made <= u32::MAX,
                    self.unit <= u32::MAX,
            ;
            let delay: u64 = self.made as u64 * self.unit as u64;
            self.made = self.made + 1;
            Move::Try { delay }
        } else {
            self.over = true;
            Move::Fallback
        }
    }
}

proof fn lemma_failures(a: Attempt, outcomes: Seq<bool>, n: int)
    requires
        !a.over,
        1 <= a.made <= a.retries,
        0 <= n <= outcomes.len(),
        a.made + n <= a.retries,
        forall|i: int| 0 <= i < n ==> !outcomes[i],
    ensures
        moves_after(a, outcomes) == tries(a.unit, a.made as int, a.made + n) + moves_after(
            Attempt { made: (a.made + n) as u32, ..a },
            outcomes.skip(n),
        ),
    decreases n,
{
    if n == 0 {
        assert(outcomes.skip(0) =~= outcomes);
    } else {
        let b = after_report(a, false);
        lemma_failures(b, outcomes.skip(1), n - 1);
        assert(outcomes.skip(1).skip(n - 1) =~= outcomes.skip(n));
    }
}

proof fn lemma_tries_front(unit: u32, to: int)
    requires
        1 <= to,
    ensures
        seq![Move::Try { delay: 0 }] + tries(unit, 1, to) == tries(unit, 0, to),
{
    let l = seq![Move::Try { delay: 0 }] + tries(unit, 1, to);
    let r = tries(unit, 0, to);
    assert forall|i: int| 0 <= i < l.len() implies l[i] == r[i] by {
        if i > 0 {
            assert(l[i] == tries(unit, 1, to)[i - 1]);
        }
    }
}

/// An operation that fails `k - 1` times and succeeds on try `k`, with `k`
/// within the bound, is tried `k` times, try `i` after a wait of `i` units,
/// and the fallback is never run.
pub proof fn lemma_success_skips_fallback(retries: u32, unit: u32, outcomes: Seq<bool>, k: int)
    requires
        1 <= k <= retries,
        k <= outcomes.len(),
        forall|i: int| 0 <= i < k - 1 ==> !outcomes[i],
        outcomes[k - 1],
    ensures
        moves(retries, unit, outcomes) == tries(unit, 0, k) + seq![Move::Done],
        !moves(retries, unit, outcomes).contains(Move::Fallback),
{
    let a = started(retries, unit);
    lemma_failures(a, outcomes, k - 1);
    let b = Attempt { made: k as u32, ..a };
    let rest = outcomes.skip(k - 1);
    assert(moves_after(after_report(b, true), rest.skip(1)) =~= Seq::<Move>::empty());
    lemma_tries_front(unit, k);
    let all = moves(retries, unit, outcomes);
    assert forall|i: int| 0 <= i < all.len() implies all[i] != Move::Fallback by {}
}

/// An operation that fails on every try is tried `retries` times, try `i`
/// after a wait of `i` units, and then the fallback is run, exactly once.
pub proof fn lemma_exhaustion_runs_fallback_once(retries: u32, unit: u32, outcomes: Seq<bool>)
    requires
        retries <= outcomes.len(),
        forall|i: int| 0 <= i < retries ==> !outcomes[i],
    ensures
        moves(retries, unit, outcomes) == tries(unit, 0, retries as int) + seq![Move::Fallback],
        moves(retries, unit, outcomes).len() == retries + 1,
        forall|i: int| 0 <= i < retries ==> #[trigger] moves(retries, unit, outcomes)[i] is Try,
        moves(retries, unit, outcomes)[retries as int] == Move::Fallback,
{
    let a = started(retries, unit);
    if retries > 0 {
        lemma_failures(a, outcomes, retries - 1);
        let b = Attempt { made: retries, ..a };
        let rest = outcomes.skip(retries - 1);
        assert(moves_after(after_report(b, false), rest.skip(1)) =~= Seq::<Move>::empty());
        lemma_tries_front(unit, retries as int);
    }
}

} // verus!
