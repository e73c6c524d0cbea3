//! The sequencer: drives an ordered list of exercises through compile, run
//! and inspection, and halts at the first one that is not complete. It
//! decides; the caller performs each action and reports whether it succeeded.
use vstd::prelude::*;
use crate::exercise::Exercise;

verus! {

/// What the sequencer asks for next. Indices are positions in the list.
#[derive(PartialEq, Eq, Structural, Debug, Clone, Copy)]
pub enum Action {
    /// Compile exercise `i`.
    Compile(usize),
    /// Run the executable compiled from exercise `i`.
    Run(usize),
    /// Derive the state of exercise `i`; success means `Done`.
    Inspect(usize),
    /// Every exercise from the start position on is complete.
    Pass,
    /// Exercise `i` failed to compile, failed to run, or is pending.
    Fail(usize),
}

/// Whether the sequencer has stopped.
pub open spec fn is_final(a: Action) -> bool {
    a is Pass || a is Fail
}

/// The exercise an action is about; `Pass` stands past the end of the list.
pub open spec fn index_of(len: nat, a: Action) -> nat {
    match a {
        Action::Compile(i) => i as nat,
        Action::Run(i) => i as nat,
        Action::Inspect(i) => i as nat,
        Action::Fail(i) => i as nat,
        Action::Pass => len,
    }
}

/// The first action of a pass over `len` exercises from `start`.
pub open spec fn first_action(len: nat, start: nat) -> Action {
    if start < len {
        Action::Compile(start as usize)
    } else {
        Action::Pass
    }
}

/// The action after `a`, given whether `a` succeeded. A gated pass inspects
/// each exercise and moves on to the next one; an ungated one stops after
/// the first run.
pub open spec fn step(len: nat, gated: bool, a: Action, ok: bool) -> Action {
    match a {
        Action::Compile(i) => if ok {
            Action::Run(i)
        } else {
            Action::Fail(i)
        },
        Action::Run(i) => if !ok {
            Action::Fail(i)
        } else if gated {
            Action::Inspect(i)
        } else {
            Action::Pass
        },
        Action::Inspect(i) => if !ok {
            Action::Fail(i)
        } else if i + 1 < len {
            Action::Compile((i + 1) as usize)
        } else {
            Action::Pass
        },
        Action::Pass => Action::Pass,
        Action::Fail(i) => Action::Fail(i),
    }
}

/// The actions of a pass that starts with `a` and gets the answers `oks`,
/// up to the point where it stops or the answers run out.
pub open spec fn trace(len: nat, gated: bool, a: Action, oks: Seq<bool>) -> Seq<Action>
    decreases oks.len(),
{
    if oks.len() == 0 || is_final(a) {
        seq![a]
    } else {
        seq![a] + trace(len, gated, step(len, gated, a, oks[0]), oks.drop_first())
    }
}

/// A pass over a list of exercises.
pub struct Sequencer {
    len: usize,
    gated: bool,
    next: Action,
}

impl Sequencer {
    pub closed spec fn spec_len(&self) -> nat {
        self.len as nat
    }

    pub closed spec fn spec_gated(&self) -> bool {
        self.gated
    }

    pub closed spec fn spec_next(&self) -> Action {
        self.next
    }

    /// A pass over `len` exercises from `start`; `gated` inspects each one
    /// and goes on to the next.
    pub fn new(len: usize, start: usize, gated: bool) -> (r: Sequencer)
        ensures
            r.spec_len() == len,
            r.spec_gated() == gated,
            r.spec_next() == first_action(len as nat, start as nat),
    {
        let next = if start < len {
            Action::Compile(start)
        } else {
            Action::Pass
        };
        Sequencer { len, gated, next }
    }

    /// The action to perform now.
    pub fn next(&self) -> (r: Action)
        ensures
            r == self.spec_next(),
    {
        self.next
    }

    /// Records whether the current action succeeded.
    pub fn advance(&mut self, ok: bool)
        ensures
            final(self).spec_len() == old(self).spec_len(),
            final(self).spec_gated() == old(self).spec_gated(),
            final(self).spec_next() == step(
                old(self).spec_len(),
                old(self).spec_gated(),
                old(self).spec_next(),
                ok,
            ),
    {
        self.next = match self.next {
            Action::Compile(i) => if ok {
                Action::Run(i)
            } else {
                Action::Fail(i)
            },
            Action::Run(i) => if !ok {
                Action::Fail(i)
            } else if self.gated {
                Action::Inspect(i)
            } else {
                Action::Pass
            },
            Action::Inspect(i) => if !ok {
                Action::Fail(i)
            } else if i < self.len && self.len - i > 1 {
                Action::Compile(i + 1)
            } else {
                Action::Pass
            },
            Action::Pass => Action::Pass,
            Action::Fail(i) => Action::Fail(i),
        };
    }

    /// `Ok` once every exercise passed, `Err` with the failed position once
    /// one failed, `None` while the pass goes on.
    pub fn outcome(&self) -> (r: Option<Result<(), usize>>)
        ensures
            r == match self.spec_next() {
                Action::Pass => Some(Ok(())),
                Action::Fail(i) => Some(Err(i)),
                _ => None::<Result<(), usize>>,
            },
    {
        match self.next {
            Action::Pass => Some(Ok(())),
            Action::Fail(i) => Some(Err(i)),
            _ => None,
        }
    }
}

/// Starts a gated pass over `exercises` from position `start`: each one is
/// compiled, run and inspected in list order, and the pass halts at the
/// first that fails or is pending.
pub fn verify(exercises: &Vec<Exercise>, start: usize) -> (r: Sequencer)
    ensures
        r.spec_len() == exercises@.len(),
        r.spec_gated(),
        r.spec_next() == first_action(exercises@.len(), start as nat),
{
    Sequencer::new(exercises.len(), start, true)
}

/// Actions never move back: each action of a trace is about an exercise at
/// or after the one of the first, and none past the end of the list.
proof fn lemma_trace_forward(len: nat, gated: bool, a: Action, oks: Seq<bool>)
    requires
        index_of(len, a) <= len,
        len <= usize::MAX,
    ensures
        forall|k: int|
            0 <= k < trace(len, gated, a, oks).len() ==> index_of(len, a) <= index_of(
                len,
                #[trigger] trace(len, gated, a, oks)[k],
            ) <= len,
    decreases oks.len(),
{
    if oks.len() > 0 && !is_final(a) {
        let b = step(len, gated, a, oks[0]);
        let u = trace(len, gated, b, oks.drop_first());
        lemma_trace_forward(len, gated, b, oks.drop_first());
        let t = trace(len, gated, a, oks);
        assert(t == seq![a] + u);
        assert(index_of(len, a) <= index_of(len, b));
        assert(u[0] == b);
        assert forall|k: int| 0 <= k < t.len() implies index_of(len, a) <= index_of(
            len,
            #[trigger] t[k],
        ) <= len by {
            if k > 0 {
                assert(t[k] == u[k - 1]);
                assert(index_of(len, b) <= index_of(len, u[k - 1]));
            }
        }
    }
}

/// Actions come in order of the exercises they are about, and only the last
/// action of a trace can be final.
proof fn lemma_trace_ordered(len: nat, gated: bool, a: Action, oks: Seq<bool>)
    requires
        index_of(len, a) <= len,
        len <= usize::MAX,
    ensures
        forall|j: int, k: int|
            0 <= j <= k < trace(len, gated, a, oks).len() ==> index_of(
                len,
                #[trigger] trace(len, gated, a, oks)[j],
            ) <= index_of(len, #[trigger] trace(len, gated, a, oks)[k]),
        forall|k: int|
            0 <= k < trace(len, gated, a, oks).len() - 1 ==> !is_final(
                #[trigger] trace(len, gated, a, oks)[k],
            ),
    decreases oks.len(),
{
    lemma_trace_forward(len, gated, a, oks);
    if oks.len() > 0 && !is_final(a) {
        let b = step(len, gated, a, oks[0]);
        let rest = oks.drop_first();
        lemma_trace_forward(len, gated, b, rest);
        lemma_trace_ordered(len, gated, b, rest);
        let t = trace(len, gated, a, oks);
        let u = trace(len, gated, b, rest);
        assert(t == seq![a] + u);
        assert forall|j: int, k: int| 0 <= j <= k < t.len() implies index_of(len, #[trigger] t[j])
            <= index_of(len, #[trigger] t[k]) by {
            if j > 0 {
                assert(t[j] == u[j - 1] && t[k] == u[k - 1]);
            } else {
                assert(t[k] == if k == 0 { a } else { u[k - 1] });
            }
        }
        assert forall|k: int| 0 <= k < t.len() - 1 implies !is_final(#[trigger] t[k]) by {
            if k > 0 {
                assert(t[k] == u[k - 1]);
            }
        }
    }
}

/// A trace starts with its first action, follows `step` from one action to
/// the next, and ends at a final action or when the answers run out.
proof fn lemma_trace_shape(len: nat, gated: bool, a: Action, oks: Seq<bool>)
    ensures
        ({
            let t = trace(len, gated, a, oks);
            &&& 1 <= t.len() <= oks.len() + 1
            &&& t[0] == a
            &&& t.len() == oks.len() + 1 || is_final(t.last())
            &&& forall|k: int|
                0 <= k < t.len() - 1 ==> #[trigger] t[k + 1] == step(len, gated, t[k], oks[k])
        }),
    decreases oks.len(),
{
    if oks.len() > 0 && !is_final(a) {
        let b = step(len, gated, a, oks[0]);
        let rest = oks.drop_first();
        lemma_trace_shape(len, gated, b, rest);
        let t = trace(len, gated, a, oks);
        let u = trace(len, gated, b, rest);
        assert(t == seq![a] + u);
        assert forall|k: int| 0 <= k < t.len() - 1 implies #[trigger] t[k + 1] == step(
            len,
            gated,
            t[k],
            oks[k],
        ) by {
            assert(t[k + 1] == u[k]);
            if k > 0 {
                assert(t[k] == u[k - 1]);
                assert(oks[k] == rest[k - 1]);
                assert(u[(k - 1) + 1] == step(len, gated, u[k - 1], rest[k - 1]));
            }
        }
        assert(t.last() == u.last());
    }
}

/// A pass resumed at `start` never acts on an exercise before `start`,
/// whatever the answers: those exercises are not compiled again.
pub proof fn resumed_pass_skips_earlier(exercises: Seq<Exercise>, start: usize, oks: Seq<bool>)
    requires
        start <= exercises.len() <= usize::MAX,
    ensures
        forall|k: int|
            0 <= k < trace(exercises.len(), true, first_action(exercises.len(), start as nat), oks).len()
                ==> start <= index_of(
                exercises.len(),
                #[trigger] trace(exercises.len(), true, first_action(exercises.len(), start as nat), oks)[k],
            ),
{
    lemma_trace_forward(exercises.len(), true, first_action(exercises.len(), start as nat), oks);
}

/// A pass halts at the first exercise that fails or is pending: its failure
/// is the last action, and no action is about an exercise after it.
pub proof fn pass_halts_at_failure(
    exercises: Seq<Exercise>,
    start: usize,
    oks: Seq<bool>,
    k: int,
    i: usize,
)
    requires
        start <= exercises.len() <= usize::MAX,
        0 <= k < trace(exercises.len(), true, first_action(exercises.len(), start as nat), oks).len(),
        trace(exercises.len(), true, first_action(exercises.len(), start as nat), oks)[k]
            == Action::Fail(i),
    ensures
        k == trace(exercises.len(), true, first_action(exercises.len(), start as nat), oks).len() - 1,
        forall|j: int|
            0 <= j < trace(exercises.len(), true, first_action(exercises.len(), start as nat), oks).len()
                ==> index_of(
                exercises.len(),
                #[trigger] trace(exercises.len(), true, first_action(exercises.len(), start as nat), oks)[j],
            ) <= i,
{
    let t = trace(exercises.len(), true, first_action(exercises.len(), start as nat), oks);
    lemma_trace_ordered(exercises.len(), true, first_action(exercises.len(), start as nat), oks);
    assert(is_final(t[k]));
    assert forall|j: int| 0 <= j < t.len() implies index_of(exercises.len(), #[trigger] t[j]) <= i by {
        assert(index_of(exercises.len(), t[j]) <= index_of(exercises.len(), t[k]));
    }
}

/// Once exercise `i` fails to compile, fails to run or is found pending,
/// the next action is its failure, and the pass ends there.
pub proof fn failed_check_ends_pass(
    exercises: Seq<Exercise>,
    start: usize,
    oks: Seq<bool>,
    k: int,
    i: usize,
)
    requires
        start <= exercises.len() <= usize::MAX,
        0 <= k < oks.len(),
        !oks[k],
        k < trace(exercises.len(), true, first_action(exercises.len(), start as nat), oks).len(),
        ({
            let a = trace(exercises.len(), true, first_action(exercises.len(), start as nat), oks)[k];
            a == Action::Compile(i) || a == Action::Run(i) || a == Action::Inspect(i)
        }),
    ensures
        trace(exercises.len(), true, first_action(exercises.len(), start as nat), oks).len() == k
            + 2,
        trace(exercises.len(), true, first_action(exercises.len(), start as nat), oks)[k + 1]
            == Action::Fail(i),
{
    let a = first_action(exercises.len(), start as nat);
    let t = trace(exercises.len(), true, a, oks);
    lemma_trace_shape(exercises.len(), true, a, oks);
    lemma_trace_ordered(exercises.len(), true, a, oks);
    assert(!is_final(t[k]));
    assert(k + 1 < t.len());
    assert(t[k + 1] == step(exercises.len(), true, t[k], oks[k]));
    assert(is_final(t[k + 1]));
}

} // verus!
