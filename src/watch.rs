//! Decisions of the watch loop: which file events call for a new pass, and
//! where in the list that pass resumes.
use vstd::prelude::*;
use crate::exercise::Exercise;

verus! {

/// The kind of a debounced filesystem event.
#[derive(PartialEq, Eq, Structural, Debug, Clone, Copy)]
pub enum Change {
    Create,
    Chmod,
    Write,
    Remove,
    Rename,
    Other,
}

/// The file name at the end of `path` has the extension `c`.
pub open spec fn is_source(path: Seq<char>) -> bool {
    &&& path.len() >= 3
    &&& path[path.len() - 2] == '.'
    &&& path[path.len() - 1] == 'c'
    &&& path[path.len() - 3] != '/'
}

/// `suffix` is made of whole trailing components of `path`.
pub open spec fn path_ends_with(path: Seq<char>, suffix: Seq<char>) -> bool {
    &&& 0 < suffix.len() <= path.len()
    &&& path.subrange(path.len() - suffix.len(), path.len() as int) == suffix
    &&& (suffix.len() == path.len() || path[path.len() - suffix.len() - 1] == '/')
}

/// Whether an event on `path` calls for a new pass: a creation, permission
/// change or write of a source file that still exists.
pub open spec fn triggers_spec(change: Change, path: Seq<char>, exists: bool) -> bool {
    (change == Change::Create || change == Change::Chmod || change == Change::Write) && exists
        && is_source(path)
}

/// Exercise `i` is the first whose path ends `path`.
pub open spec fn first_owner(exercises: Seq<Exercise>, path: Seq<char>, i: int) -> bool {
    &&& 0 <= i < exercises.len()
    &&& path_ends_with(path, exercises[i].path@)
    &&& forall|j: int| 0 <= j < i ==> !path_ends_with(path, #[trigger] exercises[j].path@)
}

/// Whether an event of kind `change` on `path` calls for a new pass.
pub fn triggers(change: Change, path: &str, exists: bool) -> (r: bool)
    ensures
        r == triggers_spec(change, path@, exists),
{
    if !exists {
        return false;
    }
    match change {
        Change::Create | Change::Chmod | Change::Write => {},
        _ => return false,
    }
    let n = path.unicode_len();
    n >= 3 && path.get_char(n - 2) == '.' && path.get_char(n - 1) == 'c' && path.get_char(n - 3)
        != '/'
}

/// Whether `suffix` is made of whole trailing components of `path`.
pub fn ends_with(path: &str, suffix: &str) -> (r: bool)
    ensures
        r == path_ends_with(path@, suffix@),
{
    let n = path.unicode_len();
    let m = suffix.unicode_len();
    if m == 0 || m > n {
        return false;
    }
    let d = n - m;
    let mut i: usize = 0;
    while i < m
        invariant
            n == path@.len(),
            m == suffix@.len(),
            0 < m <= n,
            d == n - m,
            0 <= i <= m,
            forall|j: int| 0 <= j < i ==> path@[d + j] == #[trigger] suffix@[j],
        decreases m - i,
    {
        if path.get_char(d + i) != suffix.get_char(i) {
            assert(path@.subrange(d as int, n as int)[i as int] != suffix@[i as int]);
            return false;
        }
        i = i + 1;
    }
    assert(path@.subrange(d as int, n as int) == suffix@);
    d == 0 || path.get_char(d - 1) == '/'
}

/// The position of the first exercise whose path ends the changed file's
/// canonical `path`, or `None` where no exercise owns it.
pub fn resolve(exercises: &Vec<Exercise>, path: &str) -> (r: Option<usize>)
    ensures
        match r {
            Some(i) => first_owner(exercises@, path@, i as int),
            None => forall|j: int|
                0 <= j < exercises@.len() ==> !path_ends_with(path@, #[trigger] exercises@[j].path@),
        },
{
    let mut i: usize = 0;
    while i < exercises.len()
        invariant
            0 <= i <= exercises@.len(),
            forall|j: int|
                0 <= j < i ==> !path_ends_with(path@, #[trigger] exercises@[j].path@),
        decreases exercises@.len() - i,
    {
        if ends_with(path, exercises[i].path.as_str()) {
            return Some(i);
        }
        i = i + 1;
    }
    None
}

/// Where a new pass resumes after an event of kind `change` on `path`:
/// at the first exercise that owns the file, or nowhere where the event is
/// not a relevant edit or no exercise owns the file.
pub fn on_change(exercises: &Vec<Exercise>, change: Change, path: &str, exists: bool) -> (r: Option<
    usize,
>)
    ensures
        match r {
            Some(i) => triggers_spec(change, path@, exists) && first_owner(
                exercises@,
                path@,
                i as int,
            ),
            None => !triggers_spec(change, path@, exists) || forall|j: int|
                0 <= j < exercises@.len() ==> !path_ends_with(path@, #[trigger] exercises@[j].path@),
        },
{
    if triggers(change, path, exists) {
        resolve(exercises, path)
    } else {
        None
    }
}

/// The hint to offer after exercise `failed` stopped a pass.
pub fn hint_after(exercises: &Vec<Exercise>, failed: usize) -> (r: String)
    requires
        failed < exercises@.len(),
    ensures
        r@ == exercises@[failed as int].hint@,
{
    exercises[failed].hint.clone()
}

/// Where a watch session stands.
#[derive(PartialEq, Eq, Structural, Debug, Clone, Copy)]
pub enum Phase {
    /// A pass from this position is to run.
    Verifying(usize),
    /// Waiting for a file event.
    Awaiting,
    /// A pass went through to the end of the list.
    Finished,
}

/// A watch session: the phase it is in, and the hint of the exercise that
/// stopped the last pass.
pub struct WatchSession {
    phase: Phase,
    hint: Option<String>,
}

impl WatchSession {
    pub closed spec fn spec_phase(&self) -> Phase {
        self.phase
    }

    pub closed spec fn spec_hint(&self) -> Option<Seq<char>> {
        match self.hint {
            Some(h) => Some(h@),
            None => None,
        }
    }

    /// A new session starts with a pass over the whole list.
    pub fn new() -> (r: WatchSession)
        ensures
            r.spec_phase() == Phase::Verifying(0),
            r.spec_hint() is None,
    {
        WatchSession { phase: Phase::Verifying(0), hint: None }
    }

    pub fn phase(&self) -> (r: Phase)
        ensures
            r == self.spec_phase(),
    {
        self.phase
    }

    /// The hint to show on request.
    pub fn hint(&self) -> (r: Option<String>)
        ensures
            r matches Some(h) ==> self.spec_hint() == Some(h@),
            r is None <==> self.spec_hint() is None,
    {
        match &self.hint {
            Some(h) => Some(h.clone()),
            None => None,
        }
    }

    /// Records how a pass ended: the session is finished once a pass went
    /// through; else it waits for an event, offering the hint of the
    /// exercise that stopped the pass. Outside a pass nothing changes.
    pub fn on_outcome(&mut self, exercises: &Vec<Exercise>, outcome: Result<(), usize>)
        ensures
            old(self).spec_phase() is Verifying ==> match outcome {
                Ok(()) => final(self).spec_phase() == Phase::Finished && final(self).spec_hint()
                    == old(self).spec_hint(),
                Err(i) => final(self).spec_phase() == Phase::Awaiting && final(self).spec_hint()
                    == if i < exercises@.len() {
                    Some(exercises@[i as int].hint@)
                } else {
                    None
                },
            },
            !(old(self).spec_phase() is Verifying) ==> final(self).spec_phase()
                == old(self).spec_phase() && final(self).spec_hint() == old(self).spec_hint(),
    {
        if let Phase::Verifying(_) = self.phase {
            match outcome {
                Ok(()) => {
                    self.phase = Phase::Finished;
                },
                Err(i) => {
                    self.phase = Phase::Awaiting;
                    self.hint = if i < exercises.len() {
                        Some(hint_after(exercises, i))
                    } else {
                        None
                    };
                },
            }
        }
    }

    /// Records a file event: while waiting, a relevant edit of an
    /// exercise's file starts a pass from that exercise; anything else
    /// changes nothing.
    pub fn on_event(&mut self, exercises: &Vec<Exercise>, change: Change, path: &str, exists: bool)
        ensures
            final(self).spec_hint() == old(self).spec_hint(),
            final(self).spec_phase() is Verifying || final(self).spec_phase()
                == old(self).spec_phase(),
            old(self).spec_phase() != Phase::Awaiting ==> final(self).spec_phase()
                == old(self).spec_phase(),
            old(self).spec_phase() == Phase::Awaiting ==> (final(self).spec_phase()
                matches Phase::Verifying(i) ==> triggers_spec(change, path@, exists)
                && first_owner(exercises@, path@, i as int)),
            old(self).spec_phase() == Phase::Awaiting ==> (final(self).spec_phase()
                == Phase::Awaiting <==> (!triggers_spec(change, path@, exists) || forall|j: int|
                0 <= j < exercises@.len() ==> !path_ends_with(
                    path@,
                    #[trigger] exercises@[j].path@,
                ))),
    {
        if self.phase == Phase::Awaiting {
            if let Some(i) = on_change(exercises, change, path, exists) {
                self.phase = Phase::Verifying(i);
            }
        }
    }
}

} // verus!
