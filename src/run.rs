//! Running a single exercise, without the completion gate.
use vstd::prelude::*;
use crate::exercise::Exercise;
use crate::verify::{first_action, Action, Sequencer};

verus! {

/// Starts the compile and run of one exercise, at position 0 of its own
/// one-element list: it passes once it compiled and ran with success,
/// whether or not its marker is still there.
pub fn run(exercise: &Exercise) -> (r: Sequencer)
    ensures
        r.spec_len() == 1,
        !r.spec_gated(),
        r.spec_next() == Action::Compile(0),
{
    let r = Sequencer::new(1, 0, false);
    assert(first_action(1, 0) == Action::Compile(0));
    r
}

} // verus!
