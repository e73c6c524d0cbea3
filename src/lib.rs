//! Exercise runner core: the completion marker, the compile/run protocol,
//! the sequencer that gates progression, and the decisions of the watch loop.

pub mod exercise;
pub mod run;
pub mod text;
pub mod verify;
pub mod watch;

pub use exercise::{
    Capture, CompiledExercise, ContextLine, Exercise, ExerciseList, ExerciseOutput, State,
};
pub use run::run;
pub use verify::{verify, Action, Sequencer};
