//! Exercises, their completion state, and the outcome of compiling and
//! running one.
use vstd::prelude::*;
use vstd::utf8::{decode_utf8, encode_utf8, encode_utf8_decode_utf8, encode_utf8_valid_utf8, valid_utf8};
use crate::text::{
    alphanumeric, decimal, decimal_text, decode_lossy, is_alphanumeric, lines_of, lossy_of,
    regex_compiles, regex_matches, split_lines, Marker,
};

verus! {

/// The marker a student leaves in a file that is not finished yet.
pub const I_AM_NOT_DONE_REGEX: &'static str = r"(?mi)^\s*///?\s*I\s+AM\s+NOT\s+DONE";

/// Lines shown on each side of the marker line.
pub const CONTEXT: usize = 2;

/// The ordered exercises of a curriculum.
pub struct ExerciseList {
    pub exercises: Vec<Exercise>,
}

/// One exercise: a single source file, with a hint shown when it fails.
pub struct Exercise {
    pub name: String,
    pub path: String,
    pub hint: String,
}

/// Whether an exercise is finished.
#[derive(Debug)]
pub enum State {
    /// No line carries the marker.
    Done,
    /// The lines around the first marker line.
    Pending(Vec<ContextLine>),
}

/// A source line shown around the marker.
#[derive(Debug)]
pub struct ContextLine {
    pub line: String,
    /// Line number, from 1.
    pub number: usize,
    /// Whether this is the marker line.
    pub important: bool,
}

/// What a compiler or a compiled program printed.
#[derive(Debug)]
pub struct ExerciseOutput {
    pub stdout: String,
    pub stderr: String,
}

/// The raw result of running an outside process: whether it exited with
/// success, and the bytes it wrote.
pub struct Capture {
    pub success: bool,
    pub stdout: Vec<u8>,
    pub stderr: Vec<u8>,
}

/// An exercise whose source compiled into the transient executable.
pub struct CompiledExercise<'a> {
    exercise: &'a Exercise,
}

impl PartialEq for ContextLine {
    fn eq(&self, o: &ContextLine) -> bool {
        self.line == o.line && self.number == o.number && self.important == o.important
    }
}

impl vstd::std_specs::cmp::PartialEqSpecImpl for ContextLine {
    open spec fn obeys_eq_spec() -> bool {
        true
    }

    open spec fn eq_spec(&self, o: &ContextLine) -> bool {
        same_line(*self, *o)
    }
}

/// Whether two contexts hold the same lines.
fn same_lines(a: &Vec<ContextLine>, b: &Vec<ContextLine>) -> (r: bool)
    ensures
        r == (a@.len() == b@.len() && forall|j: int|
            0 <= j < a@.len() ==> same_line(#[trigger] a@[j], b@[j])),
{
    if a.len() != b.len() {
        return false;
    }
    let mut i: usize = 0;
    while i < a.len()
        invariant
            a@.len() == b@.len(),
            0 <= i <= a@.len(),
            forall|j: int| 0 <= j < i ==> same_line(#[trigger] a@[j], b@[j]),
        decreases a@.len() - i,
    {
        if a[i] != b[i] {
            assert(!same_line(a@[i as int], b@[i as int]));
            return false;
        }
        i = i + 1;
    }
    true
}

impl PartialEq for State {
    fn eq(&self, o: &State) -> bool {
        match (self, o) {
            (State::Done, State::Done) => true,
            (State::Pending(a), State::Pending(b)) => same_lines(a, b),
            _ => false,
        }
    }
}

impl vstd::std_specs::cmp::PartialEqSpecImpl for State {
    open spec fn obeys_eq_spec() -> bool {
        true
    }

    open spec fn eq_spec(&self, o: &State) -> bool {
        match (self, o) {
            (State::Done, State::Done) => true,
            (State::Pending(a), State::Pending(b)) => a@.len() == b@.len() && forall|j: int|
                0 <= j < a@.len() ==> same_line(#[trigger] a@[j], b@[j]),
            _ => false,
        }
    }
}

/// Two context lines hold the same text, number and flag.
pub open spec fn same_line(a: ContextLine, b: ContextLine) -> bool {
    a.line@ == b.line@ && a.number == b.number && a.important == b.important
}

/// Line `m` (from 0) carries the marker, and no line before it does.
pub open spec fn first_marker(lines: Seq<Seq<char>>, pattern: Seq<char>, m: int) -> bool {
    &&& 0 <= m < lines.len()
    &&& regex_matches(pattern, lines[m])
    &&& forall|j: int| 0 <= j < m ==> !regex_matches(pattern, #[trigger] lines[j])
}

/// No line of `lines` carries the marker.
pub open spec fn unmarked(lines: Seq<Seq<char>>, pattern: Seq<char>) -> bool {
    forall|j: int| 0 <= j < lines.len() ==> !regex_matches(pattern, #[trigger] lines[j])
}

/// First line (from 0) of the window around line `m`.
pub open spec fn window_start(m: int) -> int {
    if m >= CONTEXT { m - CONTEXT } else { 0 }
}

/// Line after the last (from 0) of the window around line `m`.
pub open spec fn window_end(m: int, n: int) -> int {
    if m + CONTEXT + 1 <= n { m + CONTEXT + 1 } else { n }
}

/// `ctx` holds the lines of the window around line `m`, numbered from 1,
/// with line `m` flagged.
pub open spec fn is_context(ctx: Seq<ContextLine>, lines: Seq<Seq<char>>, m: int) -> bool {
    let lo = window_start(m);
    &&& ctx.len() == window_end(m, lines.len() as int) - lo
    &&& forall|j: int|
        0 <= j < ctx.len() ==> {
            &&& (#[trigger] ctx[j]).line@ == lines[lo + j]
            &&& ctx[j].number == lo + j + 1
            &&& ctx[j].important == (lo + j == m)
        }
}

/// The state of a source text: `Done` where no line carries the marker;
/// else the window around the first line that does.
pub open spec fn state_of(st: State, source: Seq<char>, pattern: Seq<char>) -> bool {
    let lines = lines_of(source);
    match st {
        State::Done => unmarked(lines, pattern),
        State::Pending(ctx) => exists|m: int|
            first_marker(lines, pattern, m) && #[trigger] is_context(ctx@, lines, m),
    }
}

/// What a process printed, decoded; valid UTF-8 as the text it encodes.
pub open spec fn output_of(o: ExerciseOutput, c: Capture) -> bool {
    &&& o.stdout@ == lossy_of(c.stdout@)
    &&& o.stderr@ == lossy_of(c.stderr@)
    &&& valid_utf8(c.stdout@) ==> o.stdout@ == decode_utf8(c.stdout@)
    &&& valid_utf8(c.stderr@) ==> o.stderr@ == decode_utf8(c.stderr@)
}

/// The letters and digits of `s`, in order.
pub open spec fn alphanumeric_part(s: Seq<char>) -> Seq<char> {
    s.filter(|c: char| alphanumeric(c))
}

/// The path of the transient executable of the process `pid`, on the thread
/// whose id is written `thread_id`.
pub open spec fn temp_file_of(pid: nat, thread_id: Seq<char>) -> Seq<char> {
    seq!['.', '/', 't', 'e', 'm', 'p', '_'] + decimal(pid) + seq!['_'] + alphanumeric_part(thread_id)
}

/// Compiles the marker pattern; `None` only where the regex crate refuses it.
pub fn not_done_marker() -> (r: Option<Marker>)
    ensures
        r is Some <==> regex_compiles(I_AM_NOT_DONE_REGEX@),
        r matches Some(m) ==> m.pattern() == I_AM_NOT_DONE_REGEX@,
{
    Marker::new(I_AM_NOT_DONE_REGEX)
}

impl ExerciseOutput {
    /// Decodes what a process wrote, invalid UTF-8 replaced.
    pub fn from_capture(capture: &Capture) -> (r: ExerciseOutput)
        ensures
            output_of(r, *capture),
    {
        ExerciseOutput {
            stdout: decode_lossy(capture.stdout.as_slice()),
            stderr: decode_lossy(capture.stderr.as_slice()),
        }
    }
}

impl<'a> CompiledExercise<'a> {
    pub closed spec fn spec_exercise(&self) -> &'a Exercise {
        self.exercise
    }

    pub fn exercise(&self) -> (r: &'a Exercise)
        ensures
            r == self.spec_exercise(),
    {
        self.exercise
    }

    /// The outcome of running the executable: `Ok` exactly when it exited
    /// with success, the same decoded output either way.
    pub fn run(&self, capture: &Capture) -> (r: Result<ExerciseOutput, ExerciseOutput>)
        ensures
            r is Ok <==> capture.success,
            match r {
                Ok(o) => output_of(o, *capture),
                Err(o) => output_of(o, *capture),
            },
    {
        let output = ExerciseOutput::from_capture(capture);
        if capture.success {
            Ok(output)
        } else {
            Err(output)
        }
    }
}

impl Exercise {
    /// The outcome of compiling this exercise: compiled exactly when the
    /// compiler exited with success, else what the compiler printed.
    pub fn compile(&self, capture: &Capture) -> (r: Result<CompiledExercise<'_>, ExerciseOutput>)
        ensures
            r is Ok <==> capture.success,
            match r {
                Ok(c) => c.spec_exercise() == self,
                Err(o) => output_of(o, *capture),
            },
    {
        if capture.success {
            Ok(CompiledExercise { exercise: self })
        } else {
            Err(ExerciseOutput::from_capture(capture))
        }
    }

    /// The state of this exercise, given its source text and the compiled
    /// marker.
    pub fn state(&self, source: &str, marker: &Marker) -> (r: State)
        ensures
            state_of(r, source@, marker.pattern()),
    {
        let lines = split_lines(source);
        let ghost ls = lines_of(source@);
        let ghost p = marker.pattern();
        let m = first_marked(&lines, marker);
        if m == lines.len() {
            assert forall|j: int| 0 <= j < ls.len() implies !regex_matches(p, #[trigger] ls[j]) by {
                assert(lines@[j]@ == ls[j]);
            }
            return State::Done;
        }
        assert forall|j: int| 0 <= j < m implies !regex_matches(p, #[trigger] ls[j]) by {
            assert(lines@[j]@ == ls[j]);
        }
        assert(lines@[m as int]@ == ls[m as int]);
        assert(first_marker(ls, p, m as int));
        let lo: usize = if m >= CONTEXT { m - CONTEXT } else { 0 };
        let hi: usize = if lines.len() - m > CONTEXT { m + CONTEXT + 1 } else { lines.len() };
        let mut context: Vec<ContextLine> = Vec::new();
        let mut i: usize = lo;
        while i < hi
            invariant
                ls == lines_of(source@),
                p == marker.pattern(),
                first_marker(ls, p, m as int),
                lines@.len() == ls.len(),
                forall|k: int| 0 <= k < lines@.len() ==> #[trigger] lines@[k]@ == ls[k],
                m < lines@.len(),
                lo == window_start(m as int),
                hi == window_end(m as int, ls.len() as int),
                lo <= i <= hi,
                context@.len() == i - lo,
                forall|j: int|
                    0 <= j < context@.len() ==> {
                        &&& (#[trigger] context@[j]).line@ == ls[lo + j]
                        &&& context@[j].number == lo + j + 1
                        &&& context@[j].important == (lo + j == m)
                    },
            decreases hi - i,
        {
            context.push(ContextLine { line: lines[i].clone(), number: i + 1, important: i == m });
            i = i + 1;
        }
        assert(is_context(context@, ls, m as int));
        let r = State::Pending(context);
        assert(r matches State::Pending(ctx) && ctx@ == context@);
        r
    }
}

/// The index of the first line that the marker matches, or the number of
/// lines where none does.
fn first_marked(lines: &Vec<String>, marker: &Marker) -> (m: usize)
    ensures
        m <= lines@.len(),
        forall|j: int| 0 <= j < m ==> !regex_matches(marker.pattern(), #[trigger] lines@[j]@),
        m < lines@.len() ==> regex_matches(marker.pattern(), lines@[m as int]@),
{
    let mut m: usize = 0;
    while m < lines.len()
        invariant
            0 <= m <= lines@.len(),
            forall|j: int| 0 <= j < m ==> !regex_matches(marker.pattern(), #[trigger] lines@[j]@),
        decreases lines@.len() - m,
    {
        if marker.is_match(lines[m].as_str()) {
            return m;
        }
        m = m + 1;
    }
    m
}

/// The path of the transient executable: `./temp_`, the process id, `_`, and
/// the letters and digits of the thread id as Debug writes it, so that
/// threads with different ids get different names.
pub fn temp_file(pid: u32, thread_id: &str) -> (r: String)
    ensures
        r@ == temp_file_of(pid as nat, thread_id@),
{
    let mut r = String::from_str("./temp_");
    let digits = decimal_text(pid);
    r.append(digits.as_str());
    r.append("_");
    let n = thread_id.unicode_len();
    proof {
        reveal_strlit("./temp_");
        reveal_strlit("_");
        assert(thread_id@.take(0) == Seq::<char>::empty());
        reveal_with_fuel(Seq::filter, 1);
    }
    let mut i: usize = 0;
    while i < n
        invariant
            n == thread_id@.len(),
            0 <= i <= n,
            r@ == seq!['.', '/', 't', 'e', 'm', 'p', '_'] + decimal(pid as nat) + seq!['_']
                + alphanumeric_part(thread_id@.take(i as int)),
        decreases n - i,
    {
        let c = thread_id.get_char(i);
        proof {
            let t = thread_id@.take(i as int + 1);
            assert(t.drop_last() == thread_id@.take(i as int));
            assert(t.last() == c);
            reveal_with_fuel(Seq::filter, 1);
        }
        if is_alphanumeric(c) {
            r.append(thread_id.substring_char(i, i + 1));
        }
        i = i + 1;
    }
    assert(thread_id@.take(n as int) == thread_id@);
    r
}

} // verus!

verus! {

/// A program that printed the text `t` gets `t` back whole as its standard
/// output, whether it exited with success or not; so whatever `t` contains,
/// the output contains too.
pub proof fn printed_text_is_kept(o: ExerciseOutput, c: Capture, t: Seq<char>)
    requires
        output_of(o, c),
        c.stdout@ == encode_utf8(t),
    ensures
        o.stdout@ == t,
{
    encode_utf8_valid_utf8(t);
    encode_utf8_decode_utf8(t);
}

/// A source with no line that the marker matches is `Done`.
pub proof fn unmarked_source_is_done(st: State, source: Seq<char>, pattern: Seq<char>)
    requires
        state_of(st, source, pattern),
        unmarked(lines_of(source), pattern),
    ensures
        st is Done,
{
    if let State::Pending(ctx) = st {
        let m = choose|m: int| first_marker(lines_of(source), pattern, m) && is_context(ctx@, lines_of(source), m);
        assert(!regex_matches(pattern, lines_of(source)[m]));
    }
}

/// Only one line can be the first marked one.
proof fn lemma_first_marker_unique(lines: Seq<Seq<char>>, pattern: Seq<char>, a: int, b: int)
    requires
        first_marker(lines, pattern, a),
        first_marker(lines, pattern, b),
    ensures
        a == b,
{
    if a < b {
        assert(!regex_matches(pattern, lines[a]));
    } else if b < a {
        assert(!regex_matches(pattern, lines[b]));
    }
}

/// With its first marker on line `k` (counted from 1) of `n`, a source has a
/// pending state whose context runs from line `max(1, k - 2)` to line
/// `min(k + 2, n)`, one entry per line and at most five, and flags exactly
/// one entry, that of line `k`.
pub proof fn pending_context_window(st: State, source: Seq<char>, pattern: Seq<char>, k: int)
    requires
        state_of(st, source, pattern),
        first_marker(lines_of(source), pattern, k - 1),
    ensures
        st matches State::Pending(ctx) && {
            let n = lines_of(source).len() as int;
            &&& 0 < ctx@.len() <= 5
            &&& ctx@[0].number == if k > 2 { k - 2 } else { 1 }
            &&& ctx@.last().number == if k + 2 <= n { k + 2 } else { n }
            &&& forall|j: int|
                0 <= j < ctx@.len() ==> (#[trigger] ctx@[j]).number == ctx@[0].number + j
            &&& forall|j: int|
                0 <= j < ctx@.len() ==> ((#[trigger] ctx@[j]).important <==> ctx@[j].number == k)
            &&& exists|j: int| 0 <= j < ctx@.len() && (#[trigger] ctx@[j]).important
            &&& forall|i: int, j: int|
                0 <= i < ctx@.len() && 0 <= j < ctx@.len() && (#[trigger] ctx@[i]).important
                    && (#[trigger] ctx@[j]).important ==> i == j
        },
{
    let lines = lines_of(source);
    match st {
        State::Done => {
            assert(!unmarked(lines, pattern));
        },
        State::Pending(ctx) => {
            let m = choose|m: int| first_marker(lines, pattern, m) && is_context(ctx@, lines, m);
            lemma_first_marker_unique(lines, pattern, m, k - 1);
            let j = k - 1 - window_start(m);
            assert(ctx@[j].important);
        },
    }
}

} // verus!
