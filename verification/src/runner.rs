use vstd::prelude::*;

verus! {

/// One of the two output streams of the decorator.
#[derive(Debug, Clone, Copy, PartialEq, Eq, Structural)]
pub enum Stream {
    Stdout,
    Stderr,
}

/// Errors of preparing a command.
#[derive(Debug, Clone, Copy, PartialEq, Eq, Structural)]
pub enum RunError {
    /// The command line holds no program to run.
    NoCommand,
}

/// What the run loop does after a round of readiness events.
#[derive(Debug, Clone, Copy, PartialEq, Eq, Structural)]
pub enum LoopStep {
    /// Wait for further events.
    Continue,
    /// The child has exited: print what is pending and return its status.
    Finish,
    /// Both streams are at end of file: wait for the child, then print what
    /// is pending and return its status.
    WaitThenFinish,
}

/// The output stream that lines of the child's stream `key` go to: the
/// child's standard output (key 0) to standard output, any other to
/// standard error.
pub fn stream_for_key(key: usize) -> (r: Stream)
    ensures
        r == (if key == 0 {
            Stream::Stdout
        } else {
            Stream::Stderr
        }),
{
    if key == 0 {
        Stream::Stdout
    } else {
        Stream::Stderr
    }
}

/// What to do with a readiness event on the child's stream `key`: nothing
/// once that stream is at end of file, otherwise read its lines and print
/// them on the stream that `stream_for_key` names.
pub fn event_action(key: usize, at_eof: bool) -> (r: Option<Stream>)
    ensures
        at_eof ==> r is None,
        !at_eof ==> r == Some(if key == 0 {
            Stream::Stdout
        } else {
            Stream::Stderr
        }),
{
    if at_eof {
        None
    } else {
        Some(stream_for_key(key))
    }
}

/// True when every stream is at end of file.
pub open spec fn all_at_eof(at_eof: Seq<bool>) -> bool {
    forall|i: int| 0 <= i < at_eof.len() ==> #[trigger] at_eof[i]
}

/// The decision after a round of events: finish as soon as the child has
/// exited; otherwise wait for the child once every stream is at end of file;
/// otherwise go on polling.
pub fn after_events(child_exited: bool, at_eof: &[bool]) -> (r: LoopStep)
    ensures
        child_exited ==> r == LoopStep::Finish,
        !child_exited && all_at_eof(at_eof@) ==> r == LoopStep::WaitThenFinish,
        !child_exited && !all_at_eof(at_eof@) ==> r == LoopStep::Continue,
{
    if child_exited {
        return LoopStep::Finish;
    }
    let n = at_eof.len();
    for i in 0..n
        invariant
            n == at_eof@.len(),
            !child_exited,
            forall|j: int| 0 <= j < i ==> at_eof@[j],
    {
        if !at_eof[i] {
            return LoopStep::Continue;
        }
    }
    LoopStep::WaitThenFinish
}

/// Splits a command line into the program and its arguments; fails when
/// there is no program.
pub fn command_parts(command: &[&str]) -> (r: Result<(String, Vec<String>), RunError>)
    ensures
        command@.len() == 0 <==> r is Err,
        r is Err ==> r == Err::<(String, Vec<String>), RunError>(RunError::NoCommand),
        r matches Ok((program, args)) ==> {
            &&& program@ == command@[0]@
            &&& args@.len() == command@.len() - 1
            &&& forall|i: int| 0 <= i < args@.len() ==> #[trigger] args@[i]@ == command@[i + 1]@
        },
{
    let n = command.len();
    if n == 0 {
        return Err(RunError::NoCommand);
    }
    let program = String::from_str(command[0]);
    let mut args: Vec<String> = Vec::new();
    for i in 1..n
        invariant
            n == command@.len(),
            1 <= i <= n,
            args@.len() == i - 1,
            forall|j: int| 0 <= j < args@.len() ==> #[trigger] args@[j]@ == command@[j + 1]@,
    {
        args.push(String::from_str(command[i]));
    }
    Ok((program, args))
}

/// The exit code of the decorator for the child's exit code: the same code,
/// or 0 when the child ended without one (killed by a signal).
pub fn exit_code(code: Option<i32>) -> (r: i32)
    ensures
        r == match code {
            Some(c) => c,
            None => 0,
        },
{
    match code {
        Some(c) => c,
        None => 0,
    }
}

} // verus!
