//! What can go wrong, and how a failed command is reported.

use vstd::prelude::*;

verus! {

/// `std::io::Error` of the standard library. Nothing is claimed of what it
/// holds: the library hands such a value on as it got it.
#[verifier::external_type_specification]
#[verifier::external_body]
pub struct ExIoError(std::io::Error);

/// The failures of resolving and running command text.
#[derive(Debug)]
pub enum ShellError {
    /// A stage could not be started; the operating system's error, as it came.
    SpawnFailed(std::io::Error),
    /// Waiting for a stage failed; the operating system's error, as it came.
    Io(std::io::Error),
    /// The last stage of a pipeline did not exit with status zero. `command`
    /// is the pipeline's label, `code` the exit code, if the stage had one.
    CommandFailed { command: String, code: Option<i32> },
    /// A `${name}` reference names nothing in the symbol table.
    UndefinedVariable { name: String },
    /// A `${` is not closed before a `;`, a line feed or the end of the text.
    /// `name` is what stands between the `${` and that place.
    MalformedReference { name: String },
    /// A pipeline without a stage, or a stage without a program name.
    EmptyCommand,
}

/// What a call gives that returns captured output.
pub type FunResult = Result<String, ShellError>;

/// What a call gives whose output the host prints.
pub type CmdResult = Result<(), ShellError>;

/// A `ShellError` with its strings as character sequences.
pub enum Failure {
    SpawnFailed(std::io::Error),
    Io(std::io::Error),
    CommandFailed { command: Seq<char>, code: Option<i32> },
    UndefinedVariable { name: Seq<char> },
    MalformedReference { name: Seq<char> },
    EmptyCommand,
}

impl View for ShellError {
    type V = Failure;

    open spec fn view(&self) -> Failure {
        match *self {
            ShellError::SpawnFailed(e) => Failure::SpawnFailed(e),
            ShellError::Io(e) => Failure::Io(e),
            ShellError::CommandFailed { command, code } => Failure::CommandFailed {
                command: command@,
                code,
            },
            ShellError::UndefinedVariable { name } => Failure::UndefinedVariable { name: name@ },
            ShellError::MalformedReference { name } => Failure::MalformedReference {
                name: name@,
            },
            ShellError::EmptyCommand => Failure::EmptyCommand,
        }
    }
}

/// A result with its strings as character sequences.
pub open spec fn text_result(r: Result<String, ShellError>) -> Result<Seq<char>, Failure> {
    match r {
        Ok(s) => Ok(s@),
        Err(e) => Err(e@),
    }
}

/// The decimal digit for `d`, which is below ten.
pub open spec fn digit(d: nat) -> char {
    (d + 0x30) as char
}

/// `n` in decimal, without leading zeros.
pub open spec fn digits(n: nat) -> Seq<char>
    decreases n,
{
    if n < 10 {
        seq![digit(n)]
    } else {
        digits(n / 10).push(digit(n % 10))
    }
}

/// `i` in decimal, with a minus sign where it is negative.
pub open spec fn decimal(i: int) -> Seq<char> {
    if i < 0 {
        seq!['-'] + digits((-i) as nat)
    } else {
        digits(i as nat)
    }
}

/// The report of a command that left with `code`: the command and its exit
/// code, or, where it had none, that the cause is not known.
pub open spec fn exit_text(command: Seq<char>, code: Option<i32>) -> Seq<char> {
    match code {
        Some(c) => command + " exit with "@ + decimal(c as int),
        None => "Unknown error"@,
    }
}

fn push_digits(r: &mut String, n: u32)
    ensures
        final(r)@ == old(r)@ + digits(n as nat),
    decreases n,
{
    if n >= 10 {
        push_digits(r, n / 10);
    }
    let d: u8 = (n % 10) as u8;
    r.push((0x30u8 + d) as char);
    assert(final(r)@ =~= old(r)@ + digits(n as nat));
}

/// The message for a command that left with `code`.
pub fn exit_message(command: &str, code: Option<i32>) -> (r: String)
    ensures
        r@ == exit_text(command@, code),
{
    match code {
        Some(c) => {
            let mut r = command.to_owned();
            r.append(" exit with ");
            if c < 0 {
                r.push('-');
                let magnitude: i64 = -(c as i64);
                push_digits(&mut r, magnitude as u32);
            } else {
                push_digits(&mut r, c as u32);
            }
            assert(r@ =~= exit_text(command@, code));
            r
        },
        None => "Unknown error".to_owned(),
    }
}

} // verus!
