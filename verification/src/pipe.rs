//! A pipeline as the host sees it: what to start next, under which label,
//! and what the exit of its last stage means.

use crate::error::{text_result, CmdResult, Failure, FunResult, ShellError};
use crate::text::strs;
use crate::token::{tokenize, tokens};
use vstd::prelude::*;

verus! {

/// What stands between two stages in a pipeline's label.
pub open spec fn bar() -> Seq<char> {
    seq![' ', '|', ' ']
}

/// The label of a pipeline that has the label `label` and gets the stage
/// `stage` behind it.
pub open spec fn joined(label: Seq<char>, stage: Seq<char>) -> Seq<char> {
    label + bar() + stage
}

/// Whether a stage that left with `code` succeeded: it exited with status
/// zero.
pub open spec fn succeeded(code: Option<i32>) -> bool {
    code == Some(0i32)
}

/// What a pipeline with the label `label` comes to when its last stage has
/// left with `code` and written `output`.
pub open spec fn verdict(label: Seq<char>, code: Option<i32>, output: Seq<char>) -> Result<
    Seq<char>,
    Failure,
> {
    if succeeded(code) {
        Ok(output)
    } else {
        Err(Failure::CommandFailed { command: label, code })
    }
}

/// An open pipeline: the argument vector of its last stage and the text of
/// all its stages, joined with ` | `.
pub struct Pipe {
    argv: Vec<String>,
    full_cmd: String,
}

impl Pipe {
    #[verifier::type_invariant]
    spec fn named(&self) -> bool {
        self.argv@.len() > 0
    }

    /// The argument vector of the last stage.
    pub closed spec fn args(&self) -> Seq<Seq<char>> {
        strs(self.argv@)
    }

    /// The pipeline's label.
    pub closed spec fn label(&self) -> Seq<char> {
        self.full_cmd@
    }

    /// A pipeline of the one stage `pipe_cmd`. Fails where `pipe_cmd` names
    /// no program.
    pub fn new(pipe_cmd: &str) -> (r: Result<Pipe, ShellError>)
        ensures
            match r {
                Ok(p) => p.args() == tokens(pipe_cmd@) && p.args().len() > 0 && p.label()
                    == pipe_cmd@,
                Err(e) => tokens(pipe_cmd@).len() == 0 && e@ == Failure::EmptyCommand,
            },
    {
        let argv = tokenize(pipe_cmd);
        if argv.len() == 0 {
            Err(ShellError::EmptyCommand)
        } else {
            Ok(Pipe { argv, full_cmd: pipe_cmd.to_owned() })
        }
    }

    /// This pipeline with the stage `pipe_cmd` behind it. Fails where
    /// `pipe_cmd` names no program.
    pub fn pipe(&self, pipe_cmd: &str) -> (r: Result<Pipe, ShellError>)
        ensures
            match r {
                Ok(p) => p.args() == tokens(pipe_cmd@) && p.args().len() > 0 && p.label()
                    == joined(self.label(), pipe_cmd@),
                Err(e) => tokens(pipe_cmd@).len() == 0 && e@ == Failure::EmptyCommand,
            },
    {
        let argv = tokenize(pipe_cmd);
        if argv.len() == 0 {
            Err(ShellError::EmptyCommand)
        } else {
            let mut full_cmd = self.full_cmd.clone();
            full_cmd.append(" | ");
            full_cmd.append(pipe_cmd);
            proof {
                reveal_strlit(" | ");
                assert(" | "@ =~= bar());
            }
            Ok(Pipe { argv, full_cmd })
        }
    }

    /// The argument vector of the last stage: the program, then its
    /// arguments.
    pub fn argv(&self) -> (r: &Vec<String>)
        ensures
            strs(r@) == self.args(),
            r@.len() > 0,
    {
        proof {
            use_type_invariant(self);
        }
        &self.argv
    }

    /// The pipeline's label.
    pub fn full_cmd(&self) -> (r: &str)
        ensures
            r@ == self.label(),
    {
        self.full_cmd.as_str()
    }

    /// What the pipeline comes to when its last stage has left with `code`
    /// and written `output`: the output where the stage exited with status
    /// zero, else the failure of the whole pipeline with that code.
    pub fn wait_fun_result(self, code: Option<i32>, output: String) -> (r: FunResult)
        ensures
            text_result(r) == verdict(self.label(), code, output@),
            succeeded(code) ==> r == Ok::<String, ShellError>(output),
    {
        match code {
            Some(0) => Ok(output),
            _ => Err(ShellError::CommandFailed { command: self.full_cmd, code }),
        }
    }

    /// As `wait_fun_result`, for a pipeline whose output the host prints:
    /// the text to print, if any, and the result.
    pub fn wait_cmd_result(self, code: Option<i32>, output: String) -> (r: (
        Option<String>,
        CmdResult,
    ))
        ensures
            succeeded(code) ==> r.0 == Some(output) && r.1 is Ok,
            !succeeded(code) ==> r.0 is None && r.1 is Err && r.1->Err_0@
                == (Failure::CommandFailed { command: self.label(), code }),
    {
        result_fun_to_cmd(self.wait_fun_result(code, output))
    }
}

/// Parts a result into what the host prints and what it returns: the text of
/// a success is printed, a failure is handed on as it is.
pub fn result_fun_to_cmd(res: FunResult) -> (r: (Option<String>, CmdResult))
    ensures
        match res {
            Ok(s) => r.0 == Some(s) && r.1 is Ok,
            Err(e) => r.0 is None && r.1 == Err::<(), ShellError>(e),
        },
{
    match res {
        Ok(s) => (Some(s), Ok(())),
        Err(e) => (None, Err(e)),
    }
}

} // verus!
