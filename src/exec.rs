use vstd::prelude::*;
use vstd::utf8::{valid_utf8, decode_utf8};
use crate::{CommandOutput, OperationError};
use crate::text::views;

verus! {

/// Relies on `String::from_utf8`: succeeds exactly on valid UTF-8 and
/// then holds the decoded characters.
#[verifier::external_body]
fn utf8_string(b: Vec<u8>) -> (r: Option<String>)
    ensures
        r.is_some() == valid_utf8(b@),
        r matches Some(s) ==> s@ == decode_utf8(b@),
{
    String::from_utf8(b).ok()
}

/// A program to start, with its arguments and working directory.
#[derive(Debug, Clone, PartialEq)]
pub struct Invocation {
    pub program: String,
    pub args: Vec<String>,
    pub dir: String,
}

/// Runs a command line in each directory.
#[derive(Debug, Clone, PartialEq)]
pub struct CommandRunner {
    pub cmd: Vec<String>,
}

/// The outcome of a command in `dir`, given what running it gave.
pub open spec fn exec_outcome(dir: Seq<char>, ran: Result<(Vec<u8>, Vec<u8>), String>, r: Result<CommandOutput, OperationError>) -> bool {
    match ran {
        Err(m) => r matches Err(OperationError::Execution(d, e)) && d@ == dir && e@ == m@,
        Ok((out, err)) => if valid_utf8(out@) && valid_utf8(err@) {
            r matches Ok(o) && o.output@ == decode_utf8(out@) && o.error@ == decode_utf8(err@) && o.dir@ == dir
        } else {
            r matches Err(OperationError::Execution(d, _)) && d@ == dir
        },
    }
}

impl CommandRunner {
    /// What to start in `dir`: the first word as the program, the others
    /// as its arguments; an error where there is no word.
    pub fn invocation(&self, dir: &String) -> (r: Result<Invocation, OperationError>)
        ensures
            self.cmd@.len() == 0 <==> r is Err,
            r matches Err(e) ==> e matches OperationError::MissingCommand(d) && d@ == dir@,
            r matches Ok(inv) ==> inv.program@ == self.cmd@[0]@ && views(inv.args@) == views(self.cmd@.drop_first())
                && inv.dir@ == dir@,
    {
        if self.cmd.len() == 0 {
            return Err(OperationError::MissingCommand(dir.clone()));
        }
        let mut args: Vec<String> = Vec::new();
        let mut i: usize = 1;
        while i < self.cmd.len()
            invariant
                1 <= i <= self.cmd.len(),
                views(args@) == views(self.cmd@.subrange(1, i as int)),
            decreases self.cmd.len() - i,
        {
            let ghost before = args@;
            args.push(self.cmd[i].clone());
            assert(views(args@) =~= views(before).push(self.cmd@[i as int]@));
            i = i + 1;
            assert(views(args@) =~= views(self.cmd@.subrange(1, i as int)));
        }
        assert(self.cmd@.subrange(1, self.cmd.len() as int) =~= self.cmd@.drop_first());
        Ok(Invocation { program: self.cmd[0].clone(), args, dir: dir.clone() })
    }

    /// The outcome for `dir`, given the captured standard output and
    /// standard error, or the reason the program could not run.
    pub fn finish(dir: String, ran: Result<(Vec<u8>, Vec<u8>), String>) -> (r: Result<CommandOutput, OperationError>)
        ensures
            exec_outcome(dir@, ran, r),
    {
        match ran {
            Err(m) => Err(OperationError::Execution(dir, m)),
            Ok((out, err)) => {
                match (utf8_string(out), utf8_string(err)) {
                    (Some(output), Some(error)) => Ok(CommandOutput { output, error, dir }),
                    _ => Err(OperationError::Execution(dir, String::from_str("output is not valid UTF-8"))),
                }
            },
        }
    }
}

} // verus!
