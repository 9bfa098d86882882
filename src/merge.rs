use vstd::prelude::*;
use crate::{CommandOutput, OperationError, repository_outcome, repository_outcome_spec};
use crate::options::MergeOpts;
use crate::text::{push_char, push_str};

verus! {

/// How the current branch relates to its upstream.
#[derive(Debug, Clone, Copy, PartialEq, Eq)]
pub enum MergeClass {
    /// The upstream is strictly ahead, with no local-only commits.
    FastForward,
    /// Both sides have commits of their own.
    Diverged,
    /// Nothing to take from the upstream.
    UpToDate,
    /// None of the above, such as an unborn branch.
    Other,
}

impl MergeClass {
    /// The class that a merge analysis reports: a fast-forward where it
    /// allows one, else diverged where only a normal merge would do, else
    /// up to date, else none of these.
    pub fn from_analysis(fast_forward: bool, normal: bool, up_to_date: bool) -> (r: MergeClass)
        ensures
            fast_forward ==> r == MergeClass::FastForward,
            !fast_forward && normal ==> r == MergeClass::Diverged,
            !fast_forward && !normal && up_to_date ==> r == MergeClass::UpToDate,
            !fast_forward && !normal && !up_to_date ==> r == MergeClass::Other,
    {
        if fast_forward {
            MergeClass::FastForward
        } else if normal {
            MergeClass::Diverged
        } else if up_to_date {
            MergeClass::UpToDate
        } else {
            MergeClass::Other
        }
    }
}

/// What to do next for a directory.
#[derive(Debug, Clone, PartialEq)]
pub enum MergeStep {
    /// Nothing to change; the text is the result.
    Done(String),
    /// Advance the branch to the upstream commit.
    FastForward {
        /// Write the branch, the current-branch pointer and the working tree.
        update: bool,
        /// Report the statistics of what changes.
        stats: bool,
    },
}

/// The reflog message of a fast-forward of `head` to `id`.
pub open spec fn reflog_text(head: Seq<char>, id: Seq<char>) -> Seq<char> {
    "Fast-Forward: Setting "@ + head + " to id: "@ + id
}

/// The result text of a fast-forward: the statistics block where there
/// is one, then the reflog message on its own line.
pub open spec fn fast_forward_report(head: Seq<char>, id: Seq<char>, stats: Option<Seq<char>>) -> Seq<char> {
    match stats {
        Some(s) => seq!['\n'] + s + reflog_text(head, id) + seq!['\n'],
        None => reflog_text(head, id) + seq!['\n'],
    }
}

/// The reflog message of a fast-forward of `head_name` to `target_id`.
pub fn reflog_message(head_name: &str, target_id: &str) -> (r: String)
    ensures
        r@ == reflog_text(head_name@, target_id@),
{
    let mut r = String::from_str("Fast-Forward: Setting ");
    push_str(&mut r, head_name);
    push_str(&mut r, " to id: ");
    push_str(&mut r, target_id);
    r
}

/// Fast-forwards the current branch of a repository to its upstream.
#[derive(Debug, Clone, PartialEq)]
pub struct MergeRunner {
    pub opts: MergeOpts,
}

impl MergeRunner {
    /// The next step, given how the branch relates to its upstream (`None`
    /// where the branch has no name or no upstream).
    pub fn decide(&self, class: Option<MergeClass>) -> (r: MergeStep)
        ensures
            match class {
                Some(MergeClass::FastForward) => r == (MergeStep::FastForward {
                    update: !self.opts.dry,
                    stats: self.opts.verbose,
                }),
                Some(MergeClass::Diverged) => r matches MergeStep::Done(t) && t@ == "Cannot fast-forward\n"@,
                _ => r matches MergeStep::Done(t) && t@.len() == 0,
            },
    {
        match class {
            Some(MergeClass::FastForward) => MergeStep::FastForward { update: !self.opts.dry, stats: self.opts.verbose },
            Some(MergeClass::Diverged) => MergeStep::Done(String::from_str("Cannot fast-forward\n")),
            _ => MergeStep::Done(String::new()),
        }
    }

    /// The result text of a fast-forward of `head_name` to `target_id`.
    pub fn report(&self, head_name: &str, target_id: &str, stats: &Option<String>) -> (r: String)
        ensures
            r@ == fast_forward_report(
                head_name@,
                target_id@,
                match *stats {
                    Some(s) => Some(s@),
                    None => None,
                },
            ),
    {
        let mut out = String::new();
        if let Some(s) = stats {
            push_char(&mut out, '\n');
            push_str(&mut out, s.as_str());
        }
        let m = reflog_message(head_name, target_id);
        push_str(&mut out, m.as_str());
        push_char(&mut out, '\n');
        proof {
            if stats.is_some() {
                assert(out@ =~= seq!['\n'] + stats.unwrap()@ + reflog_text(head_name@, target_id@) + seq!['\n']);
            } else {
                assert(out@ =~= reflog_text(head_name@, target_id@) + seq!['\n']);
            }
        }
        out
    }

    /// The outcome for `dir`, given the result text or the failure.
    pub fn process(&self, dir: String, res: Result<String, String>) -> (r: Result<CommandOutput, OperationError>)
        ensures
            repository_outcome_spec(dir@, res, r),
    {
        repository_outcome(dir, res)
    }
}

} // verus!
