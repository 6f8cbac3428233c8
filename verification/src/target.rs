//! Finding the commit that a branch name or commit hash stands for.
//!
//! The search reads the repository in turn: the HEAD commit for `HEAD`, else
//! the branches matching the name, and only when none does, the commits whose
//! hash starts with it. `target_step` decides, from what has been found so
//! far, what to read next or what the answer is; the caller does the reading.

use vstd::prelude::*;
use vstd::string::StringExecFns;
use crate::object::SHA1;
use crate::text::text_eq;

verus! {

/// Why no single commit was found.
#[derive(Debug)]
pub enum TargetError {
    /// More than one branch matches the name.
    AmbiguousBranch,
    /// No branch matches and more than one commit hash starts with the name.
    AmbiguousCommit { name: String },
    /// Neither a branch nor a commit matches the name.
    NotFound { name: String },
}

/// A `TargetError` with its name taken as text.
pub enum TargetErrorView {
    AmbiguousBranch,
    AmbiguousCommit { name: Seq<char> },
    NotFound { name: Seq<char> },
}

impl View for TargetError {
    type V = TargetErrorView;

    open spec fn view(&self) -> TargetErrorView {
        match self {
            TargetError::AmbiguousBranch => TargetErrorView::AmbiguousBranch,
            TargetError::AmbiguousCommit { name } => TargetErrorView::AmbiguousCommit {
                name: name@,
            },
            TargetError::NotFound { name } => TargetErrorView::NotFound { name: name@ },
        }
    }
}

/// The text that reports an error.
pub open spec fn error_message(e: TargetErrorView) -> Seq<char> {
    match e {
        TargetErrorView::AmbiguousBranch => "Ambiguous branch name"@,
        TargetErrorView::AmbiguousCommit { name } => "Ambiguous commit hash '"@ + name + "'"@,
        TargetErrorView::NotFound { name } => "No such branch or commit: '"@ + name + "'"@,
    }
}

impl TargetError {
    /// The text that reports the error.
    pub fn message(&self) -> (r: String)
        ensures
            r@ == error_message(self@),
    {
        match self {
            TargetError::AmbiguousBranch => "Ambiguous branch name".to_owned(),
            TargetError::AmbiguousCommit { name } => {
                let mut m = "Ambiguous commit hash '".to_owned();
                m.append(name.as_str());
                m.append("'");
                m
            },
            TargetError::NotFound { name } => {
                let mut m = "No such branch or commit: '".to_owned();
                m.append(name.as_str());
                m.append("'");
                m
            },
        }
    }
}

/// What the search has read so far.
pub enum Found {
    /// Nothing yet.
    Nothing,
    /// The commit that HEAD points at.
    HeadCommit { commit: SHA1 },
    /// The commits of the branches whose name matches, in the order found.
    Branches { commits: Vec<SHA1> },
    /// The commits whose hash starts with the name, in the order found.
    Commits { commits: Vec<SHA1> },
}

/// What the search does next.
pub enum Step {
    /// Read the commit that HEAD points at.
    ReadHeadCommit,
    /// Look up the branches whose name matches.
    SearchBranches,
    /// Look up the commits whose hash starts with the name.
    SearchCommits,
    /// Stop with this answer.
    Done { result: Result<SHA1, TargetError> },
}

/// `Found` with its lists taken as sequences.
pub enum FoundView {
    Nothing,
    HeadCommit { commit: SHA1 },
    Branches { commits: Seq<SHA1> },
    Commits { commits: Seq<SHA1> },
}

/// `Step` with its answer taken by views.
pub enum StepView {
    ReadHeadCommit,
    SearchBranches,
    SearchCommits,
    Done { result: Result<SHA1, TargetErrorView> },
}

impl View for Found {
    type V = FoundView;

    open spec fn view(&self) -> FoundView {
        match self {
            Found::Nothing => FoundView::Nothing,
            Found::HeadCommit { commit } => FoundView::HeadCommit { commit: *commit },
            Found::Branches { commits } => FoundView::Branches { commits: commits@ },
            Found::Commits { commits } => FoundView::Commits { commits: commits@ },
        }
    }
}

impl View for Step {
    type V = StepView;

    open spec fn view(&self) -> StepView {
        match self {
            Step::ReadHeadCommit => StepView::ReadHeadCommit,
            Step::SearchBranches => StepView::SearchBranches,
            Step::SearchCommits => StepView::SearchCommits,
            Step::Done { result } => StepView::Done {
                result: match result {
                    Ok(c) => Ok(*c),
                    Err(e) => Err(e@),
                },
            },
        }
    }
}

/// The next step of the search for `name`, given what was found last.
pub open spec fn target_step(name: Seq<char>, found: FoundView) -> StepView {
    match found {
        FoundView::Nothing => if name == "HEAD"@ {
            StepView::ReadHeadCommit
        } else {
            StepView::SearchBranches
        },
        FoundView::HeadCommit { commit } => StepView::Done { result: Ok(commit) },
        FoundView::Branches { commits } => if commits.len() > 1 {
            StepView::Done { result: Err(TargetErrorView::AmbiguousBranch) }
        } else if commits.len() == 0 {
            StepView::SearchCommits
        } else {
            StepView::Done { result: Ok(commits[0]) }
        },
        FoundView::Commits { commits } => if commits.len() > 1 {
            StepView::Done { result: Err(TargetErrorView::AmbiguousCommit { name }) }
        } else if commits.len() == 0 {
            StepView::Done { result: Err(TargetErrorView::NotFound { name }) }
        } else {
            StepView::Done { result: Ok(commits[0]) }
        },
    }
}

/// The answer of the whole search for `name`, given what each read would give:
/// the HEAD commit, the matching branches' commits, the matching commits.
pub open spec fn target_commit(
    name: Seq<char>,
    head: SHA1,
    branches: Seq<SHA1>,
    commits: Seq<SHA1>,
) -> Result<SHA1, TargetErrorView> {
    if name == "HEAD"@ {
        Ok(head)
    } else if branches.len() > 1 {
        Err(TargetErrorView::AmbiguousBranch)
    } else if branches.len() == 1 {
        Ok(branches[0])
    } else if commits.len() > 1 {
        Err(TargetErrorView::AmbiguousCommit { name })
    } else if commits.len() == 0 {
        Err(TargetErrorView::NotFound { name })
    } else {
        Ok(commits[0])
    }
}

/// Decides the next step of the search for the commit that `branch_or_commit`
/// stands for, from what was found last.
pub fn get_target_commit(branch_or_commit: &str, found: Found) -> (r: Step)
    ensures
        r@ == target_step(branch_or_commit@, found@),
{
    match found {
        Found::Nothing => if text_eq(branch_or_commit, "HEAD") {
            Step::ReadHeadCommit
        } else {
            Step::SearchBranches
        },
        Found::HeadCommit { commit } => Step::Done { result: Ok(commit) },
        Found::Branches { commits } => if commits.len() > 1 {
            Step::Done { result: Err(TargetError::AmbiguousBranch) }
        } else if commits.len() == 0 {
            Step::SearchCommits
        } else {
            Step::Done { result: Ok(commits[0]) }
        },
        Found::Commits { commits } => if commits.len() > 1 {
            Step::Done {
                result: Err(TargetError::AmbiguousCommit { name: branch_or_commit.to_owned() }),
            }
        } else if commits.len() == 0 {
            Step::Done { result: Err(TargetError::NotFound { name: branch_or_commit.to_owned() }) }
        } else {
            Step::Done { result: Ok(commits[0]) }
        },
    }
}

/// Following the steps, each read answered from `head`, `branches` and
/// `commits`, ends within three steps with the answer of `target_commit`,
/// and never asks for a read that the original order would not make.
pub proof fn law_target_steps_reach_answer(
    name: Seq<char>,
    head: SHA1,
    branches: Seq<SHA1>,
    commits: Seq<SHA1>,
)
    ensures
        ({
            let s1 = target_step(name, FoundView::Nothing);
            match s1 {
                StepView::ReadHeadCommit => name == "HEAD"@ && target_step(
                    name,
                    FoundView::HeadCommit { commit: head },
                ) == (StepView::Done { result: target_commit(name, head, branches, commits) }),
                StepView::SearchBranches => {
                    let s2 = target_step(name, FoundView::Branches { commits: branches });
                    name != "HEAD"@ && match s2 {
                        StepView::SearchCommits => branches.len() == 0 && target_step(
                            name,
                            FoundView::Commits { commits },
                        ) == (StepView::Done {
                            result: target_commit(name, head, branches, commits),
                        }),
                        StepView::Done { result } => result == target_commit(
                            name,
                            head,
                            branches,
                            commits,
                        ),
                        _ => false,
                    }
                },
                _ => false,
            }
        }),
{
}

/// The search reads HEAD exactly for `HEAD` and branches for any other name;
/// a read HEAD commit is the answer; exactly one matching branch gives its
/// commit, two or more are ambiguous, none leads to the commit search; exactly
/// one matching commit is the answer, two or more are ambiguous and none is
/// "not found", both naming the input.
pub proof fn law_target_cases(
    name: Seq<char>,
    head: SHA1,
    c: SHA1,
    branches: Seq<SHA1>,
    commits: Seq<SHA1>,
)
    ensures
        target_step("HEAD"@, FoundView::Nothing) == StepView::ReadHeadCommit,
        name != "HEAD"@ ==> target_step(name, FoundView::Nothing) == StepView::SearchBranches,
        target_step(name, FoundView::HeadCommit { commit: head }) == (StepView::Done {
            result: Ok(head),
        }),
        target_step(name, FoundView::Branches { commits: seq![c] }) == (StepView::Done {
            result: Ok(c),
        }),
        branches.len() >= 2 ==> target_step(name, FoundView::Branches { commits: branches }) == (
        StepView::Done { result: Err(TargetErrorView::AmbiguousBranch) }),
        target_step(name, FoundView::Branches { commits: Seq::<SHA1>::empty() })
            == StepView::SearchCommits,
        target_step(name, FoundView::Commits { commits: seq![c] }) == (StepView::Done {
            result: Ok(c),
        }),
        commits.len() >= 2 ==> target_step(name, FoundView::Commits { commits }) == (
        StepView::Done { result: Err(TargetErrorView::AmbiguousCommit { name }) }),
        target_step(name, FoundView::Commits { commits: Seq::<SHA1>::empty() }) == (
        StepView::Done { result: Err(TargetErrorView::NotFound { name }) }),
{
}

/// The error texts: the fixed text for ambiguous branches, and the input
/// quoted in the texts for ambiguous or missing commits.
pub proof fn law_error_messages(name: Seq<char>)
    ensures
        error_message(TargetErrorView::AmbiguousBranch) == "Ambiguous branch name"@,
        error_message(TargetErrorView::AmbiguousCommit { name }) == "Ambiguous commit hash '"@
            + name + "'"@,
        error_message(TargetErrorView::NotFound { name }) == "No such branch or commit: '"@ + name
            + "'"@,
{
}

} // verus!
