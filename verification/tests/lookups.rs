use mega::auth::ask_basic_auth;
use mega::object::SHA1;
use mega::target::{get_target_commit, Found, Step, TargetError};

fn commit(n: u8) -> SHA1 {
    SHA1([n; 20])
}

fn done(step: Step) -> Result<SHA1, TargetError> {
    match step {
        Step::Done { result } => result,
        _ => panic!("expected an answer"),
    }
}

#[test]
fn head_is_read_from_head() {
    assert!(matches!(get_target_commit("HEAD", Found::Nothing), Step::ReadHeadCommit));
    assert_eq!(done(get_target_commit("HEAD", Found::HeadCommit { commit: commit(1) })).unwrap(), commit(1));
}

#[test]
fn one_branch_gives_its_commit() {
    assert!(matches!(get_target_commit("main", Found::Nothing), Step::SearchBranches));
    let r = done(get_target_commit("main", Found::Branches { commits: vec![commit(2)] }));
    assert_eq!(r.unwrap(), commit(2));
}

#[test]
fn two_branches_are_ambiguous() {
    let r = done(get_target_commit("ma", Found::Branches { commits: vec![commit(2), commit(3)] }));
    let e = r.unwrap_err();
    assert!(matches!(e, TargetError::AmbiguousBranch));
    assert_eq!(e.message(), "Ambiguous branch name");
}

#[test]
fn no_branch_searches_commits() {
    assert!(matches!(get_target_commit("ab12", Found::Branches { commits: vec![] }), Step::SearchCommits));
    let r = done(get_target_commit("ab12", Found::Commits { commits: vec![commit(4)] }));
    assert_eq!(r.unwrap(), commit(4));
}

#[test]
fn commit_errors_name_the_input() {
    let e = done(get_target_commit("ab", Found::Commits { commits: vec![commit(4), commit(5)] })).unwrap_err();
    assert_eq!(e.message(), "Ambiguous commit hash 'ab'");
    let e = done(get_target_commit("zz", Found::Commits { commits: vec![] })).unwrap_err();
    assert_eq!(e.message(), "No such branch or commit: 'zz'");
}

#[test]
fn credentials_are_trimmed() {
    let auth = ask_basic_auth("  alice \n", "  s3cret \n", true);
    assert_eq!(auth.username, "alice");
    assert_eq!(auth.password, "s3cret");
    let auth = ask_basic_auth("bob\n", " hidden pass ", false);
    assert_eq!(auth.username, "bob");
    assert_eq!(auth.password, " hidden pass ");
}
