use garden::git::GitTreeType;
use garden::git::branch;
use garden::git::branches;
use garden::git::split_lines_exec;
use garden::git::worktree_details;

#[test]
fn plain_checkout_is_a_tree() {
    // What `git worktree list --porcelain` prints for a plain `git init`
    // checkout with no linked worktrees.
    let output = "worktree /home/user/src/repo\nHEAD 1234567890abcdef1234567890abcdef12345678\nbranch refs/heads/main\n\n";
    let details = worktree_details("/home/user/src/repo", output);
    assert_eq!(details.tree_type, GitTreeType::Tree);
    assert_eq!(details.branch, "main");
}

#[test]
fn bare_repository_is_bare() {
    let output = "worktree /srv/repos/example.git\nbare\n\n";
    let details = worktree_details("/srv/repos/example.git", output);
    assert_eq!(details.tree_type, GitTreeType::Bare);
    assert_eq!(details.branch, "");
}

#[test]
fn parent_and_child_worktrees() {
    let output = "worktree /home/user/parent\nHEAD 1111111111111111111111111111111111111111\nbranch refs/heads/main\n\nworktree /home/user/child\nHEAD 2222222222222222222222222222222222222222\nbranch refs/heads/dev\n\n";
    // Querying the first-listed worktree yields the parent.
    let parent = worktree_details("/home/user/parent", output);
    assert_eq!(parent.tree_type, GitTreeType::Parent);
    assert_eq!(parent.branch, "main");
    // Querying the linked worktree yields its parent's absolute path.
    let child = worktree_details("/home/user/child", output);
    assert_eq!(
        child.tree_type,
        GitTreeType::Worktree("/home/user/parent".to_string())
    );
    assert_eq!(child.branch, "dev");
}

#[test]
fn unlisted_path_with_two_worktrees_is_a_worktree() {
    let output = "worktree /a\n\nworktree /b\n\n";
    let details = worktree_details("/c", output);
    assert_eq!(details.tree_type, GitTreeType::Worktree("/a".to_string()));
}

#[test]
fn branch_is_captured_from_the_queried_record_only() {
    let output = "worktree /a\nbranch refs/heads/main\n\nworktree /b\nbranch refs/heads/dev\n\n";
    let a = worktree_details("/a", output);
    assert_eq!(a.branch, "main");
    let b = worktree_details("/b", output);
    assert_eq!(b.branch, "dev");
}

#[test]
fn detached_head_has_no_branch_line() {
    let output = "worktree /repo\nHEAD 1234567890abcdef1234567890abcdef12345678\ndetached\n\n";
    let details = worktree_details("/repo", output);
    assert_eq!(details.tree_type, GitTreeType::Tree);
    assert_eq!(details.branch, "");
}

#[test]
fn empty_listing_classifies_as_tree() {
    let details = worktree_details("/anywhere", "");
    assert_eq!(details.tree_type, GitTreeType::Tree);
    assert_eq!(details.branch, "");
}

#[test]
fn branches_are_the_nonempty_lines() {
    let output = "main\ndev\nfeature/x\n";
    let names = branches(output);
    assert_eq!(names, vec!["main", "dev", "feature/x"]);
    let none = branches("");
    assert!(none.is_empty());
    let gaps = branches("one\n\ntwo\n");
    assert_eq!(gaps, vec!["one", "two"]);
}

#[test]
fn branch_prefers_the_symbolic_ref() {
    let r = branch(Some("main".to_string()), None);
    assert_eq!(r, Some("main".to_string()));
    // Detached head: symbolic-ref printed nothing.
    let r = branch(Some("".to_string()), Some("abc1234".to_string()));
    assert_eq!(r, Some("abc1234".to_string()));
    let r = branch(None, Some("abc1234".to_string()));
    assert_eq!(r, Some("abc1234".to_string()));
    let r = branch(Some("".to_string()), Some("".to_string()));
    assert_eq!(r, None);
    let r = branch(None, None);
    assert_eq!(r, None);
}

#[test]
fn lines_split_at_newlines_and_trim_carriage_returns() {
    let lines = split_lines_exec("a\r\nb\nc");
    assert_eq!(lines, vec!["a", "b", "c"]);
    let lines = split_lines_exec("one\n");
    assert_eq!(lines, vec!["one"]);
    let lines = split_lines_exec("\n");
    assert_eq!(lines, vec![""]);
}
