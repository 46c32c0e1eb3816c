use oak_website_backend::docs_sync::{
    check_branch_root, copied_entries, git_clone_args, git_clone_failed, stale_entries,
};
use oak_website_backend::error::AppError;

fn names(xs: &[&str]) -> Vec<String> {
    xs.iter().map(|x| x.to_string()).collect()
}

#[test]
fn clone_fetches_tip_of_docs_branch() {
    assert_eq!(
        git_clone_args("https://example.com/docs.git", "/tmp/x"),
        names(&["clone", "--depth", "1", "--branch", "gh-pages", "https://example.com/docs.git", "/tmp/x"])
    );
    assert_eq!(
        git_clone_failed("fatal: Remote branch gh-pages not found"),
        AppError::External("git clone failed: fatal: Remote branch gh-pages not found".to_string())
    );
}

#[test]
fn branch_root_must_hold_docs() {
    assert_eq!(check_branch_root("u", &names(&[".git", "versions.json", "0.1.0"])), Ok(()));
    assert_eq!(check_branch_root("u", &names(&[".git", "en"])), Ok(()));
    assert_eq!(check_branch_root("u", &names(&["zh"])), Ok(()));
    assert_eq!(
        check_branch_root("https://example.com/docs.git", &names(&[".git", "README.md"])),
        Err(AppError::External(
            "gh-pages branch of https://example.com/docs.git contains neither versions.json nor language directories"
                .to_string()
        ))
    );
}

#[test]
fn local_directory_follows_branch_root() {
    let local = names(&["stale.html", "en", "versions.json", ".git"]);
    let branch = names(&[".git", "versions.json", "0.2.0", "0.1.0"]);
    assert_eq!(stale_entries(&local, &branch), names(&["stale.html", "en"]));
    assert_eq!(copied_entries(&branch), names(&["versions.json", "0.2.0", "0.1.0"]));
    assert!(stale_entries(&names(&[]), &branch).is_empty());
}
