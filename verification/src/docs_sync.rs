//! Bringing the local docs directory in line with the docs repository's
//! `gh-pages` branch: which command fetches the branch, whether what came
//! is a docs tree, and which top-level entries are removed and copied.
use vstd::prelude::*;

use crate::error::AppError;
use crate::text::{owned, str_concat, str_eq, str_views};

verus! {

/// The branch that holds the built documentation.
pub open spec fn docs_branch() -> Seq<char> {
    "gh-pages"@
}

/// The arguments of the `git` command that fetches the tip of the docs
/// branch of `git_url` into `dest`.
pub fn git_clone_args(git_url: &str, dest: &str) -> (r: Vec<String>)
    ensures
        str_views(r@) == seq![
            "clone"@,
            "--depth"@,
            "1"@,
            "--branch"@,
            docs_branch(),
            git_url@,
            dest@,
        ],
{
    let mut v: Vec<String> = Vec::new();
    v.push(String::from_str("clone"));
    v.push(String::from_str("--depth"));
    v.push(String::from_str("1"));
    v.push(String::from_str("--branch"));
    v.push(String::from_str("gh-pages"));
    v.push(owned(git_url));
    v.push(owned(dest));
    assert(str_views(v@) =~= seq![
        "clone"@,
        "--depth"@,
        "1"@,
        "--branch"@,
        docs_branch(),
        git_url@,
        dest@,
    ]);
    v
}

/// The error for a `git` command that ran and failed, with what it printed.
pub fn git_clone_failed(stderr: &str) -> (r: AppError)
    ensures
        r matches AppError::External(m) && m@ == "git clone failed: "@ + stderr@,
{
    AppError::External(str_concat("git clone failed: ", stderr))
}

/// A branch root holds a docs tree: a versions manifest or a language directory.
pub open spec fn branch_has_docs(entries: Seq<Seq<char>>) -> bool {
    entries.contains("versions.json"@) || entries.contains("en"@) || entries.contains("zh"@)
}

/// The message for a branch whose root holds no docs tree.
pub open spec fn no_docs_message(git_url: Seq<char>) -> Seq<char> {
    "gh-pages branch of "@ + git_url + " contains neither versions.json nor language directories"@
}

/// Whether `name` is one of `names`.
fn listed(names: &Vec<String>, name: &str) -> (r: bool)
    ensures
        r == str_views(names@).contains(name@),
{
    let ghost nv = str_views(names@);
    let mut i: usize = 0;
    while i < names.len()
        invariant
            i <= names.len(),
            nv == str_views(names@),
            forall|k: int| 0 <= k < i ==> nv[k] != name@,
        decreases names.len() - i,
    {
        if str_eq(names[i].as_str(), name) {
            assert(nv[i as int] == name@);
            return true;
        }
        i = i + 1;
    }
    false
}

/// Checks, before the local copy is touched, that the fetched branch root
/// (its top-level entry names) holds a docs tree.
pub fn check_branch_root(git_url: &str, entries: &Vec<String>) -> (r: Result<(), AppError>)
    ensures
        branch_has_docs(str_views(entries@)) ==> r is Ok,
        !branch_has_docs(str_views(entries@)) ==> (r matches Err(AppError::External(m)) && m@
            == no_docs_message(git_url@)),
{
    if listed(entries, "versions.json") || listed(entries, "en") || listed(entries, "zh") {
        Ok(())
    } else {
        let mut m = str_concat("gh-pages branch of ", git_url);
        m.append(" contains neither versions.json nor language directories");
        Err(AppError::External(m))
    }
}

/// The entries of `s` that are not among `excluded`, in their order.
pub open spec fn without(s: Seq<Seq<char>>, excluded: Seq<Seq<char>>) -> Seq<Seq<char>>
    decreases s.len(),
{
    if s.len() == 0 {
        Seq::empty()
    } else if excluded.contains(s.last()) {
        without(s.drop_last(), excluded)
    } else {
        without(s.drop_last(), excluded).push(s.last())
    }
}

proof fn lemma_without_contains(s: Seq<Seq<char>>, excluded: Seq<Seq<char>>, x: Seq<char>)
    ensures
        without(s, excluded).contains(x) == (s.contains(x) && !excluded.contains(x)),
    decreases s.len(),
{
    if s.len() > 0 {
        lemma_without_contains(s.drop_last(), excluded, x);
        assert(s =~= s.drop_last().push(s.last()));
        if s.drop_last().contains(x) {
            let j = choose|j: int| 0 <= j < s.drop_last().len() && s.drop_last()[j] == x;
            assert(s[j] == x);
        }
        if s.contains(x) && s.last() != x {
            let j = choose|j: int| 0 <= j < s.len() && s[j] == x;
            assert(s.drop_last()[j] == x);
        }
        let w = without(s.drop_last(), excluded);
        if !excluded.contains(s.last()) {
            if w.push(s.last()).contains(x) && s.last() != x {
                let j = choose|j: int| 0 <= j < w.push(s.last()).len() && w.push(s.last())[j] == x;
                assert(w[j] == x);
            }
            if w.contains(x) {
                let j = choose|j: int| 0 <= j < w.len() && w[j] == x;
                assert(w.push(s.last())[j] == x);
            }
            assert(w.push(s.last())[w.len() as int] == s.last());
        }
    }
}

/// The entries of `s` that are not among `excluded`.
fn entries_without(s: &Vec<String>, excluded: &Vec<String>) -> (r: Vec<String>)
    ensures
        str_views(r@) == without(str_views(s@), str_views(excluded@)),
{
    let ghost sv = str_views(s@);
    let ghost ev = str_views(excluded@);
    let mut r: Vec<String> = Vec::new();
    let mut i: usize = 0;
    assert(sv.take(0) =~= Seq::<Seq<char>>::empty());
    while i < s.len()
        invariant
            i <= s.len(),
            sv == str_views(s@),
            ev == str_views(excluded@),
            str_views(r@) == without(sv.take(i as int), ev),
        decreases s.len() - i,
    {
        assert(sv.take(i + 1).drop_last() =~= sv.take(i as int));
        assert(sv.take(i + 1).last() == sv[i as int]);
        if !listed(excluded, s[i].as_str()) {
            let ghost before = r@;
            r.push(s[i].clone());
            assert(str_views(r@) =~= str_views(before).push(sv[i as int]));
        }
        i = i + 1;
    }
    assert(sv.take(i as int) =~= sv);
    r
}

/// The local top-level entries that the branch no longer has; they are removed.
pub fn stale_entries(local: &Vec<String>, branch: &Vec<String>) -> (r: Vec<String>)
    ensures
        str_views(r@) == without(str_views(local@), str_views(branch@)),
{
    entries_without(local, branch)
}

/// The branch's top-level entries copied into the local directory, replacing
/// same-named ones: all but the repository's own `.git`.
pub fn copied_entries(branch: &Vec<String>) -> (r: Vec<String>)
    ensures
        str_views(r@) == without(str_views(branch@), seq![".git"@]),
{
    let mut git: Vec<String> = Vec::new();
    git.push(String::from_str(".git"));
    assert(str_views(git@) =~= seq![".git"@]);
    entries_without(branch, &git)
}

/// After the stale entries are removed and the branch's entries copied, the
/// local directory holds exactly the branch's top-level entries, `.git`
/// aside (a local `.git` is left as it is).
pub proof fn law_local_tree_mirrors_branch(
    local: Seq<Seq<char>>,
    branch: Seq<Seq<char>>,
    name: Seq<char>,
)
    requires
        name != ".git"@,
    ensures
        ((local.contains(name) && !without(local, branch).contains(name)) || without(
            branch,
            seq![".git"@],
        ).contains(name)) == branch.contains(name),
{
    lemma_without_contains(local, branch, name);
    lemma_without_contains(branch, seq![".git"@], name);
    if seq![".git"@].contains(name) {
        assert(seq![".git"@][0] == ".git"@);
    }
}

} // verus!
