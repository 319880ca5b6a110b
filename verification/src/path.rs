//! Paths as text, in Unix syntax: components separated by `/`.
//!
//! Splitting a path into its directory and its last component is left to `std::path`; what
//! it answers is known here only by name. Joining and the naming rule of working trees are
//! this crate's own and are proved.

use vstd::prelude::*;

verus! {

/// What `std::path::Path::parent` answers for the path `path`.
pub uninterp spec fn path_parent(path: Seq<char>) -> Option<Seq<char>>;

/// What `std::path::Path::file_name` answers for the path `path`.
pub uninterp spec fn path_file_name(path: Seq<char>) -> Option<Seq<char>>;

/// A name that is one path component: not empty and without a separator.
pub open spec fn is_plain_name(name: Seq<char>) -> bool {
    name.len() > 0 && forall|i: int| 0 <= i < name.len() ==> name[i] != '/'
}

/// Calls `std::path::Path::parent` on `path` and hands back the directory as text.
///
/// Believed, not proved: the answer is the one named [`path_parent`]. The path given is valid
/// UTF-8, and so is every prefix that `parent` may cut from it, so the lossy conversion
/// changes nothing.
#[verifier::external_body]
pub(crate) fn parent_of(path: &str) -> (r: Option<String>)
    ensures
        r.deep_view() == path_parent(path@),
{
    match std::path::Path::new(path).parent() {
        Some(dir) => Some(dir.to_string_lossy().into_owned()),
        None => None,
    }
}

/// Calls `std::path::Path::file_name` on `path` and hands back the last component as text.
///
/// Believed, not proved: the answer is the one named [`path_file_name`], and where there is
/// one it is a single component of the path, so it is not empty and holds no separator.
#[verifier::external_body]
pub(crate) fn file_name_of(path: &str) -> (r: Option<String>)
    ensures
        r.deep_view() == path_file_name(path@),
        r matches Some(name) ==> is_plain_name(name@),
{
    match std::path::Path::new(path).file_name() {
        Some(name) => Some(name.to_string_lossy().into_owned()),
        None => None,
    }
}

/// Calls `String::push`: appends one character.
#[verifier::external_body]
pub(crate) fn push_char(text: &mut String, c: char)
    ensures
        final(text)@ == old(text)@.push(c),
{
    text.push(c);
}

/// `dir` with a separator at its end, unless it is empty or has one already.
pub open spec fn as_prefix(dir: Seq<char>) -> Seq<char> {
    if dir.len() == 0 || dir.last() == '/' {
        dir
    } else {
        dir.push('/')
    }
}

/// The path `rel` seen from the directory `dir`: `rel` itself where it is absolute, else
/// `dir`, a separator where one is needed, and `rel`.
pub open spec fn join_path(dir: Seq<char>, rel: Seq<char>) -> Seq<char> {
    if rel.len() > 0 && rel[0] == '/' {
        rel
    } else {
        as_prefix(dir) + rel
    }
}

/// The path `rel` seen from the directory `dir`.
pub fn join(dir: &str, rel: &str) -> (r: String)
    ensures
        r@ == join_path(dir@, rel@),
{
    let rel_len = rel.unicode_len();
    if rel_len > 0 && rel.get_char(0) == '/' {
        return String::from_str(rel);
    }
    let mut joined = String::from_str(dir);
    let dir_len = dir.unicode_len();
    if dir_len > 0 && dir.get_char(dir_len - 1) != '/' {
        push_char(&mut joined, '/');
    }
    joined.append(rel);
    joined
}

/// A branch name made fit for a directory name: every `/` replaced by `-`.
pub open spec fn sanitize_branch(branch: Seq<char>) -> Seq<char> {
    Seq::new(
        branch.len(),
        |i: int|
            if branch[i] == '/' {
                '-'
            } else {
                branch[i]
            },
    )
}

/// Replaces every `/` of the branch name by `-`.
pub fn sanitized_branch(branch: &str) -> (r: String)
    ensures
        r@ == sanitize_branch(branch@),
{
    let n = branch.unicode_len();
    let mut out = String::new();
    let mut i: usize = 0;
    while i < n
        invariant
            i <= n,
            n == branch@.len(),
            out@ == sanitize_branch(branch@).take(i as int),
        decreases n - i,
    {
        let c = branch.get_char(i);
        if c == '/' {
            push_char(&mut out, '-');
        } else {
            push_char(&mut out, c);
        }
        assert(out@ =~= sanitize_branch(branch@).take(i + 1));
        i += 1;
    }
    assert(out@ =~= sanitize_branch(branch@));
    out
}

/// The directory that working trees of a repository are put in: the parent of the
/// repository's path, and the path itself where it has no parent.
pub open spec fn dir_or_self(parent: Option<Seq<char>>, repo_path: Seq<char>) -> Seq<char> {
    match parent {
        Some(dir) => dir,
        None => repo_path,
    }
}

/// The name that working trees of a repository go by: the last component of the
/// repository's path, and `repo` where it has none.
pub open spec fn name_or_repo(name: Option<Seq<char>>) -> Seq<char> {
    match name {
        Some(name) => name,
        None => seq!['r', 'e', 'p', 'o'],
    }
}

/// The place beside a repository for its working tree of `branch`, where `parent` and
/// `name` are the parent and the last component of the repository's path `repo_path`: in the
/// parent, named by the name, `-`, and the sanitized branch.
pub open spec fn sibling_place(
    parent: Option<Seq<char>>,
    name: Option<Seq<char>>,
    repo_path: Seq<char>,
    branch: Seq<char>,
) -> Seq<char> {
    join_path(
        dir_or_self(parent, repo_path),
        name_or_repo(name).push('-') + sanitize_branch(branch),
    )
}

/// Puts together the place beside a repository for its working tree of `branch`, from the
/// parent and the last component of the repository's path `repo_path`.
pub fn sibling_path(
    parent: Option<String>,
    name: Option<String>,
    repo_path: &str,
    branch: &str,
) -> (r: String)
    ensures
        r@ == sibling_place(parent.deep_view(), name.deep_view(), repo_path@, branch@),
{
    let dir = match parent {
        Some(dir) => dir,
        None => String::from_str(repo_path),
    };
    let mut name = match name {
        Some(name) => name,
        None => {
            proof {
                reveal_strlit("repo");
            }
            assert("repo"@ =~= seq!['r', 'e', 'p', 'o']);
            String::from_str("repo")
        },
    };
    push_char(&mut name, '-');
    name.append(sanitized_branch(branch).as_str());
    join(dir.as_str(), name.as_str())
}

/// The temporary place beside a directory, where `parent` and `name` are the parent and the
/// last component of the directory's path `dir_path`: the name with `-migrating` behind it, in
/// the parent; and `-migrating` below the path itself where it has no name.
pub open spec fn migrating_place(
    parent: Option<Seq<char>>,
    name: Option<Seq<char>>,
    dir_path: Seq<char>,
) -> Seq<char> {
    match name {
        Some(name) => join_path(
            match parent {
                Some(dir) => dir,
                None => Seq::empty(),
            },
            name + "-migrating"@,
        ),
        None => join_path(dir_path, "-migrating"@),
    }
}

/// Puts together the temporary place beside a directory, from the parent and the last
/// component of the directory's path `dir_path`.
pub fn migrating_sibling(parent: Option<String>, name: Option<String>, dir_path: &str) -> (r:
    String)
    ensures
        r@ == migrating_place(parent.deep_view(), name.deep_view(), dir_path@),
{
    match name {
        Some(name) => {
            let dir = match parent {
                Some(dir) => dir,
                None => String::new(),
            };
            join(dir.as_str(), name.concat("-migrating").as_str())
        },
        None => join(dir_path, "-migrating"),
    }
}

/// The directory in which the repository at `repo_path` lies, and the path itself where it
/// has no parent.
pub open spec fn repo_dir(repo_path: Seq<char>) -> Seq<char> {
    dir_or_self(path_parent(repo_path), repo_path)
}

/// The name of the repository at `repo_path`: its last component, and `repo` where it has
/// none.
pub open spec fn repo_dir_name(repo_path: Seq<char>) -> Seq<char> {
    name_or_repo(path_file_name(repo_path))
}

/// The name of the working tree's directory: the repository's name, `-`, and the sanitized
/// branch.
pub open spec fn worktree_dir_name(repo_path: Seq<char>, branch: Seq<char>) -> Seq<char> {
    repo_dir_name(repo_path).push('-') + sanitize_branch(branch)
}

/// Where the working tree of `branch` for the repository at `repo_path` lies: beside the
/// repository.
pub open spec fn worktree_path(repo_path: Seq<char>, branch: Seq<char>) -> Seq<char> {
    sibling_place(path_parent(repo_path), path_file_name(repo_path), repo_path, branch)
}

/// Where `name` is a single component, joining it to a directory puts it behind the last
/// separator of the result.
pub proof fn lemma_join_splits(dir: Seq<char>, name: Seq<char>)
    requires
        is_plain_name(name),
    ensures
        join_path(dir, name) == as_prefix(dir) + name,
        join_path(dir, name).len() == as_prefix(dir).len() + name.len(),
        as_prefix(dir).len() > 0 ==> as_prefix(dir).last() == '/',
{
}

/// Two single components joined to two directories give one path only where the components
/// are equal and the directories are equal up to a separator at their end.
pub proof fn lemma_join_injective(
    dir1: Seq<char>,
    name1: Seq<char>,
    dir2: Seq<char>,
    name2: Seq<char>,
)
    requires
        is_plain_name(name1),
        is_plain_name(name2),
        join_path(dir1, name1) == join_path(dir2, name2),
    ensures
        name1 == name2,
        as_prefix(dir1) == as_prefix(dir2),
{
    let p1 = as_prefix(dir1);
    let p2 = as_prefix(dir2);
    let joined = join_path(dir1, name1);
    lemma_join_splits(dir1, name1);
    lemma_join_splits(dir2, name2);
    if p1.len() < p2.len() {
        // the separator that ends p2 would lie inside name1
        assert(joined[p2.len() - 1] == p2[p2.len() - 1]);
        assert(joined[p2.len() - 1] == name1[p2.len() - 1 - p1.len()]);
    } else if p2.len() < p1.len() {
        assert(joined[p1.len() - 1] == p1[p1.len() - 1]);
        assert(joined[p1.len() - 1] == name2[p1.len() - 1 - p2.len()]);
    } else {
        assert(p1 =~= joined.take(p1.len() as int));
        assert(p2 =~= joined.take(p1.len() as int));
        assert(name1 =~= joined.skip(p1.len() as int));
        assert(name2 =~= joined.skip(p1.len() as int));
    }
}

/// For one repository, two branches get the same place exactly where their sanitized names
/// are equal.
pub proof fn lemma_path_tells_branches_apart(
    repo_path: Seq<char>,
    branch1: Seq<char>,
    branch2: Seq<char>,
)
    ensures
        worktree_path(repo_path, branch1) == worktree_path(repo_path, branch2)
            <==> sanitize_branch(branch1) == sanitize_branch(branch2),
{
    let head = repo_dir_name(repo_path).push('-');
    let rel1 = worktree_dir_name(repo_path, branch1);
    let rel2 = worktree_dir_name(repo_path, branch2);
    let dir = as_prefix(repo_dir(repo_path));
    if worktree_path(repo_path, branch1) == worktree_path(repo_path, branch2) {
        assert(rel1[0] == head[0] && rel2[0] == head[0]);
        assert(rel1 =~= rel2) by {
            if rel1[0] != '/' {
                assert(rel1 =~= (dir + rel1).skip(dir.len() as int));
                assert(rel2 =~= (dir + rel2).skip(dir.len() as int));
            }
        }
        assert(sanitize_branch(branch1) =~= rel1.skip(head.len() as int));
        assert(sanitize_branch(branch2) =~= rel2.skip(head.len() as int));
    }
}

/// For one branch, two repositories get the same place only where they have the same name
/// and lie in the same directory.
///
/// The names are taken to be single path components, as `compute_worktree_path` finds them.
/// Directories written with and without a separator at their end count as the same.
pub proof fn lemma_path_tells_repositories_apart(
    repo_path1: Seq<char>,
    repo_path2: Seq<char>,
    branch: Seq<char>,
)
    requires
        is_plain_name(repo_dir_name(repo_path1)),
        is_plain_name(repo_dir_name(repo_path2)),
        worktree_path(repo_path1, branch) == worktree_path(repo_path2, branch),
    ensures
        repo_dir_name(repo_path1) == repo_dir_name(repo_path2),
        as_prefix(repo_dir(repo_path1)) == as_prefix(repo_dir(repo_path2)),
{
    let name1 = repo_dir_name(repo_path1);
    let name2 = repo_dir_name(repo_path2);
    let tail = seq!['-'] + sanitize_branch(branch);
    let rel1 = worktree_dir_name(repo_path1, branch);
    let rel2 = worktree_dir_name(repo_path2, branch);
    assert(rel1 =~= name1 + tail);
    assert(rel2 =~= name2 + tail);
    assert(is_plain_name(rel1));
    assert(is_plain_name(rel2));
    lemma_join_injective(repo_dir(repo_path1), rel1, repo_dir(repo_path2), rel2);
    assert(name1.len() == name2.len());
    assert(name1 =~= rel1.take(name1.len() as int));
    assert(name2 =~= rel2.take(name1.len() as int));
}

} // verus!
