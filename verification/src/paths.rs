//! Path handling for the per-project directory trees.
//!
//! Paths are plain strings whose components are separated by `'/'`.  Every
//! project owns one directory under a single configured projects root; the
//! directory holds the three fixed subdirectories `documents`,
//! `deliverables` and `works`.

use vstd::prelude::*;

verus! {

/// `root` and `name` joined with a single separator.
pub open spec fn joined_path(root: Seq<char>, name: Seq<char>) -> Seq<char> {
    root + seq!['/'] + name
}

/// The characters after the last separator: the leaf name of the path.
pub open spec fn path_leaf(p: Seq<char>) -> Seq<char>
    decreases p.len(),
{
    if p.len() == 0 {
        Seq::empty()
    } else if p.last() == '/' {
        Seq::empty()
    } else {
        path_leaf(p.drop_last()).push(p.last())
    }
}

/// The characters before the last separator: the parent of the path, empty
/// when the path has no separator.
pub open spec fn path_parent(p: Seq<char>) -> Seq<char>
    decreases p.len(),
{
    if p.len() == 0 {
        Seq::empty()
    } else if p.last() == '/' {
        p.drop_last()
    } else {
        path_parent(p.drop_last())
    }
}

proof fn lemma_split_at_last_separator(p: Seq<char>, j: int)
    requires
        0 <= j <= p.len(),
        forall|k: int| j <= k < p.len() ==> p[k] != '/',
        j > 0 ==> p[j - 1] == '/',
    ensures
        path_leaf(p) == p.subrange(j, p.len() as int),
        path_parent(p) == p.subrange(0, if j > 0 { j - 1 } else { 0 }),
    decreases p.len(),
{
    if p.len() == 0 {
        assert(path_leaf(p) =~= p.subrange(0, 0));
        assert(path_parent(p) =~= p.subrange(0, 0));
    } else if j == p.len() {
        assert(p.last() == p[j - 1]);
        assert(p.last() == '/');
        assert(path_leaf(p) =~= p.subrange(j, p.len() as int));
        assert(path_parent(p) =~= p.drop_last());
        assert(p.drop_last() =~= p.subrange(0, j - 1));
    } else {
        let t = p.drop_last();
        assert(p.last() != '/');
        lemma_split_at_last_separator(t, j);
        assert(path_leaf(p) == path_leaf(t).push(p.last()));
        assert(path_leaf(t) == t.subrange(j, t.len() as int));
        assert(path_leaf(t).push(p.last()) =~= p.subrange(j, p.len() as int));
        assert(path_parent(p) == path_parent(t));
        assert(t.subrange(0, if j > 0 { j - 1 } else { 0 }) =~= p.subrange(
            0,
            if j > 0 { j - 1 } else { 0 },
        ));
    }
}

/// Joining a separator-free name under a root and taking the leaf gives the
/// name back.
pub proof fn lemma_leaf_of_joined(root: Seq<char>, name: Seq<char>)
    requires
        forall|i: int| 0 <= i < name.len() ==> name[i] != '/',
    ensures
        path_leaf(joined_path(root, name)) == name,
        path_parent(joined_path(root, name)) == root,
{
    let p = joined_path(root, name);
    let j = root.len() as int + 1;
    assert(p[j - 1] == '/');
    assert(forall|k: int| j <= k < p.len() ==> p[k] == name[k - j]);
    lemma_split_at_last_separator(p, j);
    assert(p.subrange(j, p.len() as int) =~= name);
    assert(p.subrange(0, j - 1) =~= root);
}

/// The directory of one project: the projects root and the project's folder
/// name joined with a separator.
pub fn get_project_directory_path(projects_root: &str, suffix: &str) -> (r: String)
    ensures
        r@ == joined_path(projects_root@, suffix@),
{
    let mut s = String::from_str(projects_root);
    s.append("/");
    s.append(suffix);
    proof {
        reveal_strlit("/");
        assert("/"@ =~= seq!['/']);
        assert(s@ =~= joined_path(projects_root@, suffix@));
    }
    s
}

/// The leaf name of a path, as a fresh string.
pub fn path_leaf_of(p: &str) -> (r: String)
    ensures
        r@ == path_leaf(p@),
{
    let n = p.unicode_len();
    let mut j: usize = n;
    while j > 0 && p.get_char(j - 1) != '/'
        invariant
            n == p@.len(),
            0 <= j <= n,
            forall|k: int| j <= k < n ==> p@[k] != '/',
        decreases j,
    {
        j = j - 1;
    }
    proof {
        lemma_split_at_last_separator(p@, j as int);
    }
    let leaf = p.substring_char(j, n);
    String::from_str(leaf)
}

/// The path standing beside `path` under the same parent, carrying
/// `new_name` as its leaf.
pub fn sibling_path(path: &str, new_name: &str) -> (r: String)
    ensures
        r@ == joined_path(path_parent(path@), new_name@),
{
    let n = path.unicode_len();
    let mut j: usize = n;
    while j > 0 && path.get_char(j - 1) != '/'
        invariant
            n == path@.len(),
            0 <= j <= n,
            forall|k: int| j <= k < n ==> path@[k] != '/',
        decreases j,
    {
        j = j - 1;
    }
    proof {
        lemma_split_at_last_separator(path@, j as int);
    }
    let parent = path.substring_char(0, if j > 0 { j - 1 } else { 0 });
    get_project_directory_path(parent, new_name)
}

/// The three fixed subdirectories of one project's directory, in the order
/// they are created: `documents`, `deliverables`, `works`.
pub fn project_tree_paths(project_directory_path: &str) -> (r: Vec<String>)
    ensures
        r@.len() == 3,
        r@[0]@ == joined_path(project_directory_path@, "documents"@),
        r@[1]@ == joined_path(project_directory_path@, "deliverables"@),
        r@[2]@ == joined_path(project_directory_path@, "works"@),
{
    let mut v: Vec<String> = Vec::new();
    v.push(get_project_directory_path(project_directory_path, "documents"));
    v.push(get_project_directory_path(project_directory_path, "deliverables"));
    v.push(get_project_directory_path(project_directory_path, "works"));
    v
}

} // verus!
