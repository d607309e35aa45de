//! Resolving arbitrarily-cased paths against a snapshot of a directory tree.
use vstd::prelude::*;
use crate::text::{join_segments, join_with_slash, lower_of, lowercase};

verus! {

/// One node of a directory snapshot: a file or a folder with its children.
#[derive(Debug)]
pub struct FileStructureSegment {
    pub segment: String,
    pub is_file: bool,
    pub children: Option<Vec<FileStructureSegment>>,
}

/// The children of a node as a sequence; a node without children has none.
pub open spec fn child_nodes(node: FileStructureSegment) -> Seq<FileStructureSegment> {
    match node.children {
        Some(v) => v@,
        None => Seq::empty(),
    }
}

/// One node's share of a resolution, with the case folding already done:
/// `first_lower` and `own_lower` are the folded first segment of the path and
/// the folded segment of the node, `remaining` the number of path segments,
/// `child` what the first resolving child gave, and `rest_lower` the folded
/// remainder of the path. No match when the folded segments differ; the
/// node's own casing for a last segment; then the child's result, or else the
/// folded remainder, after the node's segment.
pub open spec fn node_step(
    segment: Seq<char>,
    first_lower: Seq<char>,
    own_lower: Seq<char>,
    remaining: nat,
    child: Option<Seq<char>>,
    rest_lower: Seq<char>,
) -> Option<Seq<char>> {
    if first_lower != own_lower {
        None
    } else if remaining <= 1 {
        Some(segment)
    } else {
        match child {
            Some(r) => Some(segment + seq!['/'] + r),
            None => Some(segment + seq!['/'] + rest_lower),
        }
    }
}

/// Resolution of `path` against the subtree at `node`: `None` when the first
/// segment does not fold-match the node; the node's own casing for the matched
/// part; the remainder lower-cased when no child continues the match.
pub open spec fn fold_path(node: FileStructureSegment, path: Seq<Seq<char>>) -> Option<Seq<char>>
    decreases node, 0nat,
{
    if path.len() == 0 {
        None
    } else {
        let rest = path.drop_first();
        let child = match node.children {
            Some(v) => fold_first(v@, rest, 0),
            None => None,
        };
        node_step(
            node.segment@,
            lower_of(path[0]),
            lower_of(node.segment@),
            path.len(),
            child,
            lower_of(join_segments(rest)),
        )
    }
}

/// Applies one node's share of a resolution to values already case-folded.
pub fn fold_segment(
    segment: &String,
    first_lower: &String,
    own_lower: &String,
    remaining: usize,
    child: Option<String>,
    rest_lower: &String,
) -> (r: Option<String>)
    ensures
        opt_view(r) == node_step(segment@, first_lower@, own_lower@, remaining as nat, opt_view(child), rest_lower@),
{
    proof {
        reveal_strlit("/");
    }
    if *first_lower != *own_lower {
        return None;
    }
    if remaining <= 1 {
        return Some(segment.clone());
    }
    let mut r = segment.clone();
    r.append("/");
    match child {
        Some(c) => r.append(c.as_str()),
        None => r.append(rest_lower.as_str()),
    }
    Some(r)
}

/// The first resolution among `nodes[i..]`, trying them in order.
pub open spec fn fold_first(nodes: Seq<FileStructureSegment>, path: Seq<Seq<char>>, i: int) -> Option<Seq<char>>
    decreases nodes, nodes.len() - i,
{
    if i < 0 || i >= nodes.len() {
        None
    } else {
        match fold_path(nodes[i], path) {
            Some(r) => Some(r),
            None => fold_first(nodes, path, i + 1),
        }
    }
}

pub open spec fn opt_view(o: Option<String>) -> Option<Seq<char>> {
    match o {
        Some(s) => Some(s@),
        None => None,
    }
}

impl FileStructureSegment {
    pub fn new(segment: String, is_file: bool, children: Option<Vec<FileStructureSegment>>) -> (r: Self)
        ensures
            r.segment == segment,
            r.is_file == is_file,
            r.children == children,
    {
        FileStructureSegment { segment, is_file, children }
    }

    pub fn get_segment(&self) -> (r: String)
        ensures
            r@ == self.segment@,
    {
        self.segment.clone()
    }

    /// Resolves `vec_path` against this node, with this node as the first
    /// segment. An empty path names no node, so it resolves to `None`.
    pub fn case_fold_path(&self, vec_path: Vec<String>) -> (r: Option<String>)
        ensures
            opt_view(r) == fold_path(*self, vec_path.deep_view()),
        decreases *self, 0nat,
    {
        let ghost path = vec_path.deep_view();
        if vec_path.len() == 0 {
            return None;
        }
        let first_item = lowercase(vec_path[0].as_str());
        let own = lowercase(self.segment.as_str());
        assert(path[0] == vec_path@[0]@);
        let none = String::new();
        if first_item != own || vec_path.len() == 1 {
            return fold_segment(&self.segment, &first_item, &own, vec_path.len(), None, &none);
        }
        let rest: Vec<String> = slice_tail(&vec_path);
        assert(rest.deep_view() =~= path.drop_first());
        if let Some(children) = &self.children {
            assert(decreases_to!(*self => children@));
            let found = case_fold_first(children, &rest);
            if found.is_some() {
                return fold_segment(&self.segment, &first_item, &own, vec_path.len(), found, &none);
            }
        }
        let joined = join_with_slash(rest.as_slice());
        assert(rest@.map_values(|s: String| s@) =~= rest.deep_view());
        let folded = lowercase(joined.as_str());
        fold_segment(&self.segment, &first_item, &own, vec_path.len(), None, &folded)
    }
}

/// The path without its first segment.
fn slice_tail(v: &Vec<String>) -> (r: Vec<String>)
    requires
        v.len() >= 1,
    ensures
        r@ == v@.drop_first(),
{
    let mut r: Vec<String> = Vec::new();
    let mut i: usize = 1;
    while i < v.len()
        invariant
            1 <= i <= v.len(),
            r@ == v@.subrange(1, i as int),
        decreases v.len() - i,
    {
        r.push(v[i].clone());
        assert(r@ =~= v@.subrange(1, i + 1));
        i = i + 1;
    }
    assert(r@ =~= v@.drop_first());
    r
}

/// Tries each node in order and returns the first resolution.
fn case_fold_first(nodes: &Vec<FileStructureSegment>, path: &Vec<String>) -> (r: Option<String>)
    ensures
        opt_view(r) == fold_first(nodes@, path.deep_view(), 0),
    decreases nodes@, 1nat,
{
    let mut i: usize = 0;
    while i < nodes.len()
        invariant
            i <= nodes.len(),
            fold_first(nodes@, path.deep_view(), 0) == fold_first(nodes@, path.deep_view(), i as int),
        decreases nodes.len() - i,
    {
        assert(decreases_to!(nodes@ => nodes@[i as int]));
        let p = path.clone();
        assert(p.deep_view() =~= path.deep_view());
        let found = nodes[i].case_fold_path(p);
        if found.is_some() {
            return found;
        }
        i = i + 1;
    }
    None
}

/// Resolves `path` against the roots of a snapshot, trying each root in order.
pub fn case_fold_path_in_roots(roots: &Vec<FileStructureSegment>, path: Vec<String>) -> (r: Option<String>)
    ensures
        opt_view(r) == fold_first(roots@, path.deep_view(), 0),
{
    case_fold_first(roots, &path)
}

/// No two of `nodes` fold to the same segment, and the same holds below each.
pub open spec fn forest_folds_distinct(nodes: Seq<FileStructureSegment>) -> bool
    decreases nodes, 1nat,
{
    &&& forall|i: int, j: int|
        0 <= i < nodes.len() && 0 <= j < nodes.len() && i != j ==> lower_of(
            #[trigger] nodes[i].segment@,
        ) != lower_of(#[trigger] nodes[j].segment@)
    &&& forall|i: int| 0 <= i < nodes.len() ==> folds_distinct(#[trigger] nodes[i])
}

/// Siblings never fold to the same segment anywhere in the subtree at `node`.
pub open spec fn folds_distinct(node: FileStructureSegment) -> bool
    decreases node, 0nat,
{
    match node.children {
        Some(v) => forest_folds_distinct(v@),
        None => true,
    }
}

/// `path` names, with the exact casing of the snapshot, a node reached from `node`.
pub open spec fn is_tree_path(node: FileStructureSegment, path: Seq<Seq<char>>) -> bool
    decreases node, 0nat,
{
    &&& path.len() >= 1
    &&& path[0] == node.segment@
    &&& (path.len() == 1 || match node.children {
        Some(v) => is_forest_path(v@, path.drop_first()),
        None => false,
    })
}

/// `path` is a path of the snapshot that starts at one of `nodes`.
pub open spec fn is_forest_path(nodes: Seq<FileStructureSegment>, path: Seq<Seq<char>>) -> bool
    decreases nodes, 1nat,
{
    exists|j: int| 0 <= j < nodes.len() && is_tree_path(#[trigger] nodes[j], path)
}

proof fn lemma_fold_first_skips(nodes: Seq<FileStructureSegment>, path: Seq<Seq<char>>, i: int, j: int)
    requires
        0 <= i <= j <= nodes.len(),
        forall|k: int| i <= k < j ==> fold_path(#[trigger] nodes[k], path) is None,
    ensures
        fold_first(nodes, path, i) == fold_first(nodes, path, j),
    decreases j - i,
{
    if i < j {
        lemma_fold_first_skips(nodes, path, i + 1, j);
    }
}

proof fn lemma_fold_first_none(nodes: Seq<FileStructureSegment>, path: Seq<Seq<char>>)
    requires
        forall|k: int| 0 <= k < nodes.len() ==> fold_path(#[trigger] nodes[k], path) is None,
    ensures
        fold_first(nodes, path, 0) is None,
{
    lemma_fold_first_skips(nodes, path, 0, nodes.len() as int);
}

proof fn lemma_forest_path_fixed(nodes: Seq<FileStructureSegment>, path: Seq<Seq<char>>)
    requires
        forest_folds_distinct(nodes),
        is_forest_path(nodes, path),
    ensures
        fold_first(nodes, path, 0) == Some(join_segments(path)),
    decreases nodes, 1nat,
{
    let j = choose|j: int| 0 <= j < nodes.len() && is_tree_path(#[trigger] nodes[j], path);
    assert forall|k: int| 0 <= k < j implies fold_path(#[trigger] nodes[k], path) is None by {
        assert(lower_of(nodes[k].segment@) != lower_of(nodes[j].segment@));
    }
    lemma_fold_first_skips(nodes, path, 0, j);
    assert(decreases_to!(nodes => nodes[j]));
    lemma_tree_path_fixed(nodes[j], path);
}

proof fn lemma_tree_path_fixed(node: FileStructureSegment, path: Seq<Seq<char>>)
    requires
        folds_distinct(node),
        is_tree_path(node, path),
    ensures
        fold_path(node, path) == Some(join_segments(path)),
    decreases node, 0nat,
{
    if path.len() > 1 {
        let v = node.children->0;
        assert(decreases_to!(node => v@));
        lemma_forest_path_fixed(v@, path.drop_first());
    }
}

/// A path that already has the snapshot's casing resolves to itself, joined
/// with `/`, whenever no two siblings of the snapshot differ only in case.
pub proof fn lemma_canonical_path_unchanged(roots: Seq<FileStructureSegment>, path: Seq<Seq<char>>)
    requires
        forest_folds_distinct(roots),
        is_forest_path(roots, path),
    ensures
        fold_first(roots, path, 0) == Some(join_segments(path)),
{
    lemma_forest_path_fixed(roots, path);
}

/// A path whose first segment folds to no root's segment resolves to nothing.
pub proof fn lemma_no_matching_root(roots: Seq<FileStructureSegment>, path: Seq<Seq<char>>)
    requires
        path.len() >= 1,
        forall|k: int| 0 <= k < roots.len() ==> lower_of(path[0]) != lower_of(#[trigger] roots[k].segment@),
    ensures
        fold_first(roots, path, 0) is None,
{
    lemma_fold_first_none(roots, path);
}

/// When the first segment matches a node and the second matches none of its
/// children, the result is the node's casing followed by the lower-cased rest.
pub proof fn lemma_unknown_child_lowercased(node: FileStructureSegment, path: Seq<Seq<char>>)
    requires
        path.len() >= 2,
        lower_of(path[0]) == lower_of(node.segment@),
        forall|k: int| 0 <= k < child_nodes(node).len() ==> lower_of(path[1]) != lower_of(#[trigger] child_nodes(node)[k].segment@),
    ensures
        fold_path(node, path) == Some(node.segment@ + seq!['/'] + lower_of(join_segments(path.drop_first()))),
{
    if node.children is Some {
        lemma_fold_first_none(child_nodes(node), path.drop_first());
    }
}

} // verus!
