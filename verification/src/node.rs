//! Rows of the `node` table, one per git object of a repository, and the
//! order in which they are listed: by object type (commit, tree, blob, tag),
//! then by full path, then by size.

use std::cmp::Ordering;
use vstd::prelude::*;
use crate::text::{compare_text, text_eq};

verus! {

#[verifier::external_type_specification]
#[verifier::external_body]
pub struct ExNaiveDateTime(chrono::NaiveDateTime);

/// `Clone::clone` of `chrono::NaiveDateTime`, which derives `Clone` and `Copy`:
/// trusted to give back an equal value.
pub assume_specification[ <chrono::NaiveDateTime as Clone>::clone ](
    dt: &chrono::NaiveDateTime,
) -> (r: chrono::NaiveDateTime)
    ensures
        r == *dt,
;

/// A date and time without a time zone, as the table stores it.
pub type DateTime = chrono::NaiveDateTime;

/// A row of the `node` table.
#[derive(Clone, Debug, PartialEq, Eq)]
pub struct Model {
    pub id: i64,
    pub node_id: i64,
    pub git_id: String,
    pub last_commit: String,
    pub node_type: String,
    pub name: Option<String>,
    pub mode: Vec<u8>,
    pub content_sha: Option<String>,
    pub size: i32,
    pub repo_path: String,
    pub full_path: String,
    pub created_at: DateTime,
    pub updated_at: DateTime,
}

/// The object types that a node can have.
pub open spec fn is_node_type(t: Seq<char>) -> bool {
    t == "commit"@ || t == "tree"@ || t == "blob"@ || t == "tag"@
}

/// How the type of `a` orders against the type of `b` (negative: before,
/// zero: same, positive: after): commit, tree, blob, tag. A type on the right
/// that is none of these sorts after blob and before tag.
pub open spec fn type_order(a: Seq<char>, b: Seq<char>) -> int {
    if is_node_type(a) && a == b {
        0
    } else if a == "commit"@ {
        -1
    } else if a == "tree"@ {
        if b == "commit"@ {
            1
        } else {
            -1
        }
    } else if a == "blob"@ {
        if b == "commit"@ || b == "tree"@ {
            1
        } else {
            -1
        }
    } else {
        1
    }
}

/// How node `a` orders against node `b` (negative: before, zero: equal,
/// positive: after): by type, then by full path, then by size.
pub open spec fn node_order(a: Model, b: Model) -> int {
    let t = type_order(a.node_type@, b.node_type@);
    let p = crate::text::lex(a.full_path@, b.full_path@);
    if t != 0 {
        t
    } else if p != 0 {
        p
    } else if a.size < b.size {
        -1
    } else if a.size > b.size {
        1
    } else {
        0
    }
}

/// The `Ordering` that a sign stands for.
pub open spec fn ordering_of(sign: int) -> Ordering {
    if sign < 0 {
        Ordering::Less
    } else if sign > 0 {
        Ordering::Greater
    } else {
        Ordering::Equal
    }
}

fn type_order_of(a: &str, b: &str) -> (r: i8)
    requires
        is_node_type(a@),
    ensures
        r == type_order(a@, b@),
{
    let a_commit = text_eq(a, "commit");
    let a_tree = text_eq(a, "tree");
    let a_blob = text_eq(a, "blob");
    let a_tag = text_eq(a, "tag");
    let b_commit = text_eq(b, "commit");
    let b_tree = text_eq(b, "tree");
    let b_blob = text_eq(b, "blob");
    let b_tag = text_eq(b, "tag");
    if (a_commit && b_commit) || (a_tree && b_tree) || (a_blob && b_blob) || (a_tag && b_tag) {
        0
    } else if a_commit {
        -1
    } else if a_tree {
        if b_commit {
            1
        } else {
            -1
        }
    } else if a_blob {
        if b_commit || b_tree {
            1
        } else {
            -1
        }
    } else {
        1
    }
}

impl Model {
    /// Orders two nodes: by type (commit, tree, blob, tag), then by full path,
    /// then by size. The type of `self` must be one of the four.
    pub fn cmp(&self, other: &Self) -> (r: Ordering)
        requires
            is_node_type(self.node_type@),
        ensures
            r == ordering_of(node_order(*self, *other)),
    {
        let t = type_order_of(self.node_type.as_str(), other.node_type.as_str());
        if t < 0 {
            return Ordering::Less;
        }
        if t > 0 {
            return Ordering::Greater;
        }
        let p = compare_text(self.full_path.as_str(), other.full_path.as_str());
        if p < 0 {
            return Ordering::Less;
        }
        if p > 0 {
            return Ordering::Greater;
        }
        if self.size < other.size {
            Ordering::Less
        } else if self.size > other.size {
            Ordering::Greater
        } else {
            Ordering::Equal
        }
    }

    /// The order of two nodes as a partial order: always the total order of `cmp`.
    pub fn partial_cmp(&self, other: &Self) -> (r: Option<Ordering>)
        requires
            is_node_type(self.node_type@),
        ensures
            r == Some(ordering_of(node_order(*self, *other))),
    {
        Some(self.cmp(other))
    }
}

proof fn lemma_type_literals()
    ensures
        "commit"@ != "tree"@,
        "commit"@ != "blob"@,
        "commit"@ != "tag"@,
        "tree"@ != "blob"@,
        "tree"@ != "tag"@,
        "blob"@ != "tag"@,
{
    reveal_strlit("commit");
    reveal_strlit("tree");
    reveal_strlit("blob");
    reveal_strlit("tag");
    assert("commit"@[0] != "tree"@[0]);
    assert("commit"@.len() != "blob"@.len());
    assert("commit"@.len() != "tag"@.len());
    assert("tree"@[0] != "blob"@[0]);
    assert("tree"@.len() != "tag"@.len());
    assert("blob"@.len() != "tag"@.len());
}

/// Every node is equal to itself.
pub proof fn law_node_order_reflexive(a: Model)
    requires
        is_node_type(a.node_type@),
    ensures
        node_order(a, a) == 0,
{
    crate::text::lemma_lex_zero(a.full_path@, a.full_path@);
}

/// Swapping two nodes reverses their order.
pub proof fn law_node_order_antisymmetric(a: Model, b: Model)
    requires
        is_node_type(a.node_type@),
        is_node_type(b.node_type@),
    ensures
        node_order(a, b) == -node_order(b, a),
{
    lemma_type_literals();
    crate::text::lemma_lex_antisymmetric(a.full_path@, b.full_path@);
}

/// The order of nodes is transitive, strictly so where one step is strict.
pub proof fn law_node_order_transitive(a: Model, b: Model, c: Model)
    requires
        is_node_type(a.node_type@),
        is_node_type(b.node_type@),
        is_node_type(c.node_type@),
        node_order(a, b) <= 0,
        node_order(b, c) <= 0,
    ensures
        node_order(a, c) <= 0,
        node_order(a, b) < 0 || node_order(b, c) < 0 ==> node_order(a, c) < 0,
{
    lemma_type_literals();
    let tab = type_order(a.node_type@, b.node_type@);
    let tbc = type_order(b.node_type@, c.node_type@);
    if tab == 0 && tbc == 0 {
        let pab = crate::text::lex(a.full_path@, b.full_path@);
        let pbc = crate::text::lex(b.full_path@, c.full_path@);
        if pab <= 0 && pbc <= 0 {
            crate::text::lemma_lex_transitive(a.full_path@, b.full_path@, c.full_path@);
        }
        crate::text::lemma_lex_zero(a.full_path@, b.full_path@);
        crate::text::lemma_lex_zero(b.full_path@, c.full_path@);
        crate::text::lemma_lex_zero(a.full_path@, c.full_path@);
    }
}

/// Two nodes are equal in the order exactly when they have the same type,
/// full path and size.
pub proof fn law_node_order_equal(a: Model, b: Model)
    requires
        is_node_type(a.node_type@),
    ensures
        (node_order(a, b) == 0) == (a.node_type@ == b.node_type@ && a.full_path@ == b.full_path@
            && a.size == b.size),
{
    lemma_type_literals();
    crate::text::lemma_lex_zero(a.full_path@, b.full_path@);
}

/// The object types in their listing order: commit, tree, blob, tag.
pub open spec fn listing_order() -> Seq<Seq<char>> {
    seq!["commit"@, "tree"@, "blob"@, "tag"@]
}

/// Nodes of different types are listed commit, tree, blob, tag, whatever
/// their paths and sizes.
pub proof fn law_node_order_by_type(a: Model, b: Model, i: int, j: int)
    requires
        0 <= i < j < 4,
        a.node_type@ == listing_order()[i],
        b.node_type@ == listing_order()[j],
    ensures
        node_order(a, b) < 0,
        node_order(b, a) > 0,
{
    lemma_type_literals();
}

/// Nodes of the same type are listed by full path first: with different
/// paths, the order is the paths' order, whatever the sizes.
pub proof fn law_node_order_by_path(a: Model, b: Model)
    requires
        is_node_type(a.node_type@),
        a.node_type@ == b.node_type@,
        a.full_path@ != b.full_path@,
    ensures
        node_order(a, b) == crate::text::lex(a.full_path@, b.full_path@),
        node_order(a, b) != 0,
{
    crate::text::lemma_lex_zero(a.full_path@, b.full_path@);
}

/// Nodes of the same type and full path are listed by size, smaller first.
pub proof fn law_node_order_by_size(a: Model, b: Model)
    requires
        is_node_type(a.node_type@),
        a.node_type@ == b.node_type@,
        a.full_path@ == b.full_path@,
    ensures
        (node_order(a, b) < 0) == (a.size < b.size),
        (node_order(a, b) > 0) == (a.size > b.size),
{
    crate::text::lemma_lex_zero(a.full_path@, b.full_path@);
}

/// Against a node whose type is none of the four, a commit, tree or blob
/// comes first and a tag comes after.
pub proof fn law_node_order_unknown_type(a: Model, b: Model)
    requires
        is_node_type(a.node_type@),
        !is_node_type(b.node_type@),
    ensures
        (node_order(a, b) < 0) == (a.node_type@ != "tag"@),
        (node_order(a, b) > 0) == (a.node_type@ == "tag"@),
{
    lemma_type_literals();
}

} // verus!
