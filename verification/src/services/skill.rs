//! Skills, skill trees and the tag hierarchy: the checks and choices of
//! their edits.

use vstd::prelude::*;

use crate::error::{Error, ValidationError};
use crate::services::access::require_owner;
use crate::text::str_eq;

verus! {

/// A parent→child link of the user's tag tree.
#[derive(Debug, Clone)]
pub struct TagTreeEntry {
    pub parent_tag: String,
    pub child_tag: String,
}

/// A prerequisite link between two tags of the user's tree.
#[derive(Debug, Clone)]
pub struct UserTagPrereq {
    pub from_tag: String,
    pub to_tag: String,
    pub prereq_type: String,
}

#[derive(Debug, Clone)]
pub struct SkillTreeEdgeRow {
    pub parent_tag: String,
    pub child_tag: String,
}

#[derive(Debug, Clone)]
pub struct SkillTreePrereqRow {
    pub from_tag: String,
    pub to_tag: String,
    pub prereq_type: String,
}

#[derive(Debug, Clone)]
pub struct CreateSkillTree {
    pub title: String,
    pub description: Option<String>,
    pub tag_id: Option<String>,
    pub edges: Vec<(String, String)>,
    pub prereqs: Vec<(String, String, String)>,
}

/// A parent→child link of the shared tag hierarchy.
#[derive(Debug, Clone)]
pub struct TagParent {
    pub parent_tag: String,
    pub child_tag: String,
}

/// A tag cannot be its own parent.
pub fn check_tag_edge(parent_label: &str, child_label: &str) -> (r: Result<(), Error>)
    ensures
        parent_label@ == child_label@ ==> (r matches Err(Error::Validation(v)) && v@.len() == 1
            && v@[0].field@ == "child_tag"@ && v@[0].message@ == "cannot equal parent_tag"@),
        parent_label@ != child_label@ ==> r is Ok,
{
    if str_eq(parent_label, child_label) {
        let mut v: Vec<ValidationError> = Vec::new();
        v.push(ValidationError { field: "child_tag".to_owned(), message: "cannot equal parent_tag".to_owned() });
        Err(Error::Validation(v))
    } else {
        Ok(())
    }
}

/// Only the owner modifies a skill tree; an unknown tree is `NotFound`.
pub fn check_skill_tree_editor(owner: Option<&str>, did: &str, tree_uri: &str) -> (r: Result<(), Error>)
    ensures
        match owner {
            None => r matches Err(Error::NotFound { entity: e, id: i }) && e@ == "skill tree"@ && i@
                == tree_uri@,
            Some(o) => if o@ != did@ {
                r matches Err(Error::Forbidden { action: a }) && a@
                    == "modify skill tree owned by another user"@
            } else {
                r is Ok
            },
        },
{
    require_owner(owner, did, "modify skill tree owned by another user", "skill tree", tree_uri)
}

/// The status a skill is lit with: `learning` as asked, anything else
/// `mastered`.
pub fn skill_status(status: &str) -> (r: &'static str)
    ensures
        status@ == "learning"@ ==> r@ == "learning"@,
        status@ != "learning"@ ==> r@ == "mastered"@,
{
    if str_eq(status, "learning") {
        "learning"
    } else {
        "mastered"
    }
}

/// The tags of a tree's links, each once, in first-seen order: parent,
/// then child of each edge, then source, then target of each
/// prerequisite.
pub open spec fn tree_tags_seq(edges: Seq<SkillTreeEdgeRow>, prereqs: Seq<SkillTreePrereqRow>) -> Seq<Seq<char>> {
    Seq::new(2 * edges.len(), |k: int| if k % 2 == 0 { edges[k / 2].parent_tag@ } else { edges[k / 2].child_tag@ })
        + Seq::new(2 * prereqs.len(), |k: int| if k % 2 == 0 { prereqs[k / 2].from_tag@ } else { prereqs[k / 2].to_tag@ })
}

/// `s` with later repetitions dropped.
pub open spec fn dedup(s: Seq<Seq<char>>) -> Seq<Seq<char>>
    decreases s.len(),
{
    if s.len() == 0 {
        s
    } else {
        let d = dedup(s.drop_last());
        if d.contains(s.last()) {
            d
        } else {
            d.push(s.last())
        }
    }
}

fn push_new(out: &mut Vec<String>, tag: &String, Ghost(s): Ghost<Seq<Seq<char>>>)
    requires
        old(out)@.map_values(|x: String| x@) == dedup(s),
    ensures
        final(out)@.map_values(|x: String| x@) == dedup(s.push(tag@)),
{
    assert(s.push(tag@).drop_last() =~= s);
    let ghost d = dedup(s);
    let mut i: usize = 0;
    while i < out.len()
        invariant
            i <= out@.len(),
            d == dedup(s),
            s.push(tag@).drop_last() == s,
            s.push(tag@).last() == tag@,
            out@.map_values(|x: String| x@) == d,
            forall|l: int| 0 <= l < i ==> d[l] != tag@,
        decreases out@.len() - i,
    {
        if str_eq(out[i].as_str(), tag.as_str()) {
            assert(d[i as int] == tag@);
            assert(d.contains(tag@));
            return;
        }
        i = i + 1;
    }
    assert(!d.contains(tag@));
    out.push(tag.clone());
    assert(out@.map_values(|x: String| x@) =~= d.push(tag@));
}

/// The tags whose names a skill tree shows.
pub fn skill_tree_tags(edges: &Vec<SkillTreeEdgeRow>, prereqs: &Vec<SkillTreePrereqRow>) -> (r: Vec<String>)
    ensures
        r@.map_values(|x: String| x@) == dedup(tree_tags_seq(edges@, prereqs@)),
{
    let mut out: Vec<String> = Vec::new();
    let ghost mut seen: Seq<Seq<char>> = Seq::empty();
    assert(out@.map_values(|x: String| x@) =~= dedup(seen));
    let mut i: usize = 0;
    while i < edges.len()
        invariant
            i <= edges@.len(),
            seen == tree_tags_seq(edges@.take(i as int), Seq::empty()),
            out@.map_values(|x: String| x@) == dedup(seen),
        decreases edges@.len() - i,
    {
        push_new(&mut out, &edges[i].parent_tag, Ghost(seen));
        proof { seen = seen.push(edges@[i as int].parent_tag@); }
        push_new(&mut out, &edges[i].child_tag, Ghost(seen));
        proof { seen = seen.push(edges@[i as int].child_tag@); }
        i = i + 1;
        assert(seen =~= tree_tags_seq(edges@.take(i as int), Seq::empty()));
    }
    assert(edges@.take(i as int) =~= edges@);
    let ghost front = seen;
    let mut j: usize = 0;
    while j < prereqs.len()
        invariant
            j <= prereqs@.len(),
            front == tree_tags_seq(edges@, Seq::empty()),
            seen == front + tree_tags_seq(Seq::empty(), prereqs@.take(j as int)),
            out@.map_values(|x: String| x@) == dedup(seen),
        decreases prereqs@.len() - j,
    {
        push_new(&mut out, &prereqs[j].from_tag, Ghost(seen));
        proof { seen = seen.push(prereqs@[j as int].from_tag@); }
        push_new(&mut out, &prereqs[j].to_tag, Ghost(seen));
        proof { seen = seen.push(prereqs@[j as int].to_tag@); }
        j = j + 1;
        assert(seen =~= front + tree_tags_seq(Seq::empty(), prereqs@.take(j as int)));
    }
    assert(prereqs@.take(j as int) =~= prereqs@);
    assert(seen =~= tree_tags_seq(edges@, prereqs@));
    out
}

/// Dropping later repetitions keeps exactly the members and leaves no
/// member twice.
pub proof fn lemma_dedup_laws(s: Seq<Seq<char>>)
    ensures
        forall|x: Seq<char>| #[trigger] dedup(s).contains(x) <==> s.contains(x),
        forall|i: int, j: int| 0 <= i < j < dedup(s).len() ==> dedup(s)[i] != dedup(s)[j],
    decreases s.len(),
{
    if s.len() > 0 {
        let pre = s.drop_last();
        lemma_dedup_laws(pre);
        let d = dedup(pre);
        assert forall|x: Seq<char>| #[trigger] dedup(s).contains(x) <==> s.contains(x) by {
            if s.contains(x) {
                let k = choose|k: int| 0 <= k < s.len() && s[k] == x;
                if k < pre.len() {
                    assert(pre[k] == x);
                    assert(pre.contains(x));
                    assert(d.contains(x));
                    if !d.contains(s.last()) {
                        let m = choose|m: int| 0 <= m < d.len() && d[m] == x;
                        assert(d.push(s.last())[m] == x);
                    }
                } else {
                    assert(x == s.last());
                    if !d.contains(s.last()) {
                        assert(d.push(s.last())[d.len() as int] == x);
                    }
                }
            }
            if dedup(s).contains(x) {
                let m = choose|m: int| 0 <= m < dedup(s).len() && dedup(s)[m] == x;
                if d.contains(s.last()) {
                    assert(d[m] == x);
                    assert(d.contains(x));
                    let k = choose|k: int| 0 <= k < pre.len() && pre[k] == x;
                    assert(s[k] == x);
                } else if m < d.len() {
                    assert(d[m] == x);
                    assert(d.contains(x));
                    let k = choose|k: int| 0 <= k < pre.len() && pre[k] == x;
                    assert(s[k] == x);
                } else {
                    assert(s[s.len() - 1] == x);
                }
            }
        }
        if !d.contains(s.last()) {
            assert forall|i: int, j: int| 0 <= i < j < dedup(s).len() implies dedup(s)[i] != dedup(s)[j] by {
                if j == d.len() {
                    assert(dedup(s)[i] == d[i]);
                    assert(dedup(s)[j] == s.last());
                    if d[i] == s.last() {
                        assert(d.contains(s.last()));
                    }
                } else {
                    assert(dedup(s)[i] == d[i]);
                    assert(dedup(s)[j] == d[j]);
                }
            }
        }
    }
}

} // verus!
