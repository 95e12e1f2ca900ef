//! The tree query engine: given the root of a labeled tree and a path of node
//! names, follow at each level the first child whose name matches the next
//! path segment and return the text of the node the last segment reaches.
//! Absence of the path ("not found") is distinct from a node with empty text.
use vstd::prelude::*;

verus! {

/// One node of a parsed configuration document: a name, direct text content
/// (possibly empty), and ordered children.
pub struct TreeNode {
    pub name: String,
    pub text: String,
    pub children: Vec<TreeNode>,
}

/// The first child of `cs` whose name is `name`, in document order.
pub open spec fn first_child_named(cs: Seq<TreeNode>, name: Seq<char>) -> Option<TreeNode>
    decreases cs.len(),
{
    if cs.len() == 0 {
        None
    } else if cs[0].name@ == name {
        Some(cs[0])
    } else {
        first_child_named(cs.drop_first(), name)
    }
}

/// What `query` returns: follow the first matching child for each path
/// segment in turn; the last segment yields that child's text. An empty path
/// finds nothing, and a missing segment at any level fails the whole query.
pub open spec fn spec_query(t: TreeNode, path: Seq<Seq<char>>) -> Option<Seq<char>>
    decreases path.len(),
{
    if path.len() == 0 {
        None
    } else {
        match first_child_named(t.children@, path[0]) {
            None => None,
            Some(c) => if path.len() == 1 {
                Some(c.text@)
            } else {
                spec_query(c, path.drop_first())
            },
        }
    }
}

/// Some chain of children matching `path` segment by segment leaves `t`,
/// regardless of which same-named sibling each step picks.
pub open spec fn has_chain(t: TreeNode, path: Seq<Seq<char>>) -> bool
    decreases path.len(),
{
    path.len() > 0 && exists|i: int|
        #![trigger t.children@[i]]
        0 <= i < t.children@.len() && t.children@[i].name@ == path[0] && (path.len() == 1
            || has_chain(t.children@[i], path.drop_first()))
}

/// The text at the end of a chain matching `path`; meaningful only when
/// `has_chain(t, path)` holds.
pub open spec fn chain_text(t: TreeNode, path: Seq<Seq<char>>) -> Seq<char>
    decreases path.len(),
{
    let i = choose|i: int|
        #![trigger t.children@[i]]
        0 <= i < t.children@.len() && t.children@[i].name@ == path[0] && (path.len() == 1
            || has_chain(t.children@[i], path.drop_first()));
    if path.len() <= 1 {
        t.children@[i].text@
    } else {
        chain_text(t.children@[i], path.drop_first())
    }
}

/// No two distinct children of `t` carry the name `name`.
pub open spec fn at_most_one_child_named(t: TreeNode, name: Seq<char>) -> bool {
    forall|i: int, j: int|
        #![trigger t.children@[i], t.children@[j]]
        0 <= i < j < t.children@.len() ==> !(t.children@[i].name@ == name && t.children@[j].name@
            == name)
}

/// Along every prefix of `path`, each level of `t` has at most one child with
/// the segment's name. The configuration documents this engine is built for
/// come from a generator in which every path prefix occurs at most once.
pub open spec fn unique_along(t: TreeNode, path: Seq<Seq<char>>) -> bool
    decreases path.len(),
{
    path.len() == 0 || (at_most_one_child_named(t, path[0]) && forall|i: int|
        #![trigger t.children@[i]]
        0 <= i < t.children@.len() && t.children@[i].name@ == path[0] ==> unique_along(
            t.children@[i],
            path.drop_first(),
        ))
}

proof fn lemma_first_child_named(cs: Seq<TreeNode>, name: Seq<char>)
    ensures
        (first_child_named(cs, name) is None) <==> (forall|i: int|
            #![trigger cs[i]]
            0 <= i < cs.len() ==> cs[i].name@ != name),
        first_child_named(cs, name) matches Some(c) ==> exists|i: int|
            #![trigger cs[i]]
            0 <= i < cs.len() && cs[i] == c && cs[i].name@ == name,
    decreases cs.len(),
{
    if cs.len() > 0 && cs[0].name@ != name {
        lemma_first_child_named(cs.drop_first(), name);
        assert forall|i: int| 0 <= i < cs.len() && #[trigger] cs[i].name@ == name implies
            !(first_child_named(cs, name) is None) by {
            if i > 0 {
                assert(cs.drop_first()[i - 1] == cs[i]);
            }
        }
        if first_child_named(cs, name) is Some {
            let c = first_child_named(cs, name)->Some_0;
            let k = choose|k: int|
                0 <= k < cs.drop_first().len() && #[trigger] cs.drop_first()[k] == c
                    && cs.drop_first()[k].name@ == name;
            assert(cs[k + 1] == c && cs[k + 1].name@ == name);
        }
    }
}

/// A found result always certifies a matching chain, whatever shape the
/// tree has: the first-match walk is itself such a chain.
pub proof fn lemma_query_sound(t: TreeNode, path: Seq<Seq<char>>)
    ensures
        spec_query(t, path) is Some ==> has_chain(t, path),
    decreases path.len(),
{
    if path.len() > 0 {
        lemma_first_child_named(t.children@, path[0]);
        if first_child_named(t.children@, path[0]) is Some {
            let c = first_child_named(t.children@, path[0])->Some_0;
            if path.len() > 1 {
                lemma_query_sound(c, path.drop_first());
            }
        }
    }
}

/// No-path-found is reported exactly when no matching chain exists, and a
/// found path yields the exact text of the node the chain ends at — provided
/// each queried level has at most one child per segment name. With duplicate
/// same-named siblings the engine commits to the first in document order.
pub proof fn lemma_query_complete(t: TreeNode, path: Seq<Seq<char>>)
    requires
        unique_along(t, path),
    ensures
        (spec_query(t, path) is None) <==> !has_chain(t, path),
        has_chain(t, path) ==> spec_query(t, path) == Some(chain_text(t, path)),
    decreases path.len(),
{
    if path.len() > 0 {
        lemma_first_child_named(t.children@, path[0]);
        match first_child_named(t.children@, path[0]) {
            None => {
                assert(!has_chain(t, path));
            },
            Some(c) => {
                let i = choose|i: int|
                    0 <= i < t.children@.len() && #[trigger] t.children@[i] == c
                        && t.children@[i].name@ == path[0];
                assert forall|j: int|
                    0 <= j < t.children@.len() && #[trigger] t.children@[j].name@ == path[0]
                    implies t.children@[j] == c by {
                    if i < j {
                        assert(!(t.children@[i].name@ == path[0] && t.children@[j].name@
                            == path[0]));
                    } else if j < i {
                        assert(!(t.children@[j].name@ == path[0] && t.children@[i].name@
                            == path[0]));
                    }
                }
                if path.len() == 1 {
                    assert(has_chain(t, path));
                    assert(chain_text(t, path) == c.text@);
                } else {
                    lemma_query_complete(c, path.drop_first());
                    if has_chain(c, path.drop_first()) {
                        assert(has_chain(t, path));
                    }
                    if has_chain(t, path) {
                        let w = choose|w: int|
                            #![trigger t.children@[w]]
                            0 <= w < t.children@.len() && t.children@[w].name@ == path[0] && (
                            path.len() == 1 || has_chain(t.children@[w], path.drop_first()));
                        assert(t.children@[w] == c);
                        assert(has_chain(c, path.drop_first()));
                        assert(chain_text(t, path) == chain_text(c, path.drop_first()));
                    }
                }
            },
        }
    }
}

impl TreeNode {
    /// Follow `path` from `self` and return the text content of the node it
    /// reaches, or `None` when no such path exists.
    pub fn query(&self, path: &Vec<String>) -> (r: Option<String>)
        ensures
            match r {
                Some(s) => spec_query(*self, path.deep_view()) == Some(s@),
                None => spec_query(*self, path.deep_view()) is None,
            },
    {
        if path.len() == 0 {
            return None;
        }
        let mut cur: &TreeNode = self;
        let mut i: usize = 0;
        proof {
            assert(path.deep_view().skip(0) =~= path.deep_view());
        }
        while i < path.len()
            invariant
                i < path.len(),
                spec_query(*self, path.deep_view()) == spec_query(
                    *cur,
                    path.deep_view().skip(i as int),
                ),
            decreases path.len() - i,
        {
            let segment: &String = &path[i];
            let mut j: usize = 0;
            let mut found: Option<usize> = None;
            proof {
                assert(cur.children@.skip(0) =~= cur.children@);
            }
            while found.is_none() && j < cur.children.len()
                invariant
                    j <= cur.children@.len(),
                    found is None ==> first_child_named(cur.children@, segment@)
                        == first_child_named(cur.children@.skip(j as int), segment@),
                    found matches Some(k) ==> k < cur.children@.len()
                        && first_child_named(cur.children@, segment@) == Some(cur.children@[k as int]),
                decreases cur.children@.len() - j, (if found is None { 1int } else { 0int }),
            {
                proof {
                    assert(cur.children@.skip(j as int).drop_first() =~= cur.children@.skip(
                        j + 1,
                    ));
                }
                if cur.children[j].name == *segment {
                    found = Some(j);
                } else {
                    j += 1;
                }
            }
            if found.is_none() {
                proof {
                    assert(cur.children@.skip(j as int) =~= Seq::<TreeNode>::empty());
                }
                return None;
            }
            let k: usize = found.unwrap();
            let c: &TreeNode = &cur.children[k];
            proof {
                assert(path.deep_view().skip(i as int)[0] == path.deep_view()[i as int]);
            }
            if i == path.len() - 1 {
                return Some(c.text.clone());
            }
            proof {
                assert(path.deep_view().skip(i as int).drop_first() =~= path.deep_view().skip(
                    i + 1,
                ));
            }
            cur = c;
            i += 1;
        }
        None
    }
}

} // verus!
