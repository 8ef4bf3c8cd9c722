use vstd::prelude::*;
use crate::path::{NodePath, joined, join_parts};
use crate::text::{has_infix, lower_of, lowercase, text_contains};
use crate::listing::{Entry, EntryView, WalkItem, well_placed, below_root, walk_rel_parts,
    entry_views, is_ordered, sort_entries, stable_sorted, lemma_map_preserves_permutation};

verus! {

broadcast use vstd::seq_lib::group_to_multiset_ensures;

/// The search result that walk item `w` gives, for a walk rooted at `root`: the item must
/// lie strictly below the root, and its file name must contain the query, compared in
/// lowercase. Its name on screen is its path below the root.
pub open spec fn search_hit(root: Seq<Seq<char>>, query: Seq<char>, w: WalkItem) -> Option<EntryView> {
    if well_placed(w) && w.depth > 0 && has_infix(lower_of(below_root(w).last()), lower_of(query)) {
        Some(EntryView { path: root + below_root(w), name: joined(below_root(w)), is_dir: w.is_dir })
    } else {
        None
    }
}

/// The search results of a walk, in the order of the walk.
pub open spec fn search_hits(root: Seq<Seq<char>>, query: Seq<char>, walk: Seq<WalkItem>) -> Seq<EntryView>
    decreases walk.len(),
{
    if walk.len() == 0 {
        Seq::empty()
    } else {
        let rest = search_hits(root, query, walk.drop_last());
        match search_hit(root, query, walk.last()) {
            Some(e) => rest.push(e),
            None => rest,
        }
    }
}

/// Ranks the entries of a walk rooted at `root` that match `query`: every hit once,
/// directories first, then shorter names, then by lowercase name.
pub fn rank_matches(root: &NodePath, query: &String, walk: &Vec<WalkItem>) -> (r: Vec<Entry>)
    ensures
        entry_views(r@) == stable_sorted(search_hits(root@, query@, walk@), true),
        entry_views(r@).to_multiset() == search_hits(root@, query@, walk@).to_multiset(),
        is_ordered(r@, true),
        r.len() == search_hits(root@, query@, walk@).len(),
{
    let q = lowercase(query.as_str());
    let mut made: Vec<Entry> = Vec::new();
    let mut i: usize = 0;
    while i < walk.len()
        invariant
            i <= walk.len(),
            q@ == lower_of(query@),
            entry_views(made@) == search_hits(root@, query@, walk@.subrange(0, i as int)),
        decreases walk.len() - i,
    {
        let ghost made0 = made@;
        let w = &walk[i];
        assert(walk@.subrange(0, i + 1).drop_last() =~= walk@.subrange(0, i as int));
        assert(walk@.subrange(0, i + 1).last() == walk@[i as int]);
        if w.depth > 0 && w.depth <= w.parts.len() {
            let rel = walk_rel_parts(w);
            assert(rel@.map_values(|s: String| s@).len() == rel@.len());
            let last = rel.len() - 1;
            let name_lower = lowercase(rel[last].as_str());
            if text_contains(name_lower.as_str(), q.as_str()) {
                let e = Entry { path: root.extended(&rel), name: join_parts(&rel), is_dir: w.is_dir };
                made.push(e);
                assert(entry_views(made@) =~= entry_views(made0).push(e@));
            }
        }
        i = i + 1;
    }
    assert(walk@.subrange(0, i as int) =~= walk@);
    let ghost m = made@;
    let r = sort_entries(made, true);
    proof {
        lemma_map_preserves_permutation(r@, m, |e: Entry| e@);
        assert(entry_views(r@).to_multiset().len() == entry_views(r@).len());
        assert(search_hits(root@, query@, walk@).to_multiset().len() == search_hits(root@, query@, walk@).len());
    }
    r
}

/// The hits of a walk depend on the query only through its lowercase form.
pub proof fn lemma_hits_follow_lowercase_query(root: Seq<Seq<char>>, q1: Seq<char>, q2: Seq<char>, walk: Seq<WalkItem>)
    requires
        lower_of(q1) == lower_of(q2),
    ensures
        search_hits(root, q1, walk) == search_hits(root, q2, walk),
    decreases walk.len(),
{
    if walk.len() > 0 {
        lemma_hits_follow_lowercase_query(root, q1, q2, walk.drop_last());
    }
}

} // verus!
