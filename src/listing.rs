use vstd::prelude::*;
use vstd::multiset::Multiset;
use crate::path::{NodePath, copy_text};
use crate::text::{text_lt, lower_of, byte_len, text_less, lowercase, text_byte_len,
    lemma_text_lt_transitive, lemma_text_lt_irreflexive};

verus! {

broadcast use vstd::seq_lib::group_to_multiset_ensures;

/// An entry of the list on screen: a child of the current directory, or a search result.
#[derive(Debug, PartialEq, Eq)]
pub struct Entry {
    /// Full path of the entry.
    pub path: NodePath,
    /// The name shown: the file name in a listing, the path below the search root in
    /// search results.
    pub name: String,
    pub is_dir: bool,
}

/// What an entry means.
pub struct EntryView {
    pub path: Seq<Seq<char>>,
    pub name: Seq<char>,
    pub is_dir: bool,
}

impl View for Entry {
    type V = EntryView;

    open spec fn view(&self) -> EntryView {
        EntryView { path: self.path@, name: self.name@, is_dir: self.is_dir }
    }
}

/// A child of a directory as the file system lists it. An entry whose metadata cannot be
/// read counts as a file.
#[derive(Debug, PartialEq, Eq)]
pub struct DirItem {
    pub name: String,
    pub is_dir: bool,
}

impl Entry {
    pub fn copy(&self) -> (r: Entry)
        ensures
            r@ == self@,
    {
        Entry { path: self.path.copy(), name: copy_text(&self.name), is_dir: self.is_dir }
    }
}

/// Order of a directory listing: directories first, then by name, case-sensitively.
pub open spec fn listed_before(a: EntryView, b: EntryView) -> bool {
    (a.is_dir && !b.is_dir) || (a.is_dir == b.is_dir && text_lt(a.name, b.name))
}

/// Order of search results: directories first, then shorter names (in bytes), then by
/// the lowercase form of the name.
pub open spec fn ranked_before(a: EntryView, b: EntryView) -> bool {
    ||| a.is_dir && !b.is_dir
    ||| a.is_dir == b.is_dir && byte_len(a.name) < byte_len(b.name)
    ||| a.is_dir == b.is_dir && byte_len(a.name) == byte_len(b.name) && text_lt(
        lower_of(a.name),
        lower_of(b.name),
    )
}

/// The order of a listing (`ranked` false) or of search results (`ranked` true).
pub open spec fn comes_before(a: EntryView, b: EntryView, ranked: bool) -> bool {
    if ranked {
        ranked_before(a, b)
    } else {
        listed_before(a, b)
    }
}

/// No entry comes before an entry that precedes it.
pub open spec fn is_ordered(s: Seq<Entry>, ranked: bool) -> bool {
    forall|i: int, j: int| 0 <= i < j < s.len() ==> !comes_before(#[trigger] s[j]@, #[trigger] s[i]@, ranked)
}

/// No entry view comes before one that precedes it.
pub open spec fn views_ordered(s: Seq<EntryView>, ranked: bool) -> bool {
    forall|i: int, j: int| 0 <= i < j < s.len() ==> !comes_before(#[trigger] s[j], #[trigger] s[i], ranked)
}

pub proof fn lemma_ordered_views(s: Seq<Entry>, ranked: bool)
    requires
        is_ordered(s, ranked),
    ensures
        views_ordered(entry_views(s), ranked),
{
    assert forall|i: int, j: int| 0 <= i < j < s.len() implies !comes_before(
        #[trigger] entry_views(s)[j],
        #[trigger] entry_views(s)[i],
        ranked,
    ) by {
        assert(entry_views(s)[j] == s[j]@);
        assert(entry_views(s)[i] == s[i]@);
    }
}

pub proof fn lemma_comes_before_strict(a: EntryView, b: EntryView, c: EntryView, ranked: bool)
    ensures
        !comes_before(a, a, ranked),
        comes_before(a, b, ranked) && comes_before(b, c, ranked) ==> comes_before(a, c, ranked),
{
    lemma_text_lt_irreflexive(a.name);
    lemma_text_lt_irreflexive(lower_of(a.name));
    if comes_before(a, b, ranked) && comes_before(b, c, ranked) {
        if a.is_dir == b.is_dir && b.is_dir == c.is_dir {
            if text_lt(a.name, b.name) && text_lt(b.name, c.name) {
                lemma_text_lt_transitive(a.name, b.name, c.name);
            }
            if text_lt(lower_of(a.name), lower_of(b.name)) && text_lt(lower_of(b.name), lower_of(c.name)) {
                lemma_text_lt_transitive(lower_of(a.name), lower_of(b.name), lower_of(c.name));
            }
        }
    }
}

/// Decides `comes_before` on two entries.
fn entry_before(a: &Entry, b: &Entry, ranked: bool) -> (r: bool)
    ensures
        r == comes_before(a@, b@, ranked),
{
    if a.is_dir != b.is_dir {
        return a.is_dir;
    }
    if !ranked {
        return text_less(a.name.as_str(), b.name.as_str());
    }
    let la = text_byte_len(&a.name);
    let lb = text_byte_len(&b.name);
    if la != lb {
        return la < lb;
    }
    let ka = lowercase(a.name.as_str());
    let kb = lowercase(b.name.as_str());
    text_less(ka.as_str(), kb.as_str())
}

proof fn lemma_insert_to_multiset(s: Seq<Entry>, p: int, x: Entry)
    requires
        0 <= p <= s.len(),
    ensures
        s.insert(p, x).to_multiset() == s.to_multiset().insert(x),
{
    let t = s.insert(p, x);
    assert(t.remove(p) =~= s);
    assert(t[p] == x);
    assert(t.contains(x));
    assert(t.to_multiset() =~= s.to_multiset().insert(x));
}

/// `s` with `x` put before the first element that `x` comes before, that is after every
/// element that `x` does not come before.
pub open spec fn inserted(s: Seq<EntryView>, x: EntryView, ranked: bool) -> Seq<EntryView>
    decreases s.len(),
{
    if s.len() == 0 {
        seq![x]
    } else if comes_before(x, s[0], ranked) {
        seq![x] + s
    } else {
        seq![s[0]] + inserted(s.drop_first(), x, ranked)
    }
}

/// The stable sort of `s` in the order `comes_before(_, _, ranked)`: its elements
/// inserted one after the other, so that equal elements keep their order.
pub open spec fn stable_sorted(s: Seq<EntryView>, ranked: bool) -> Seq<EntryView>
    decreases s.len(),
{
    if s.len() == 0 {
        Seq::empty()
    } else {
        inserted(stable_sorted(s.drop_last(), ranked), s.last(), ranked)
    }
}

proof fn lemma_inserted_at(s: Seq<EntryView>, x: EntryView, p: int, ranked: bool)
    requires
        0 <= p <= s.len(),
        forall|i: int| 0 <= i < p ==> !comes_before(x, #[trigger] s[i], ranked),
        p == s.len() || comes_before(x, s[p], ranked),
    ensures
        inserted(s, x, ranked) == s.insert(p, x),
    decreases s.len(),
{
    if p == 0 {
        if s.len() == 0 {
            assert(s.insert(0, x) =~= seq![x]);
        } else {
            assert(s.insert(0, x) =~= seq![x] + s);
        }
    } else {
        assert(!comes_before(x, s[0], ranked));
        let t = s.drop_first();
        assert forall|i: int| 0 <= i < p - 1 implies !comes_before(x, #[trigger] t[i], ranked) by {
            assert(t[i] == s[i + 1]);
        }
        if p < s.len() {
            assert(t[p - 1] == s[p]);
        }
        lemma_inserted_at(t, x, p - 1, ranked);
        assert(seq![s[0]] + t.insert(p - 1, x) =~= s.insert(p, x));
    }
}

/// Sorts entries stably into the order `comes_before(_, _, ranked)`, by insertion.
pub fn sort_entries(v: Vec<Entry>, ranked: bool) -> (r: Vec<Entry>)
    ensures
        entry_views(r@) == stable_sorted(entry_views(v@), ranked),
        r@.to_multiset() == v@.to_multiset(),
        is_ordered(r@, ranked),
{
    let mut rest = v;
    let mut out: Vec<Entry> = Vec::new();
    let ghost mut taken: int = 0;
    while rest.len() > 0
        invariant
            0 <= taken <= v@.len(),
            rest@ == v@.subrange(taken, v@.len() as int),
            entry_views(out@) == stable_sorted(entry_views(v@).subrange(0, taken), ranked),
            out@.to_multiset().add(rest@.to_multiset()) == v@.to_multiset(),
            is_ordered(out@, ranked),
        decreases rest.len(),
    {
        let ghost rest0 = rest@;
        let x = rest.remove(0);
        assert(rest0.remove(0) == rest@);
        assert(x == v@[taken]);
        let mut p: usize = 0;
        while p < out.len() && !entry_before(&x, &out[p], ranked)
            invariant
                p <= out.len(),
                forall|i: int| 0 <= i < p ==> !comes_before(x@, #[trigger] out@[i]@, ranked),
            decreases out.len() - p,
        {
            p = p + 1;
        }
        let ghost out0 = out@;
        proof {
            lemma_insert_to_multiset(out0, p as int, x);
            assert forall|i: int| 0 <= i < p implies !comes_before(x@, #[trigger] entry_views(out0)[i], ranked) by {
                assert(entry_views(out0)[i] == out0[i]@);
            }
            lemma_inserted_at(entry_views(out0), x@, p as int, ranked);
            let pre = entry_views(v@).subrange(0, taken + 1);
            assert(pre.drop_last() =~= entry_views(v@).subrange(0, taken));
            assert(pre.last() == x@);
        }
        out.insert(p, x);
        assert(out@ == out0.insert(p as int, x));
        assert(entry_views(out@) =~= entry_views(out0).insert(p as int, x@));
        proof {
            taken = taken + 1;
        }
        assert(rest@ =~= v@.subrange(taken, v@.len() as int));
        assert forall|i: int, j: int| 0 <= i < j < out@.len() implies !comes_before(
            #[trigger] out@[j]@,
            #[trigger] out@[i]@,
            ranked,
        ) by {
            if i < p && j == p {
            } else if i == p && j > p {
                let k = j - 1;
                assert(out@[j] == out0[k]);
                lemma_comes_before_strict(out0[k]@, x@, out0[p as int]@, ranked);
                if k > p {
                    assert(!comes_before(out0[k]@, out0[p as int]@, ranked));
                }
            } else if i < p && j > p {
                assert(out@[j] == out0[j - 1]);
                assert(out@[i] == out0[i]);
            } else if i > p {
                assert(out@[j] == out0[j - 1]);
                assert(out@[i] == out0[i - 1]);
            } else {
                assert(out@[j] == out0[j]);
                assert(out@[i] == out0[i]);
            }
        }
        assert(out@.to_multiset().add(rest@.to_multiset()) =~= v@.to_multiset());
    }
    assert(rest@.to_multiset() =~= Multiset::<Entry>::empty());
    assert(out@.to_multiset() =~= v@.to_multiset());
    assert(entry_views(v@).subrange(0, taken) =~= entry_views(v@));
    out
}

/// Reordering a sequence reorders its image under any map.
pub proof fn lemma_map_preserves_permutation<A, B>(a: Seq<A>, b: Seq<A>, f: spec_fn(A) -> B)
    requires
        a.to_multiset() == b.to_multiset(),
    ensures
        a.map_values(f).to_multiset() == b.map_values(f).to_multiset(),
    decreases a.len(),
{
    if a.len() == 0 {
        assert(a.to_multiset().len() == a.len());
        assert(b.to_multiset().len() == b.len());
        assert(b.len() == 0);
        assert(a.map_values(f) =~= b.map_values(f));
    } else {
        let x = a.last();
        let a1 = a.drop_last();
        assert(a =~= a1.push(x));
        assert(a.contains(x));
        assert(b.to_multiset().count(x) > 0);
        assert(b.contains(x));
        let j = choose|j: int| 0 <= j < b.len() && b[j] == x;
        let b1 = b.remove(j);
        assert(a1.to_multiset() =~= b1.to_multiset());
        lemma_map_preserves_permutation(a1, b1, f);
        assert(a.map_values(f) =~= a1.map_values(f).push(f(x)));
        assert(b1.map_values(f) =~= b.map_values(f).remove(j));
        assert(b.map_values(f)[j] == f(x));
        assert(b.map_values(f).contains(f(x)));
        assert(a.map_values(f).to_multiset() =~= b.map_values(f).to_multiset());
    }
}

/// The entry that a directory listing shows for `item` inside `dir`.
pub open spec fn listed_entry(dir: Seq<Seq<char>>, item: DirItem) -> EntryView {
    EntryView { path: dir.push(item.name@), name: item.name@, is_dir: item.is_dir }
}

/// The views of a sequence of entries.
pub open spec fn entry_views(s: Seq<Entry>) -> Seq<EntryView> {
    s.map_values(|e: Entry| e@)
}

/// The listing of directory `dir` whose children are `items`: the entries of all items,
/// directories first, then by name.
pub fn sort_listing(dir: &NodePath, items: &Vec<DirItem>) -> (r: Vec<Entry>)
    ensures
        entry_views(r@) == stable_sorted(items@.map_values(|d: DirItem| listed_entry(dir@, d)), false),
        entry_views(r@).to_multiset() == items@.map_values(|d: DirItem| listed_entry(dir@, d)).to_multiset(),
        is_ordered(r@, false),
        views_ordered(entry_views(r@), false),
        r.len() == items.len(),
{
    let mut made: Vec<Entry> = Vec::new();
    let mut i: usize = 0;
    while i < items.len()
        invariant
            i <= items.len(),
            made.len() == i,
            forall|k: int| 0 <= k < i ==> #[trigger] made@[k]@ == listed_entry(dir@, items@[k]),
        decreases items.len() - i,
    {
        let e = Entry { path: dir.join(&items[i].name), name: copy_text(&items[i].name), is_dir: items[i].is_dir };
        made.push(e);
        i = i + 1;
    }
    assert(entry_views(made@) =~= items@.map_values(|d: DirItem| listed_entry(dir@, d)));
    let ghost m = made@;
    let r = sort_entries(made, false);
    proof {
        lemma_map_preserves_permutation(r@, m, |e: Entry| e@);
        lemma_ordered_views(r@, false);
        assert(r@.to_multiset().len() == r@.len());
        assert(m.to_multiset().len() == m.len());
    }
    r
}

/// One entry met by a recursive walk of a directory tree.
#[derive(Debug, PartialEq, Eq)]
pub struct WalkItem {
    /// The path of the entry, as text.
    pub text: String,
    /// Every component of the path of the entry.
    pub parts: Vec<String>,
    /// How many levels below the root of the walk the entry lies; the root is at 0.
    pub depth: usize,
    pub is_dir: bool,
}

/// The item's components are at least as many as its depth.
pub open spec fn well_placed(w: WalkItem) -> bool {
    w.depth <= w.parts.len()
}

/// The components of the item's path below the root of the walk: its last `depth` ones.
pub open spec fn below_root(w: WalkItem) -> Seq<Seq<char>> {
    let all = w.parts@.map_values(|s: String| s@);
    all.subrange(all.len() - w.depth, all.len() as int)
}

/// The components of `w` below the root of the walk.
pub fn walk_rel_parts(w: &WalkItem) -> (r: Vec<String>)
    requires
        well_placed(*w),
    ensures
        r@.map_values(|s: String| s@) == below_root(*w),
{
    let start = w.parts.len() - w.depth;
    let mut r: Vec<String> = Vec::new();
    let mut i: usize = start;
    while i < w.parts.len()
        invariant
            start == w.parts.len() - w.depth,
            start <= i <= w.parts.len(),
            r.len() == i - start,
            forall|k: int| 0 <= k < r.len() ==> #[trigger] r@[k]@ == w.parts@[start + k]@,
        decreases w.parts.len() - i,
    {
        r.push(copy_text(&w.parts[i]));
        i = i + 1;
    }
    assert(r@.map_values(|s: String| s@) =~= below_root(*w));
    r
}

/// Relies on walkdir's `WalkDir::new(root).follow_links(true)`: the entries of the tree
/// under `root`, the root first, with symbolic links followed; entries that cannot be
/// read are left out.
#[verifier::external_body]
pub(crate) fn walk_tree(root: &str) -> (r: Vec<WalkItem>) {
    walkdir::WalkDir::new(root).follow_links(true).into_iter().filter_map(|e| e.ok()).map(
        |e| WalkItem {
            text: e.path().to_string_lossy().into_owned(),
            parts: e.path().iter().map(|c| c.to_string_lossy().into_owned()).collect(),
            depth: e.depth(),
            is_dir: e.file_type().is_dir(),
        },
    ).collect()
}

} // verus!
