use vstd::prelude::*;
use crate::path::{NodePath, at_or_under, strictly_under};
use crate::listing::{WalkItem, well_placed, below_root, walk_rel_parts, walk_tree};

verus! {

/// The set of paths held in a vector of paths.
pub open spec fn path_set(v: Seq<NodePath>) -> Set<Seq<Seq<char>>> {
    Set::new(|q: Seq<Seq<char>>| exists|i: int| 0 <= i < v.len() && #[trigger] v[i]@ == q)
}

/// What a selection means: the paths marked selected, and the exceptions marked beneath
/// a selected directory.
pub struct SelectionView {
    pub selected: Set<Seq<Seq<char>>>,
    pub deselected: Set<Seq<Seq<char>>>,
}

/// `p` lies strictly beneath some path of `sel`.
pub open spec fn beneath_any(sel: Set<Seq<Seq<char>>>, p: Seq<Seq<char>>) -> bool {
    exists|a: Seq<Seq<char>>| #[trigger] sel.contains(a) && strictly_under(p, a)
}

/// A path is effectively selected when it is marked selected itself, or when an ancestor
/// is selected and the path is not marked as an exception.
pub open spec fn effective(s: SelectionView, p: Seq<Seq<char>>) -> bool {
    s.selected.contains(p) || (beneath_any(s.selected, p) && !s.deselected.contains(p))
}

/// The selection after toggling `p`.
pub open spec fn toggled(s: SelectionView, p: Seq<Seq<char>>) -> SelectionView {
    if s.selected.contains(p) {
        SelectionView {
            selected: s.selected.remove(p),
            deselected: s.deselected.filter(|d: Seq<Seq<char>>| !strictly_under(d, p)),
        }
    } else if beneath_any(s.selected, p) {
        if s.deselected.contains(p) {
            SelectionView { selected: s.selected, deselected: s.deselected.remove(p) }
        } else {
            SelectionView { selected: s.selected, deselected: s.deselected.insert(p) }
        }
    } else {
        SelectionView { selected: s.selected.insert(p), deselected: s.deselected }
    }
}

/// The selection after toggling `p` `n` times in a row.
pub open spec fn toggled_times(s: SelectionView, p: Seq<Seq<char>>, n: nat) -> SelectionView
    decreases n,
{
    if n == 0 {
        s
    } else {
        toggled(toggled_times(s, p, (n - 1) as nat), p)
    }
}

/// Toggling a path that has no selected ancestor flips whether it is effectively
/// selected, and it still has no selected ancestor afterwards. So after `n` toggles the
/// path is effectively selected exactly when `n` is odd, if it was not selected before.
pub proof fn lemma_toggle_parity(s: SelectionView, p: Seq<Seq<char>>, n: nat)
    requires
        !beneath_any(s.selected, p),
    ensures
        !beneath_any(toggled_times(s, p, n).selected, p),
        effective(toggled_times(s, p, n), p) == (effective(s, p) != (n % 2 == 1)),
    decreases n,
{
    if n > 0 {
        lemma_toggle_parity(s, p, (n - 1) as nat);
        let t = toggled_times(s, p, (n - 1) as nat);
        let u = toggled(t, p);
        assert(u == toggled_times(s, p, n));
        if t.selected.contains(p) {
            assert(u.selected == t.selected.remove(p));
        } else {
            assert(u.selected == t.selected.insert(p));
            assert(!strictly_under(p, p));
        }
        assert(!beneath_any(u.selected, p));
    }
}

/// With a directory `d` selected, toggling once a path `f` strictly beneath it that is
/// not marked itself makes `f` effectively unselected, leaves `d` selected and every
/// other path as it was; toggling `f` a second time restores the selection, with `f`
/// effectively selected again.
pub proof fn lemma_exception_beneath_selected(s: SelectionView, d: Seq<Seq<char>>, f: Seq<Seq<char>>)
    requires
        s.selected.contains(d),
        strictly_under(f, d),
        !s.selected.contains(f),
        !s.deselected.contains(f),
    ensures
        effective(s, f),
        !effective(toggled(s, f), f),
        effective(toggled(s, f), d),
        forall|g: Seq<Seq<char>>| g != f ==> effective(toggled(s, f), g) == effective(s, g),
        toggled(toggled(s, f), f) == s,
        effective(toggled(toggled(s, f), f), f),
{
    assert(beneath_any(s.selected, f));
    let t = toggled(s, f);
    assert(t.deselected == s.deselected.insert(f));
    assert(t.deselected.remove(f) =~= s.deselected);
}

/// True when `p` lies strictly beneath some path of `v`.
pub fn beneath_some(v: &Vec<NodePath>, p: &NodePath) -> (r: bool)
    ensures
        r == beneath_any(path_set(v@), p@),
{
    let mut i: usize = 0;
    while i < v.len()
        invariant
            i <= v.len(),
            forall|k: int| 0 <= k < i ==> !strictly_under(p@, #[trigger] v@[k]@),
        decreases v.len() - i,
    {
        if p.is_strictly_under(&v[i]) {
            assert(path_set(v@).contains(v@[i as int]@));
            return true;
        }
        i = i + 1;
    }
    assert forall|a: Seq<Seq<char>>| #[trigger] path_set(v@).contains(a) implies !strictly_under(p@, a) by {
        let k = choose|k: int| 0 <= k < v.len() && #[trigger] v@[k]@ == a;
    }
    false
}

/// True when `p` is in `v`.
pub fn contains_path(v: &Vec<NodePath>, p: &NodePath) -> (r: bool)
    ensures
        r == path_set(v@).contains(p@),
{
    let mut i: usize = 0;
    while i < v.len()
        invariant
            i <= v.len(),
            forall|k: int| 0 <= k < i ==> #[trigger] v@[k]@ != p@,
        decreases v.len() - i,
    {
        if v[i].equals(p) {
            return true;
        }
        i = i + 1;
    }
    false
}

/// Pushing a path adds its value to the set of paths.
pub proof fn lemma_path_set_push(v: Seq<NodePath>, p: NodePath)
    ensures
        path_set(v.push(p)) == path_set(v).insert(p@),
{
    let w = v.push(p);
    assert forall|q: Seq<Seq<char>>| path_set(v).contains(q) implies path_set(w).contains(q) by {
        let j = choose|j: int| 0 <= j < v.len() && #[trigger] v[j]@ == q;
        assert(w[j]@ == q);
    }
    assert(w[v.len() as int]@ == p@);
    assert forall|q: Seq<Seq<char>>| path_set(w).contains(q) implies path_set(v).insert(
        p@,
    ).contains(q) by {
        let k = choose|k: int| 0 <= k < w.len() && #[trigger] w[k]@ == q;
        if k < v.len() {
            assert(v[k]@ == q);
        }
    }
    assert(path_set(w) =~= path_set(v).insert(p@));
}

/// The paths of `v` that do not lie strictly beneath `p` (when `beneath`), or that
/// differ from `p` (otherwise).
fn keep_paths(v: &Vec<NodePath>, p: &NodePath, beneath: bool) -> (r: Vec<NodePath>)
    ensures
        beneath ==> path_set(r@) == path_set(v@).filter(|d: Seq<Seq<char>>| !strictly_under(d, p@)),
        !beneath ==> path_set(r@) == path_set(v@).remove(p@),
{
    let ghost keep = |d: Seq<Seq<char>>| if beneath { !strictly_under(d, p@) } else { d != p@ };
    let mut r: Vec<NodePath> = Vec::new();
    let mut i: usize = 0;
    assert(path_set(r@) =~= path_set(v@.subrange(0, 0)).filter(keep));
    while i < v.len()
        invariant
            i <= v.len(),
            keep == (|d: Seq<Seq<char>>| if beneath { !strictly_under(d, p@) } else { d != p@ }),
            path_set(r@) == path_set(v@.subrange(0, i as int)).filter(keep),
        decreases v.len() - i,
    {
        let ghost r0 = r@;
        proof {
            assert(v@.subrange(0, i + 1) =~= v@.subrange(0, i as int).push(v@[i as int]));
            lemma_path_set_push(v@.subrange(0, i as int), v@[i as int]);
        }
        let drop = if beneath { v[i].is_strictly_under(p) } else { v[i].equals(p) };
        if !drop {
            let c = v[i].copy();
            r.push(c);
            proof {
                lemma_path_set_push(r0, c);
                assert(r@ =~= r0.push(c));
            }
        }
        assert(path_set(r@) =~= path_set(v@.subrange(0, i + 1)).filter(keep));
        i = i + 1;
    }
    assert(v@.subrange(0, i as int) =~= v@);
    if beneath {
        assert(path_set(r@) =~= path_set(v@).filter(|d: Seq<Seq<char>>| !strictly_under(d, p@)));
    } else {
        assert(path_set(r@) =~= path_set(v@).remove(p@));
    }
    r
}

/// Pushes `p` onto `v`.
fn push_path(v: &mut Vec<NodePath>, p: &NodePath)
    ensures
        path_set(final(v)@) == path_set(old(v)@).insert(p@),
{
    let ghost before = v@;
    let c = p.copy();
    v.push(c);
    proof {
        lemma_path_set_push(before, c);
        assert(v@ =~= before.push(c));
    }
}

/// The paths explicitly selected, and the exceptions marked beneath selected directories.
pub struct Selection {
    selected: Vec<NodePath>,
    deselected: Vec<NodePath>,
}

impl View for Selection {
    type V = SelectionView;

    closed spec fn view(&self) -> SelectionView {
        SelectionView { selected: path_set(self.selected@), deselected: path_set(self.deselected@) }
    }
}

impl Selection {
    /// An empty selection.
    pub fn new() -> (r: Selection)
        ensures
            r@.selected == Set::<Seq<Seq<char>>>::empty(),
            r@.deselected == Set::<Seq<Seq<char>>>::empty(),
    {
        let r = Selection { selected: Vec::new(), deselected: Vec::new() };
        assert(r@.selected =~= Set::<Seq<Seq<char>>>::empty());
        assert(r@.deselected =~= Set::<Seq<Seq<char>>>::empty());
        r
    }

    /// The paths explicitly marked selected.
    pub fn selected_paths(&self) -> (r: &Vec<NodePath>)
        ensures
            path_set(r@) == self@.selected,
    {
        &self.selected
    }

    /// The paths marked as exceptions beneath a selected directory.
    pub fn deselected_paths(&self) -> (r: &Vec<NodePath>)
        ensures
            path_set(r@) == self@.deselected,
    {
        &self.deselected
    }

    /// True when nothing is explicitly selected.
    pub fn is_empty(&self) -> (r: bool)
        ensures
            r == (self@.selected == Set::<Seq<Seq<char>>>::empty()),
    {
        if self.selected.len() == 0 {
            assert(self@.selected =~= Set::<Seq<Seq<char>>>::empty());
            true
        } else {
            assert(self@.selected.contains(self.selected@[0]@));
            false
        }
    }

    /// True when some proper ancestor of `p` is explicitly selected.
    pub fn has_selected_ancestor(&self, p: &NodePath) -> (r: bool)
        ensures
            r == beneath_any(self@.selected, p@),
    {
        beneath_some(&self.selected, p)
    }

    /// True when `p` is effectively selected.
    pub fn is_effectively_selected(&self, p: &NodePath) -> (r: bool)
        ensures
            r == effective(self@, p@),
    {
        contains_path(&self.selected, p) || (self.has_selected_ancestor(p) && !contains_path(
            &self.deselected,
            p,
        ))
    }

    /// Toggles `p`: a path marked selected is unmarked, and the exceptions beneath it are
    /// dropped; a path selected through an ancestor flips its exception mark; any other
    /// path becomes marked selected.
    pub fn toggle(&mut self, p: &NodePath)
        ensures
            final(self)@ == toggled(old(self)@, p@),
    {
        if contains_path(&self.selected, p) {
            self.selected = keep_paths(&self.selected, p, false);
            self.deselected = keep_paths(&self.deselected, p, true);
        } else if self.has_selected_ancestor(p) {
            if contains_path(&self.deselected, p) {
                self.deselected = keep_paths(&self.deselected, p, false);
            } else {
                push_path(&mut self.deselected, p);
            }
        } else {
            push_path(&mut self.selected, p);
        }
    }

    /// True when `p` is an exception or lies beneath one.
    pub fn is_excepted(&self, p: &NodePath) -> (r: bool)
        ensures
            r == excepted(self@.deselected, p@),
    {
        excepted_by(&self.deselected, p)
    }

    /// The effective selection as a flat list of files: every file met by walking each
    /// selected path (a selected file is met as the root of its own walk), without those
    /// at or beneath an exception, each listed once.
    pub fn resolve_final_selection(&self) -> (r: Vec<NodePath>)
        ensures
            forall|k: int| 0 <= k < r.len() ==> within_selection(self@, #[trigger] r@[k]@),
            exists|walks: Seq<TreeWalk>| #[trigger] walks_of(self@, walks) && path_set(r@) == final_paths(
                self@.deselected,
                walks,
            ),
            forall|i: int, j: int| 0 <= i < j < r.len() ==> r@[i]@ != r@[j]@,
    {
        let mut walks: Vec<TreeWalk> = Vec::new();
        let mut i: usize = 0;
        while i < self.selected.len()
            invariant
                i <= self.selected.len(),
                forall|k: int| 0 <= k < walks.len() ==> self@.selected.contains(#[trigger] walks@[k].root@),
                forall|k: int| 0 <= k < walks.len() ==> !excepted(self@.deselected, #[trigger] walks@[k].root@),
                forall|j: int| 0 <= j < i && !excepted(self@.deselected, #[trigger] self.selected@[j]@)
                    ==> exists|k: int| 0 <= k < walks.len() && walks@[k].root@ == self.selected@[j]@,
            decreases self.selected.len() - i,
        {
            let ghost w0 = walks@;
            if !self.is_excepted(&self.selected[i]) {
                let root = self.selected[i].copy();
                let items = walk_tree(root.to_text().as_str());
                assert(self@.selected.contains(self.selected@[i as int]@));
                walks.push(TreeWalk { root, items });
                assert(walks@[w0.len() as int].root@ == self.selected@[i as int]@);
            }
            assert forall|j: int| 0 <= j < i + 1 && !excepted(self@.deselected, #[trigger] self.selected@[j]@)
                implies exists|k: int| 0 <= k < walks.len() && walks@[k].root@ == self.selected@[j]@ by {
                if j < i {
                    let k = choose|k: int| 0 <= k < w0.len() && w0[k].root@ == self.selected@[j]@;
                    assert(walks@[k] == w0[k]);
                } else {
                    assert(walks@[w0.len() as int].root@ == self.selected@[j]@);
                }
            }
            i = i + 1;
        }
        let r = resolve_walks(&walks, &self.deselected);
        assert(walks_of(self@, walks@)) by {
            assert forall|a: Seq<Seq<char>>| #[trigger] self@.selected.contains(a) && !excepted(self@.deselected, a)
                implies exists|k: int| 0 <= k < walks.len() && walks@[k].root@ == a by {
                let j = choose|j: int| 0 <= j < self.selected.len() && #[trigger] self.selected@[j]@ == a;
                assert(!excepted(self@.deselected, self.selected@[j]@));
            }
        }
        assert forall|k: int| 0 <= k < r.len() implies within_selection(self@, #[trigger] r@[k]@) by {
            assert(path_set(r@).contains(r@[k]@));
            assert(final_paths(path_set(self.deselected@), walks@).contains(r@[k]@));
            let (t, j) = choose|t: int, j: int| resolved_at(path_set(self.deselected@), walks@, t, j, r@[k]@);
            assert(self@.selected.contains(walks@[t].root@));
            assert(at_or_under(r@[k]@, walks@[t].root@));
        }
        r
    }

    /// Forgets every mark.
    pub fn clear(&mut self)
        ensures
            final(self)@.selected == Set::<Seq<Seq<char>>>::empty(),
            final(self)@.deselected == Set::<Seq<Seq<char>>>::empty(),
    {
        *self = Selection::new();
    }
}

/// `p` is an exception or lies beneath one.
pub open spec fn excepted(deselected: Set<Seq<Seq<char>>>, p: Seq<Seq<char>>) -> bool {
    exists|d: Seq<Seq<char>>| #[trigger] deselected.contains(d) && at_or_under(p, d)
}

/// `p` is a selected path or lies beneath one, and is neither an exception nor beneath one.
pub open spec fn within_selection(s: SelectionView, p: Seq<Seq<char>>) -> bool {
    &&& exists|a: Seq<Seq<char>>| #[trigger] s.selected.contains(a) && at_or_under(p, a)
    &&& !excepted(s.deselected, p)
}

/// True when `p` is one of the paths in `deselected` or lies beneath one.
pub fn excepted_by(deselected: &Vec<NodePath>, p: &NodePath) -> (r: bool)
    ensures
        r == excepted(path_set(deselected@), p@),
{
    let mut i: usize = 0;
    while i < deselected.len()
        invariant
            i <= deselected.len(),
            forall|k: int| 0 <= k < i ==> !at_or_under(p@, #[trigger] deselected@[k]@),
        decreases deselected.len() - i,
    {
        if p.starts_with(&deselected[i]) {
            assert(path_set(deselected@).contains(deselected@[i as int]@));
            return true;
        }
        i = i + 1;
    }
    assert forall|d: Seq<Seq<char>>| #[trigger] path_set(deselected@).contains(d) implies !at_or_under(p@, d) by {
        let k = choose|k: int| 0 <= k < deselected.len() && #[trigger] deselected@[k]@ == d;
    }
    false
}

/// The walk of the tree under one selected path.
#[derive(Debug)]
pub struct TreeWalk {
    pub root: NodePath,
    pub items: Vec<WalkItem>,
}

/// The path of item `j` of walk `t` is `p`, and it belongs to the final selection: it is a
/// file, and it is neither an exception nor beneath one.
pub open spec fn resolved_at(deselected: Set<Seq<Seq<char>>>, walks: Seq<TreeWalk>, t: int, j: int, p: Seq<Seq<char>>) -> bool {
    &&& 0 <= t < walks.len()
    &&& 0 <= j < walks[t].items.len()
    &&& well_placed(walks[t].items@[j])
    &&& !walks[t].items@[j].is_dir
    &&& p == walks[t].root@ + below_root(walks[t].items@[j])
    &&& !excepted(deselected, p)
}

/// `walks` holds one walk rooted at each selected path that is neither an exception nor
/// beneath one, and no other.
pub open spec fn walks_of(s: SelectionView, walks: Seq<TreeWalk>) -> bool {
    &&& forall|k: int| 0 <= k < walks.len() ==> s.selected.contains(#[trigger] walks[k].root@)
        && !excepted(s.deselected, walks[k].root@)
    &&& forall|a: Seq<Seq<char>>| #[trigger] s.selected.contains(a) && !excepted(s.deselected, a)
        ==> exists|k: int| 0 <= k < walks.len() && walks[k].root@ == a
}

/// The paths of the final selection that a list of walks gives.
pub open spec fn final_paths(deselected: Set<Seq<Seq<char>>>, walks: Seq<TreeWalk>) -> Set<Seq<Seq<char>>> {
    Set::new(|p: Seq<Seq<char>>| exists|t: int, j: int| resolved_at(deselected, walks, t, j, p))
}

/// Flattens walks of selected paths into the final list of files: every file item that
/// is neither an exception nor beneath one, each path once, in the order of the walks.
pub fn resolve_walks(walks: &Vec<TreeWalk>, deselected: &Vec<NodePath>) -> (r: Vec<NodePath>)
    ensures
        path_set(r@) == final_paths(path_set(deselected@), walks@),
        forall|i: int, j: int| 0 <= i < j < r.len() ==> r@[i]@ != r@[j]@,
{
    let ghost desel = path_set(deselected@);
    let mut r: Vec<NodePath> = Vec::new();
    let mut t: usize = 0;
    while t < walks.len()
        invariant
            t <= walks.len(),
            desel == path_set(deselected@),
            forall|p: Seq<Seq<char>>| path_set(r@).contains(p) <==> exists|u: int, j: int| u < t && #[trigger] resolved_at(desel, walks@, u, j, p),
            forall|a: int, b: int| 0 <= a < b < r.len() ==> r@[a]@ != r@[b]@,
        decreases walks.len() - t,
    {
        let w = &walks[t];
        let mut j: usize = 0;
        while j < w.items.len()
            invariant
                t < walks.len(),
                w == &walks@[t as int],
                j <= w.items.len(),
                desel == path_set(deselected@),
                    forall|p: Seq<Seq<char>>| path_set(r@).contains(p) <==> exists|u: int, i: int| (u < t || (u == t && i < j)) && #[trigger] resolved_at(desel, walks@, u, i, p),
                forall|a: int, b: int| 0 <= a < b < r.len() ==> r@[a]@ != r@[b]@,
            decreases w.items.len() - j,
        {
            let item = &w.items[j];
            let ghost r0 = r@;
            let ghost mut hit: Option<Seq<Seq<char>>> = None;
            if item.depth <= item.parts.len() && !item.is_dir {
                let rel = walk_rel_parts(item);
                let p = w.root.extended(&rel);
                if !excepted_by(deselected, &p) {
                    proof {
                        hit = Some(p@);
                    }
                    if !contains_path(&r, &p) {
                        r.push(p);
                        proof {
                            lemma_path_set_push(r0, r@[r.len() - 1]);
                            assert(r@ =~= r0.push(r@[r.len() - 1]));
                            assert forall|a: int, b: int| 0 <= a < b < r.len() implies r@[a]@ != r@[b]@ by {
                                if b == r.len() - 1 {
                                    assert(path_set(r0).contains(r0[a]@));
                                }
                            }
                        }
                    }
                    assert(path_set(r@) =~= path_set(r0).insert(p@));
                }
            }
            proof {
                if hit is None {
                    assert(r@ == r0);
                    assert forall|q: Seq<Seq<char>>| !resolved_at(desel, walks@, t as int, j as int, q) by {}
                } else {
                    assert(resolved_at(desel, walks@, t as int, j as int, hit->0));
                    assert forall|q: Seq<Seq<char>>| resolved_at(desel, walks@, t as int, j as int, q) implies q == hit->0 by {}
                }
                assert forall|q: Seq<Seq<char>>| path_set(r@).contains(q) implies exists|u: int, i: int| (u < t || (u == t && i < j + 1)) && #[trigger] resolved_at(desel, walks@, u, i, q) by {
                    if path_set(r0).contains(q) {
                        let (u, i) = choose|u: int, i: int| (u < t || (u == t && i < j)) && #[trigger] resolved_at(desel, walks@, u, i, q);
                        assert(resolved_at(desel, walks@, u, i, q));
                    } else {
                        assert(resolved_at(desel, walks@, t as int, j as int, q));
                    }
                }
                assert forall|q: Seq<Seq<char>>, u: int, i: int| (u < t || (u == t && i < j + 1)) && #[trigger] resolved_at(desel, walks@, u, i, q) implies path_set(r@).contains(q) by {
                    if u < t || i < j {
                        assert(path_set(r0).contains(q));
                    }
                }
            }
            j = j + 1;
        }
        t = t + 1;
    }
    assert(path_set(r@) =~= final_paths(desel, walks@));
    r
}

} // verus!
