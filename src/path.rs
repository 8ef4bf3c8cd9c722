use vstd::prelude::*;

verus! {

/// The characters of each string of a sequence.
pub open spec fn texts(v: Seq<String>) -> Seq<Seq<char>> {
    v.map_values(|s: String| s@)
}

/// True when `base` is a prefix of `p`: `p` is `base` itself or lies beneath it.
pub open spec fn at_or_under(p: Seq<Seq<char>>, base: Seq<Seq<char>>) -> bool {
    &&& base.len() <= p.len()
    &&& forall|i: int| 0 <= i < base.len() ==> #[trigger] p[i] == base[i]
}

/// True when `p` lies strictly beneath `base`.
pub open spec fn strictly_under(p: Seq<Seq<char>>, base: Seq<Seq<char>>) -> bool {
    at_or_under(p, base) && base.len() < p.len()
}

/// The text of an absolute path: `/` followed by its components joined with `/`.
pub open spec fn path_text(p: Seq<Seq<char>>) -> Seq<char>
    decreases p.len(),
{
    if p.len() == 0 {
        seq!['/']
    } else if p.len() == 1 {
        seq!['/'] + p[0]
    } else {
        path_text(p.drop_last()) + seq!['/'] + p.last()
    }
}

/// An absolute path of the file system, held as its components below the root.
#[derive(Debug, PartialEq, Eq)]
pub struct NodePath {
    pub parts: Vec<String>,
}

impl View for NodePath {
    type V = Seq<Seq<char>>;

    open spec fn view(&self) -> Seq<Seq<char>> {
        self.parts@.map_values(|s: String| s@)
    }
}

/// Compares two strings by their characters.
pub fn same_text(a: &String, b: &String) -> (r: bool)
    ensures
        r == (a@ == b@),
{
    a.eq(b)
}

/// A copy of a string with the same characters.
pub fn copy_text(s: &String) -> (r: String)
    ensures
        r@ == s@,
{
    s.clone()
}

impl NodePath {
    /// The root directory.
    pub fn root() -> (r: NodePath)
        ensures
            r@ == Seq::<Seq<char>>::empty(),
    {
        let r = NodePath { parts: Vec::new() };
        assert(r@ =~= Seq::<Seq<char>>::empty());
        r
    }

    /// The path whose components below the root are `parts`.
    pub fn from_parts(parts: Vec<String>) -> (r: NodePath)
        ensures
            r@ == parts@.map_values(|s: String| s@),
    {
        NodePath { parts }
    }

    pub fn copy(&self) -> (r: NodePath)
        ensures
            r@ == self@,
    {
        let mut parts: Vec<String> = Vec::new();
        let mut i: usize = 0;
        while i < self.parts.len()
            invariant
                i <= self.parts.len(),
                parts@.len() == i,
                forall|k: int| 0 <= k < i ==> #[trigger] parts@[k]@ == self.parts@[k]@,
            decreases self.parts.len() - i,
        {
            parts.push(copy_text(&self.parts[i]));
            i = i + 1;
        }
        let r = NodePath { parts };
        assert(r@ =~= self@);
        r
    }

    /// Number of components below the root.
    pub fn depth(&self) -> (r: usize)
        ensures
            r == self@.len(),
    {
        self.parts.len()
    }

    /// True when `self` is `base` itself or lies beneath it.
    pub fn starts_with(&self, base: &NodePath) -> (r: bool)
        ensures
            r == at_or_under(self@, base@),
    {
        if base.parts.len() > self.parts.len() {
            return false;
        }
        let mut i: usize = 0;
        while i < base.parts.len()
            invariant
                base.parts.len() <= self.parts.len(),
                i <= base.parts.len(),
                forall|k: int| 0 <= k < i ==> #[trigger] self@[k] == base@[k],
            decreases base.parts.len() - i,
        {
            if !same_text(&self.parts[i], &base.parts[i]) {
                assert(self@[i as int] != base@[i as int]);
                return false;
            }
            i = i + 1;
        }
        true
    }

    /// True when both paths have the same components.
    pub fn equals(&self, other: &NodePath) -> (r: bool)
        ensures
            r == (self@ == other@),
    {
        if self.parts.len() != other.parts.len() {
            assert(self@.len() != other@.len());
            return false;
        }
        let r = self.starts_with(other);
        if r {
            assert(self@ =~= other@);
        }
        r
    }

    /// True when `self` lies strictly beneath `base`.
    pub fn is_strictly_under(&self, base: &NodePath) -> (r: bool)
        ensures
            r == strictly_under(self@, base@),
    {
        base.parts.len() < self.parts.len() && self.starts_with(base)
    }

    /// The path of the entry `name` inside this directory.
    pub fn join(&self, name: &String) -> (r: NodePath)
        ensures
            r@ == self@.push(name@),
    {
        let mut r = self.copy();
        r.parts.push(copy_text(name));
        assert(r@ =~= self@.push(name@));
        r
    }

    /// The parent directory, or `None` at the root.
    pub fn parent(&self) -> (r: Option<NodePath>)
        ensures
            self@.len() == 0 <==> r is None,
            r matches Some(p) ==> p@ == self@.drop_last(),
    {
        if self.parts.len() == 0 {
            return None;
        }
        let mut r = self.copy();
        r.parts.pop();
        assert(r@ =~= self@.drop_last());
        Some(r)
    }

    /// The text of the path, such as `/home/user/notes.txt`.
    pub fn to_text(&self) -> (r: String)
        ensures
            r@ == path_text(self@),
    {
        let mut r = String::from_str("/");
        proof {
            reveal_strlit("/");
        }
        if self.parts.len() == 0 {
            assert(r@ =~= path_text(self@));
            return r;
        }
        r.append(self.parts[0].as_str());
        assert(self@.subrange(0, 1).drop_last() =~= Seq::<Seq<char>>::empty());
        assert(r@ =~= path_text(self@.subrange(0, 1)));
        let mut i: usize = 1;
        while i < self.parts.len()
            invariant
                1 <= i <= self.parts.len(),
                r@ == path_text(self@.subrange(0, i as int)),
            decreases self.parts.len() - i,
        {
            proof {
                reveal_strlit("/");
            }
            r.append("/");
            r.append(self.parts[i].as_str());
            assert(self@.subrange(0, i + 1).drop_last() =~= self@.subrange(0, i as int));
            i = i + 1;
        }
        assert(self@.subrange(0, i as int) =~= self@);
        r
    }

    /// The path reached from this one by descending through `rel`.
    pub fn extended(&self, rel: &Vec<String>) -> (r: NodePath)
        ensures
            r@ == self@ + rel@.map_values(|s: String| s@),
    {
        let mut r = self.copy();
        let mut i: usize = 0;
        while i < rel.len()
            invariant
                i <= rel.len(),
                r@ == self@ + rel@.subrange(0, i as int).map_values(|s: String| s@),
            decreases rel.len() - i,
        {
            let ghost r0 = r@;
            r.parts.push(copy_text(&rel[i]));
            assert(r@ =~= r0.push(rel@[i as int]@));
            assert(rel@.subrange(0, i + 1).map_values(|s: String| s@) =~= rel@.subrange(
                0,
                i as int,
            ).map_values(|s: String| s@).push(rel@[i as int]@));
            i = i + 1;
        }
        assert(rel@.subrange(0, i as int) =~= rel@);
        r
    }
}

/// Components of a relative path joined with `/`.
pub open spec fn joined(p: Seq<Seq<char>>) -> Seq<char>
    decreases p.len(),
{
    if p.len() == 0 {
        Seq::empty()
    } else if p.len() == 1 {
        p[0]
    } else {
        joined(p.drop_last()) + seq!['/'] + p.last()
    }
}

/// The text of a relative path made of the components `rel`, such as `src/main.rs`.
pub fn join_parts(rel: &Vec<String>) -> (r: String)
    ensures
        r@ == joined(rel@.map_values(|s: String| s@)),
{
    let ghost v = rel@.map_values(|s: String| s@);
    let mut r = String::new();
    if rel.len() == 0 {
        assert(r@ =~= joined(v));
        return r;
    }
    r.append(rel[0].as_str());
    assert(v.subrange(0, 1).drop_last() =~= Seq::<Seq<char>>::empty());
    assert(r@ =~= joined(v.subrange(0, 1)));
    let mut i: usize = 1;
    while i < rel.len()
        invariant
            1 <= i <= rel.len(),
            v == rel@.map_values(|s: String| s@),
            r@ == joined(v.subrange(0, i as int)),
        decreases rel.len() - i,
    {
        proof {
            reveal_strlit("/");
        }
        r.append("/");
        r.append(rel[i].as_str());
        assert(v.subrange(0, i + 1).drop_last() =~= v.subrange(0, i as int));
        i = i + 1;
    }
    assert(v.subrange(0, i as int) =~= v);
    r
}

} // verus!
