use vstd::prelude::*;
use crate::path::NodePath;

verus! {

/// A value remembered for a directory.
#[derive(Debug)]
pub struct Memory<T> {
    pub dir: NodePath,
    pub value: T,
}

/// What a list of memories means: the map from each directory to the value remembered
/// last for it.
pub open spec fn memory_map<T>(v: Seq<Memory<T>>) -> Map<Seq<Seq<char>>, T>
    decreases v.len(),
{
    if v.len() == 0 {
        Map::empty()
    } else {
        memory_map(v.drop_last()).insert(v.last().dir@, v.last().value)
    }
}

/// Forgets what is remembered for `dir`.
pub fn forget<T>(v: &mut Vec<Memory<T>>, dir: &NodePath)
    ensures
        memory_map(final(v)@) == memory_map(old(v)@).remove(dir@),
{
    let mut rest: Vec<Memory<T>> = Vec::new();
    std::mem::swap(v, &mut rest);
    let ghost all = rest@;
    let ghost mut done: int = 0;
    assert(memory_map(v@) =~= memory_map(all.subrange(0, 0)).remove(dir@));
    while rest.len() > 0
        invariant
            0 <= done <= all.len(),
            rest@ == all.subrange(done, all.len() as int),
            memory_map(v@) == memory_map(all.subrange(0, done)).remove(dir@),
        decreases rest.len(),
    {
        let m = rest.remove(0);
        assert(all.subrange(0, done + 1).drop_last() =~= all.subrange(0, done));
        assert(all.subrange(0, done + 1).last() == m);
        if !m.dir.equals(dir) {
            let ghost v0 = v@;
            v.push(m);
            assert(v@.drop_last() =~= v0);
            assert(memory_map(v@) =~= memory_map(all.subrange(0, done + 1)).remove(dir@));
        } else {
            assert(memory_map(v@) =~= memory_map(all.subrange(0, done + 1)).remove(dir@));
        }
        proof {
            done = done + 1;
        }
        assert(rest@ =~= all.subrange(done, all.len() as int));
    }
    assert(all.subrange(0, done) =~= all);
}

/// Remembers `value` for `dir`, in place of what was remembered for it before.
pub fn remember<T>(v: &mut Vec<Memory<T>>, dir: NodePath, value: T)
    ensures
        memory_map(final(v)@) == memory_map(old(v)@).insert(dir@, value),
{
    forget(v, &dir);
    let ghost v0 = v@;
    let ghost key = dir@;
    v.push(Memory { dir, value });
    assert(v@.drop_last() =~= v0);
    assert(memory_map(v@) =~= memory_map(old(v)@).insert(key, value));
}

/// What is remembered for `dir`, if anything.
pub fn recall<'a, T>(v: &'a Vec<Memory<T>>, dir: &NodePath) -> (r: Option<&'a T>)
    ensures
        memory_map(v@).contains_key(dir@) ==> r == Some(&memory_map(v@)[dir@]),
        !memory_map(v@).contains_key(dir@) ==> r is None,
{
    let mut i: usize = v.len();
    assert(v@.subrange(0, i as int) =~= v@);
    while i > 0
        invariant
            i <= v.len(),
            memory_map(v@).contains_key(dir@) == memory_map(v@.subrange(0, i as int)).contains_key(dir@),
            memory_map(v@).contains_key(dir@) ==> memory_map(v@)[dir@] == memory_map(
                v@.subrange(0, i as int),
            )[dir@],
        decreases i,
    {
        assert(v@.subrange(0, i as int).drop_last() =~= v@.subrange(0, i - 1));
        assert(v@.subrange(0, i as int).last() == v@[i - 1]);
        if v[i - 1].dir.equals(dir) {
            return Some(&v[i - 1].value);
        }
        i = i - 1;
    }
    None
}

} // verus!
