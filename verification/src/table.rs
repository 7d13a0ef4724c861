use vstd::prelude::*;

verus! {

/// The shared key-value table: string keys mapped to byte-sequence values.
///
/// Bindings are kept as an association list in insertion order; a later
/// binding for a key supersedes every earlier one, so the abstract content
/// is a map. Mutual exclusion around a shared instance is the caller's
/// affair (one lock around the whole table); the methods here are the
/// critical sections themselves.
pub struct Table {
    entries: Vec<(String, Vec<u8>)>,
}

impl Table {
    /// The mathematical content of a binding list: later bindings win.
    pub closed spec fn map_of(s: Seq<(String, Vec<u8>)>) -> Map<Seq<char>, Seq<u8>>
        decreases s.len(),
    {
        if s.len() == 0 {
            Map::empty()
        } else {
            Self::map_of(s.drop_last()).insert(s.last().0@, s.last().1@)
        }
    }

    /// A table is viewed as the map it currently represents.
    pub closed spec fn view(&self) -> Map<Seq<char>, Seq<u8>> {
        Self::map_of(self.entries@)
    }

    /// An empty table, created once at server start and then shared.
    pub fn new() -> (t: Table)
        ensures
            t@ == Map::<Seq<char>, Seq<u8>>::empty(),
    {
        Table { entries: Vec::new() }
    }

    /// Insert or replace: after the call the table holds exactly `value`
    /// under `key`, and every other key is untouched. Always succeeds.
    pub fn set(&mut self, key: String, value: Vec<u8>)
        ensures
            final(self)@ == old(self)@.insert(key@, value@),
    {
        self.entries.push((key, value));
        proof {
            assert(self.entries@.drop_last() =~= old(self).entries@);
        }
    }

    /// Look the key up: the current value, or `None` when the key is absent.
    /// Never fails and never changes the table.
    pub fn get(&self, key: &String) -> (r: Option<&Vec<u8>>)
        ensures
            r matches Some(v) ==> self@.contains_key(key@) && v@ == self@[key@],
            r is None ==> !self@.contains_key(key@),
    {
        let n = self.entries.len();
        let mut i: usize = 0;
        let mut best: Option<usize> = None;
        while i < n
            invariant
                i <= n,
                n == self.entries.len(),
                best matches Some(b) ==> b < i && self.entries@[b as int].0@ == key@
                    && Self::map_of(self.entries@.take(i as int)).contains_key(key@)
                    && Self::map_of(self.entries@.take(i as int))[key@]
                        == self.entries@[b as int].1@,
                best is None ==> !Self::map_of(self.entries@.take(i as int)).contains_key(key@),
            decreases n - i,
        {
            proof {
                assert(self.entries@.take(i + 1).drop_last() =~= self.entries@.take(i as int));
                assert(self.entries@.take(i + 1).last() == self.entries@[i as int]);
            }
            if self.entries[i].0 == *key {
                best = Some(i);
            }
            i += 1;
        }
        proof {
            assert(self.entries@.take(n as int) =~= self.entries@);
        }
        match best {
            Some(b) => Some(&self.entries[b].1),
            None => None,
        }
    }
}

/// Copy a byte sequence wholesale: values are immutable once stored and are
/// replaced, never edited in place, so reads hand out fresh copies.
pub fn copy_bytes(v: &Vec<u8>) -> (r: Vec<u8>)
    ensures
        r@ == v@,
{
    let n = v.len();
    let mut r: Vec<u8> = Vec::new();
    let mut i: usize = 0;
    while i < n
        invariant
            i <= n,
            n == v.len(),
            r@ == v@.take(i as int),
        decreases n - i,
    {
        r.push(v[i]);
        proof {
            assert(v@.take(i + 1) =~= v@.take(i as int).push(v@[i as int]));
        }
        i += 1;
    }
    proof {
        assert(v@.take(n as int) =~= v@);
    }
    r
}

} // verus!
