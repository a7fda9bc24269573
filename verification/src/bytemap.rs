use vstd::prelude::*;

verus! {

/// Association list from byte-string keys to values, with pairwise distinct
/// keys, abstracted as a `Map<Seq<u8>, V>`.
pub struct ByteMap<V> {
    entries: Vec<(Vec<u8>, V)>,
}

/// The map denoted by a sequence of key-value pairs; a later pair overrides
/// an earlier one with the same key.
pub open spec fn byte_map_of<V>(s: Seq<(Vec<u8>, V)>) -> Map<Seq<u8>, V>
    decreases s.len(),
{
    if s.len() == 0 {
        Map::<Seq<u8>, V>::empty()
    } else {
        byte_map_of(s.drop_last()).insert(s.last().0@, s.last().1)
    }
}

/// No two entries share a key.
pub open spec fn unique_byte_keys<V>(s: Seq<(Vec<u8>, V)>) -> bool {
    forall|i: int, j: int| 0 <= i < j < s.len() ==> (#[trigger] s[i]).0@ != (#[trigger] s[j]).0@
}

/// Byte-for-byte equality of two byte strings.
pub fn bytes_eq(a: &Vec<u8>, b: &Vec<u8>) -> (r: bool)
    ensures
        r == (a@ == b@),
{
    if a.len() != b.len() {
        return false;
    }
    let mut i: usize = 0;
    while i < a.len()
        invariant
            a@.len() == b@.len(),
            i <= a@.len(),
            forall|j: int| 0 <= j < i ==> a@[j] == b@[j],
        decreases a@.len() - i,
    {
        if a[i] != b[i] {
            return false;
        }
        i = i + 1;
    }
    proof {
        assert(a@ =~= b@);
    }
    true
}

/// A copy of a byte string, byte for byte.
pub fn clone_bytes(v: &Vec<u8>) -> (r: Vec<u8>)
    ensures
        r@ == v@,
{
    let r = v.clone();
    proof {
        assert forall|i: int| 0 <= i < v@.len() implies r@[i] == v@[i] by {
            assert(cloned::<u8>(v@[i], r@[i]));
        }
        assert(r@ =~= v@);
    }
    r
}

proof fn lemma_byte_map_of_dom<V>(s: Seq<(Vec<u8>, V)>, k: Seq<u8>)
    ensures
        byte_map_of(s).contains_key(k) <==> exists|i: int| 0 <= i < s.len() && (#[trigger] s[i]).0@ == k,
    decreases s.len(),
{
    if s.len() == 0 {
    } else {
        lemma_byte_map_of_dom(s.drop_last(), k);
        if byte_map_of(s).contains_key(k) {
            if s.last().0@ == k {
                assert(s[s.len() - 1].0@ == k);
            } else {
                let i = choose|i: int| 0 <= i < s.drop_last().len() && (#[trigger] s.drop_last()[i]).0@ == k;
                assert(s[i].0@ == k);
            }
        }
        if exists|i: int| 0 <= i < s.len() && (#[trigger] s[i]).0@ == k {
            let i = choose|i: int| 0 <= i < s.len() && (#[trigger] s[i]).0@ == k;
            if i < s.len() - 1 {
                assert(s.drop_last()[i].0@ == k);
            }
        }
    }
}

proof fn lemma_byte_map_of_index<V>(s: Seq<(Vec<u8>, V)>, i: int)
    requires
        unique_byte_keys(s),
        0 <= i < s.len(),
    ensures
        byte_map_of(s).contains_key(s[i].0@),
        byte_map_of(s)[s[i].0@] == s[i].1,
    decreases s.len(),
{
    if i == s.len() - 1 {
    } else {
        lemma_unique_byte_drop_last(s);
        assert(s.drop_last()[i] == s[i]);
        lemma_byte_map_of_index(s.drop_last(), i);
        assert(s.last().0@ != s[i].0@);
    }
}

proof fn lemma_unique_byte_drop_last<V>(s: Seq<(Vec<u8>, V)>)
    requires
        unique_byte_keys(s),
        s.len() > 0,
    ensures
        unique_byte_keys(s.drop_last()),
{
    assert(forall|a: int| 0 <= a < s.drop_last().len() ==> #[trigger] s.drop_last()[a] == s[a]);
}

proof fn lemma_byte_map_of_remove<V>(s: Seq<(Vec<u8>, V)>, i: int)
    requires
        unique_byte_keys(s),
        0 <= i < s.len(),
    ensures
        unique_byte_keys(s.remove(i)),
        byte_map_of(s.remove(i)) == byte_map_of(s).remove(s[i].0@),
    decreases s.len(),
{
    let k = s[i].0@;
    let t = s.remove(i);
    assert(forall|a: int| 0 <= a < i ==> #[trigger] t[a] == s[a]);
    assert(forall|a: int| i <= a < t.len() ==> #[trigger] t[a] == s[a + 1]);
    assert(unique_byte_keys(t));
    if i == s.len() - 1 {
        assert(t =~= s.drop_last());
        lemma_unique_byte_drop_last(s);
        lemma_byte_map_of_dom(s.drop_last(), k);
        assert(!byte_map_of(s.drop_last()).contains_key(k));
        assert(byte_map_of(s.drop_last()) =~= byte_map_of(s).remove(k));
    } else {
        lemma_unique_byte_drop_last(s);
        lemma_byte_map_of_remove(s.drop_last(), i);
        assert(t.drop_last() =~= s.drop_last().remove(i));
        assert(t.last() == s.last());
        assert(byte_map_of(t) == byte_map_of(s.drop_last()).remove(k).insert(s.last().0@, s.last().1));
        assert(s.last().0@ != k);
        assert(byte_map_of(s.drop_last()).remove(k).insert(s.last().0@, s.last().1)
            =~= byte_map_of(s.drop_last()).insert(s.last().0@, s.last().1).remove(k));
    }
}

impl<V> View for ByteMap<V> {
    type V = Map<Seq<u8>, V>;

    closed spec fn view(&self) -> Map<Seq<u8>, V> {
        byte_map_of(self.entries@)
    }
}

impl<V> ByteMap<V> {
    /// The uniqueness invariant; established by `new` and preserved by every
    /// mutating operation.
    pub closed spec fn wf(&self) -> bool {
        unique_byte_keys(self.entries@)
    }

    pub fn new() -> (r: Self)
        ensures
            r.wf(),
            r@ == Map::<Seq<u8>, V>::empty(),
    {
        ByteMap { entries: Vec::new() }
    }

    fn find(&self, k: &Vec<u8>) -> (r: Option<usize>)
        ensures
            match r {
                Some(i) => i < self.entries@.len() && self.entries@[i as int].0@ == k@,
                None => forall|i: int| 0 <= i < self.entries@.len() ==> (#[trigger] self.entries@[i]).0@ != k@,
            },
    {
        let mut i: usize = 0;
        while i < self.entries.len()
            invariant
                i <= self.entries@.len(),
                forall|j: int| 0 <= j < i ==> (#[trigger] self.entries@[j]).0@ != k@,
            decreases self.entries@.len() - i,
        {
            if bytes_eq(&self.entries[i].0, k) {
                return Some(i);
            }
            i = i + 1;
        }
        None
    }

    pub fn contains_key(&self, k: &Vec<u8>) -> (r: bool)
        requires
            self.wf(),
        ensures
            r == self@.contains_key(k@),
    {
        proof {
            lemma_byte_map_of_dom(self.entries@, k@);
        }
        match self.find(k) {
            Some(_) => true,
            None => false,
        }
    }

    pub fn get(&self, k: &Vec<u8>) -> (r: Option<&V>)
        requires
            self.wf(),
        ensures
            match r {
                Some(v) => self@.contains_key(k@) && *v == self@[k@],
                None => !self@.contains_key(k@),
            },
    {
        proof {
            lemma_byte_map_of_dom(self.entries@, k@);
        }
        match self.find(k) {
            Some(i) => {
                proof {
                    lemma_byte_map_of_index(self.entries@, i as int);
                }
                Some(&self.entries[i].1)
            }
            None => None,
        }
    }

    pub fn insert(&mut self, k: Vec<u8>, v: V)
        requires
            old(self).wf(),
        ensures
            final(self).wf(),
            final(self)@ == old(self)@.insert(k@, v),
    {
        match self.find(&k) {
            Some(i) => {
                proof {
                    lemma_byte_map_of_remove(self.entries@, i as int);
                    lemma_byte_map_of_dom(self.entries@.remove(i as int), k@);
                }
                let _ = self.entries.remove(i);
            }
            None => {
                proof {
                    lemma_byte_map_of_dom(self.entries@, k@);
                }
            }
        }
        let ghost mid = self.entries@;
        self.entries.push((k, v));
        proof {
            assert(self.entries@.drop_last() =~= mid);
            assert(forall|a: int| 0 <= a < mid.len() ==> (#[trigger] mid[a]).0@ != self.entries@.last().0@) by {
                lemma_byte_map_of_dom(mid, self.entries@.last().0@);
            }
            assert(unique_byte_keys(self.entries@)) by {
                assert(forall|a: int| 0 <= a < mid.len() ==> #[trigger] self.entries@[a] == mid[a]);
            }
            assert(byte_map_of(self.entries@) =~= old(self)@.insert(self.entries@.last().0@, self.entries@.last().1));
        }
    }

    pub fn remove(&mut self, k: &Vec<u8>) -> (r: Option<V>)
        requires
            old(self).wf(),
        ensures
            final(self).wf(),
            match r {
                Some(v) => old(self)@.contains_key(k@) && v == old(self)@[k@]
                    && final(self)@ == old(self)@.remove(k@),
                None => !old(self)@.contains_key(k@) && *final(self) == *old(self),
            },
    {
        proof {
            lemma_byte_map_of_dom(self.entries@, k@);
        }
        match self.find(k) {
            Some(i) => {
                proof {
                    lemma_byte_map_of_index(self.entries@, i as int);
                    lemma_byte_map_of_remove(self.entries@, i as int);
                }
                Some(self.entries.remove(i).1)
            }
            None => None,
        }
    }
}

} // verus!
