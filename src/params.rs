//! Host type identifiers, interned keys, and the type-keyed parameter bag.

use vstd::prelude::*;

verus! {

/// Identifier of a host-language type.
#[derive(Clone, Copy, Debug, PartialEq, Eq, Hash, PartialOrd, Ord, Structural)]
pub struct TypeId(pub u64);

/// An interned host value together with the type it carries.
#[derive(Clone, Copy, Debug, PartialEq, Eq, Hash, Structural)]
pub struct Key {
    pub id: u64,
    pub type_id: TypeId,
}

/// Host values are handled through their interned keys.
pub type Value = Key;

/// Keys strictly ordered by type id: at most one key of each type.
pub open spec fn sorted_by_type(s: Seq<Key>) -> bool {
    forall|i: int, j: int| 0 <= i < j < s.len() ==> s[i].type_id.0 < s[j].type_id.0
}

/// `s` with `k` in place of any key of the same type.
pub open spec fn put_set(s: Set<Key>, k: Key) -> Set<Key> {
    s.filter(|x: Key| x.type_id != k.type_id).insert(k)
}

/// A set of keys in which no two keys share a type.
pub open spec fn one_per_type(s: Set<Key>) -> bool {
    forall|a: Key, b: Key| s.contains(a) && s.contains(b) && a.type_id == b.type_id ==> a == b
}

/// A bag of typed parameters, kept ordered by type id.
#[derive(Clone, Debug, Eq, Hash)]
pub struct Params {
    keys: Vec<Key>,
}

impl PartialEq for Params {
    fn eq(&self, o: &Params) -> (r: bool) {
        keys_equal(&self.keys, &o.keys)
    }
}

impl vstd::std_specs::cmp::PartialEqSpecImpl for Params {
    open spec fn obeys_eq_spec() -> bool {
        true
    }

    open spec fn eq_spec(&self, o: &Params) -> bool {
        self.keys_seq() == o.keys_seq()
    }
}

/// Whether two key sequences are equal, element by element.
fn keys_equal(a: &Vec<Key>, b: &Vec<Key>) -> (r: bool)
    ensures
        r == (a@ == b@),
{
    if a.len() != b.len() {
        return false;
    }
    let mut i: usize = 0;
    while i < a.len()
        invariant
            a@.len() == b@.len(),
            i <= a@.len(),
            forall|j: int| 0 <= j < i ==> a@[j] == b@[j],
        decreases a@.len() - i,
    {
        if a[i] != b[i] {
            return false;
        }
        i = i + 1;
    }
    assert(a@ =~= b@);
    true
}

impl View for Params {
    type V = Set<Key>;

    closed spec fn view(&self) -> Set<Key> {
        self.keys@.to_set()
    }
}

/// Two type-ordered sequences that hold the same keys are the same sequence.
pub proof fn lemma_sorted_same_keys_equal(a: Seq<Key>, b: Seq<Key>)
    requires
        sorted_by_type(a),
        sorted_by_type(b),
        forall|k: Key| a.contains(k) <==> b.contains(k),
    ensures
        a == b,
    decreases a.len(),
{
    if a.len() == 0 {
        if b.len() > 0 {
            assert(b.contains(b[0]));
        }
        assert(a =~= b);
    } else {
        assert(a.contains(a[0]));
        assert(b.len() > 0);
        assert(b.contains(b[0]));
        let j = choose|j: int| 0 <= j < b.len() && b[j] == a[0];
        let i = choose|i: int| 0 <= i < a.len() && a[i] == b[0];
        assert(a[0] == b[0]) by {
            if j > 0 {
                assert(b[0].type_id.0 < b[j].type_id.0);
                if i > 0 {
                    assert(a[0].type_id.0 < a[i].type_id.0);
                }
            }
        }
        let a1 = a.drop_first();
        let b1 = b.drop_first();
        assert forall|k: Key| a1.contains(k) <==> b1.contains(k) by {
            if a1.contains(k) {
                let p = choose|p: int| 0 <= p < a1.len() && a1[p] == k;
                assert(a[p + 1] == k);
                assert(a.contains(k));
                let q = choose|q: int| 0 <= q < b.len() && b[q] == k;
                if q == 0 {
                    assert(a[0].type_id.0 < a[p + 1].type_id.0);
                }
                assert(b1[q - 1] == k);
            }
            if b1.contains(k) {
                let p = choose|p: int| 0 <= p < b1.len() && b1[p] == k;
                assert(b[p + 1] == k);
                assert(b.contains(k));
                let q = choose|q: int| 0 <= q < a.len() && a[q] == k;
                if q == 0 {
                    assert(b[0].type_id.0 < b[p + 1].type_id.0);
                }
                assert(a1[q - 1] == k);
            }
        }
        lemma_sorted_same_keys_equal(a1, b1);
        assert(a =~= b1.insert(0, b[0]));
        assert(b =~= b1.insert(0, b[0]));
    }
}

impl Params {
    /// The keys are ordered by type, so no type occurs twice.
    pub closed spec fn wf(&self) -> bool {
        sorted_by_type(self.keys@)
    }

    /// The keys in type order: what bag equality compares.
    pub closed spec fn keys_seq(&self) -> Seq<Key> {
        self.keys@
    }

    /// Well-formed bags that hold the same keys compare equal.
    pub proof fn lemma_same_view_equal(a: Params, b: Params)
        requires
            a.wf(),
            b.wf(),
            a@ == b@,
        ensures
            a.keys_seq() == b.keys_seq(),
    {
        assert forall|k: Key| a.keys@.contains(k) <==> b.keys@.contains(k) by {
            assert(a@.contains(k) == a.keys@.contains(k));
            assert(b@.contains(k) == b.keys@.contains(k));
        }
        lemma_sorted_same_keys_equal(a.keys@, b.keys@);
        assert(a.keys@ == b.keys@);
    }

    /// A well-formed bag holds at most one key of each type.
    pub proof fn lemma_one_per_type(&self)
        requires
            self.wf(),
        ensures
            one_per_type(self@),
    {
        assert forall|a: Key, b: Key|
            self@.contains(a) && self@.contains(b) && a.type_id == b.type_id implies a == b by {
            let i = choose|i: int| 0 <= i < self.keys@.len() && self.keys@[i] == a;
            let j = choose|j: int| 0 <= j < self.keys@.len() && self.keys@[j] == b;
            if i < j {
                assert(self.keys@[i].type_id.0 < self.keys@[j].type_id.0);
            } else if j < i {
                assert(self.keys@[j].type_id.0 < self.keys@[i].type_id.0);
            }
        }
    }

    /// A copy of this bag.
    pub fn duplicate(&self) -> (r: Params)
        ensures
            r.wf() == self.wf(),
            r@ == self@,
            r.keys_seq() == self.keys_seq(),
    {
        let mut keys: Vec<Key> = Vec::new();
        let mut i: usize = 0;
        while i < self.keys.len()
            invariant
                i <= self.keys@.len(),
                keys@ == self.keys@.subrange(0, i as int),
            decreases self.keys@.len() - i,
        {
            keys.push(self.keys[i]);
            i = i + 1;
            proof {
                assert(keys@ =~= self.keys@.subrange(0, i as int));
            }
        }
        proof {
            assert(keys@ =~= self.keys@);
        }
        Params { keys }
    }

    /// The number of keys.
    pub fn len(&self) -> (r: usize)
        ensures
            r == self.keys_seq().len(),
    {
        self.keys.len()
    }

    /// The key at position `i` in type order.
    pub fn key_at(&self, i: usize) -> (r: Key)
        requires
            i < self.keys_seq().len(),
        ensures
            r == self.keys_seq()[i as int],
    {
        self.keys[i]
    }

    /// An empty bag.
    pub fn new() -> (r: Params)
        ensures
            r.wf(),
            r@ == Set::<Key>::empty(),
    {
        let r = Params { keys: Vec::new() };
        assert(r@ =~= Set::<Key>::empty());
        r
    }

    /// A bag of the given keys; where two share a type, the later one stays.
    pub fn from_keys(keys: Vec<Key>) -> (r: Params)
        ensures
            r.wf(),
            forall|k: Key| r@.contains(k) <==> (exists|i: int|
                0 <= i < keys@.len() && keys@[i] == k
                && forall|j: int| i < j < keys@.len() ==> keys@[j].type_id != k.type_id),
    {
        let mut r = Params::new();
        let mut n: usize = 0;
        while n < keys.len()
            invariant
                n <= keys@.len(),
                r.wf(),
                forall|k: Key| r@.contains(k) <==> (exists|i: int|
                    0 <= i < n && keys@[i] == k
                    && forall|j: int| i < j < n ==> keys@[j].type_id != k.type_id),
            decreases keys@.len() - n,
        {
            let k = keys[n];
            let ghost before = r@;
            r.put(k);
            proof {
                assert forall|x: Key| r@.contains(x) <==> (exists|i: int|
                    0 <= i < n + 1 && keys@[i] == x
                    && forall|j: int| i < j < n + 1 ==> keys@[j].type_id != x.type_id) by {
                    if r@.contains(x) {
                        if x == k {
                            assert(0 <= n < n + 1 && keys@[n as int] == x);
                        } else {
                            assert(before.contains(x) && x.type_id != k.type_id);
                            let i = choose|i: int|
                                0 <= i < n && keys@[i] == x
                                && forall|j: int| i < j < n ==> keys@[j].type_id != x.type_id;
                            assert(forall|j: int| i < j < n + 1 ==> keys@[j].type_id != x.type_id);
                        }
                    }
                    if exists|i: int|
                        0 <= i < n + 1 && keys@[i] == x
                        && forall|j: int| i < j < n + 1 ==> keys@[j].type_id != x.type_id {
                        let i = choose|i: int|
                            0 <= i < n + 1 && keys@[i] == x
                            && forall|j: int| i < j < n + 1 ==> keys@[j].type_id != x.type_id;
                        if i < n {
                            assert(keys@[n as int].type_id != x.type_id);
                            assert(before.contains(x));
                        }
                    }
                }
            }
            n = n + 1;
        }
        r
    }

    /// Adds `k`, replacing any key of the same type.
    pub fn put(&mut self, k: Key)
        requires
            old(self).wf(),
        ensures
            final(self).wf(),
            final(self)@ == put_set(old(self)@, k),
    {
        let ghost s = self.keys@;
        let mut i: usize = 0;
        while i < self.keys.len() && self.keys[i].type_id.0 < k.type_id.0
            invariant
                self.keys@ == s,
                i <= s.len(),
                forall|j: int| 0 <= j < i ==> s[j].type_id.0 < k.type_id.0,
            decreases s.len() - i,
        {
            i = i + 1;
        }
        let ghost want = s.to_set().filter(|x: Key| x.type_id != k.type_id).insert(k);
        if i < self.keys.len() && self.keys[i].type_id.0 == k.type_id.0 {
            self.keys.set(i, k);
            proof {
                let t = self.keys@;
                assert(t =~= s.update(i as int, k));
                assert forall|x: Key| t.contains(x) <==> want.contains(x) by {
                    if t.contains(x) {
                        let p = choose|p: int| 0 <= p < t.len() && t[p] == x;
                        if p != i {
                            assert(s[p] == x);
                            if p < i {
                                assert(s[p].type_id.0 < s[i as int].type_id.0);
                            } else {
                                assert(s[i as int].type_id.0 < s[p].type_id.0);
                            }
                        }
                    }
                    if want.contains(x) && x != k {
                        let p = choose|p: int| 0 <= p < s.len() && s[p] == x;
                        assert(p != i);
                        assert(t[p] == x);
                    }
                    if x == k {
                        assert(t[i as int] == k);
                    }
                }
                assert(self@ =~= want);
            }
        } else {
            self.keys.insert(i, k);
            proof {
                let t = self.keys@;
                assert(t =~= s.insert(i as int, k));
                assert forall|a: int, b: int| 0 <= a < b < t.len() implies t[a].type_id.0
                    < t[b].type_id.0 by {
                    if b == i as int + 1 && a == i {
                    } else if a < i && b > i {
                        if b > i + 1 {
                            assert(s[a].type_id.0 < s[b - 1].type_id.0);
                        }
                    }
                }
                assert forall|x: Key| t.contains(x) <==> want.contains(x) by {
                    if t.contains(x) {
                        let p = choose|p: int| 0 <= p < t.len() && t[p] == x;
                        if p < i {
                            assert(s[p] == x);
                        } else if p > i {
                            assert(s[p - 1] == x);
                            assert(s.contains(x));
                        }
                    }
                    if want.contains(x) && x != k {
                        let p = choose|p: int| 0 <= p < s.len() && s[p] == x;
                        if p < i {
                            assert(t[p] == x);
                        } else {
                            assert(t[p + 1] == x);
                        }
                    }
                    if x == k {
                        assert(t[i as int] == k);
                    }
                }
                assert(self@ =~= want);
            }
        }
    }

    /// The key of type `t`, if the bag holds one, found by binary search.
    pub fn find(&self, t: TypeId) -> (r: Option<Key>)
        requires
            self.wf(),
        ensures
            r matches Some(k) ==> self@.contains(k) && k.type_id == t,
            r is None <==> forall|k: Key| self@.contains(k) ==> k.type_id != t,
    {
        let mut lo: usize = 0;
        let mut hi: usize = self.keys.len();
        while lo < hi
            invariant
                self.wf(),
                lo <= hi <= self.keys@.len(),
                forall|j: int| 0 <= j < lo ==> self.keys@[j].type_id.0 < t.0,
                forall|j: int| hi <= j < self.keys@.len() ==> self.keys@[j].type_id.0 > t.0,
            decreases hi - lo,
        {
            let mid = lo + (hi - lo) / 2;
            let m = self.keys[mid].type_id.0;
            if m == t.0 {
                proof {
                    assert(self.keys@[mid as int].type_id == t);
                    assert(self.keys@.contains(self.keys@[mid as int]));
                    assert(self@.contains(self.keys@[mid as int]));
                }
                return Some(self.keys[mid]);
            } else if m < t.0 {
                proof {
                    assert forall|j: int| 0 <= j < mid + 1 implies self.keys@[j].type_id.0 < t.0 by {
                        if j < mid {
                            assert(self.keys@[j].type_id.0 < self.keys@[mid as int].type_id.0);
                        }
                    }
                }
                lo = mid + 1;
            } else {
                proof {
                    assert forall|j: int| mid <= j < self.keys@.len() implies self.keys@[j].type_id.0 > t.0 by {
                        if j > mid {
                            assert(self.keys@[mid as int].type_id.0 < self.keys@[j].type_id.0);
                        }
                    }
                }
                hi = mid;
            }
        }
        proof {
            assert forall|k: Key| self@.contains(k) implies k.type_id != t by {
                let p = choose|p: int| 0 <= p < self.keys@.len() && self.keys@[p] == k;
            }
        }
        None
    }

    /// Keeps only the keys whose type is one of `types`, in their order.
    pub fn retain_types(&mut self, types: &Vec<TypeId>)
        requires
            old(self).wf(),
        ensures
            final(self).wf(),
            final(self)@ == old(self)@.filter(|x: Key| types@.contains(x.type_id)),
    {
        let ghost s = self.keys@;
        let mut kept: Vec<Key> = Vec::new();
        let mut i: usize = 0;
        while i < self.keys.len()
            invariant
                self.keys@ == s,
                i <= s.len(),
                sorted_by_type(s),
                sorted_by_type(kept@),
                forall|x: Key| kept@.contains(x) <==> (exists|j: int|
                    0 <= j < i && s[j] == x && types@.contains(x.type_id)),
                forall|p: int| 0 <= p < kept@.len() ==> exists|j: int|
                    0 <= j < i && s[j] == #[trigger] kept@[p],
            decreases s.len() - i,
        {
            let k = self.keys[i];
            let ghost prev = kept@;
            if contains_type(types, k.type_id) {
                proof {
                    assert forall|p: int| 0 <= p < kept@.len() implies kept@[p].type_id.0
                        < k.type_id.0 by {
                        let j = choose|j: int| 0 <= j < i && s[j] == kept@[p];
                    }
                }
                kept.push(k);
                proof {
                    assert forall|x: Key| kept@.contains(x) <==> (exists|j: int|
                        0 <= j < i + 1 && s[j] == x && types@.contains(x.type_id)) by {
                        if kept@.contains(x) {
                            let p = choose|p: int| 0 <= p < kept@.len() && kept@[p] == x;
                            if p < kept@.len() - 1 {
                                assert(prev[p] == x);
                                assert(prev.contains(x));
                            } else {
                                assert(s[i as int] == x);
                            }
                        }
                        if exists|j: int| 0 <= j < i + 1 && s[j] == x && types@.contains(x.type_id) {
                            let j = choose|j: int|
                                0 <= j < i + 1 && s[j] == x && types@.contains(x.type_id);
                            if j < i {
                                assert(prev.contains(x));
                                let p = choose|p: int| 0 <= p < prev.len() && prev[p] == x;
                                assert(kept@[p] == x);
                            } else {
                                assert(kept@[kept@.len() - 1] == x);
                            }
                        }
                    }
                    assert forall|p: int| 0 <= p < kept@.len() implies exists|j: int|
                        0 <= j < i + 1 && s[j] == #[trigger] kept@[p] by {
                        if p < kept@.len() - 1 {
                            assert(prev[p] == kept@[p]);
                        } else {
                            assert(s[i as int] == kept@[p]);
                        }
                    }
                }
            } else {
                proof {
                    assert forall|x: Key| kept@.contains(x) <==> (exists|j: int|
                        0 <= j < i + 1 && s[j] == x && types@.contains(x.type_id)) by {
                        if exists|j: int| 0 <= j < i + 1 && s[j] == x && types@.contains(x.type_id) {
                            let j = choose|j: int|
                                0 <= j < i + 1 && s[j] == x && types@.contains(x.type_id);
                            assert(j < i);
                        }
                    }
                }
            }
            i = i + 1;
        }
        self.keys = kept;
        proof {
            assert(self@ =~= s.to_set().filter(|x: Key| types@.contains(x.type_id)));
        }
    }
}

/// Whether `t` occurs in `types`.
pub fn contains_type(types: &Vec<TypeId>, t: TypeId) -> (r: bool)
    ensures
        r == types@.contains(t),
{
    let mut i: usize = 0;
    while i < types.len()
        invariant
            i <= types@.len(),
            forall|j: int| 0 <= j < i ==> types@[j] != t,
        decreases types@.len() - i,
    {
        if types[i].0 == t.0 {
            proof {
                assert(types@[i as int] == t);
            }
            return true;
        }
        i = i + 1;
    }
    false
}

} // verus!
