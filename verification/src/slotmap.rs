//! The world-state store's keyed collections: a map from small integer
//! ids to entities, held as a vector of slots. A key is present when its
//! slot holds a value; freeing a slot never shifts the others, so ids
//! stay stable and iteration order is fixed, which keeps the whole
//! simulation deterministic.

use vstd::prelude::*;
use vstd::pervasive::VecAdditionalExecFns;

verus! {

/// Whether key `id` is present in the slot sequence.
pub open spec fn slot_has<V>(s: Seq<Option<V>>, id: int) -> bool {
    0 <= id < s.len() && s[id] is Some
}

/// The value at key `id`.
pub open spec fn slot_get<V>(s: Seq<Option<V>>, id: int) -> V
    recommends
        slot_has(s, id),
{
    s[id]->Some_0
}

/// The slot sequence after binding `id` to `v`, grown as needed.
pub open spec fn spec_put<V>(s: Seq<Option<V>>, id: int, v: V) -> Seq<Option<V>> {
    let n = if id + 1 > s.len() {
        id + 1
    } else {
        s.len() as int
    };
    Seq::new(
        n as nat,
        |j: int|
            if j == id {
                Some(v)
            } else if 0 <= j < s.len() {
                s[j]
            } else {
                None
            },
    )
}

/// A map from integer ids to copies of `V`, keyed by slot index.
#[derive(Clone)]
pub struct SlotMap<V> {
    pub slots: Vec<Option<V>>,
}

impl<V> View for SlotMap<V> {
    type V = Seq<Option<V>>;

    open spec fn view(&self) -> Seq<Option<V>> {
        self.slots@
    }
}

impl<V: Copy> SlotMap<V> {
    /// An empty map.
    pub fn new() -> (r: Self)
        ensures
            r@ == Seq::<Option<V>>::empty(),
    {
        SlotMap { slots: Vec::new() }
    }

    /// Number of slots ever allocated (present or freed).
    pub fn slot_len(&self) -> (n: usize)
        ensures
            n == self@.len(),
    {
        self.slots.len()
    }

    /// Look a key up; `None` when the key is absent.
    pub fn get(&self, id: usize) -> (r: Option<V>)
        ensures
            slot_has(self@, id as int) ==> r == Some(slot_get(self@, id as int)),
            !slot_has(self@, id as int) ==> r is None,
    {
        if id < self.slots.len() {
            self.slots[id]
        } else {
            None
        }
    }

    /// Bind `id` to `v`, growing the slot vector if the key is new.
    pub fn put(&mut self, id: usize, v: V)
        requires
            id < usize::MAX,
        ensures
            final(self)@ == spec_put(old(self)@, id as int, v),
    {
        let ghost s0 = self@;
        if self.slots.len() <= id {
            while self.slots.len() <= id
                invariant
                    id < usize::MAX,
                    s0.len() <= self@.len() <= id + 1,
                    forall|j: int| 0 <= j < s0.len() ==> self@[j] == s0[j],
                    forall|j: int| s0.len() <= j < self@.len() ==> self@[j] is None,
                decreases id + 1 - self@.len(),
            {
                self.slots.push(None);
            }
        }
        self.slots.set(id, Some(v));
        proof {
            assert(self@ =~= spec_put(s0, id as int, v));
        }
    }

    /// Free the slot of `id`; a key beyond the slots is already absent.
    pub fn take_out(&mut self, id: usize)
        ensures
            id < old(self)@.len() ==> final(self)@ == old(self)@.update(
                id as int,
                None,
            ),
            id >= old(self)@.len() ==> final(self)@ == old(self)@,
    {
        if id < self.slots.len() {
            self.slots.set(id, None);
        }
    }

    /// Bind the next never-used id to `v` and return it.
    pub fn push_fresh(&mut self, v: V) -> (id: usize)
        requires
            old(self)@.len() < usize::MAX,
        ensures
            id == old(self)@.len(),
            final(self)@ == old(self)@.push(Some(v)),
    {
        let id = self.slots.len();
        self.slots.push(Some(v));
        id
    }

    /// An exact copy.
    pub fn dup(&self) -> (r: Self)
        ensures
            r@ == self@,
    {
        let mut out: Vec<Option<V>> = Vec::new();
        let n = self.slots.len();
        let mut i: usize = 0;
        while i < n
            invariant
                n == self@.len(),
                i <= n,
                out@.len() == i,
                forall|j: int| 0 <= j < i ==> out@[j] == self@[j],
            decreases n - i,
        {
            out.push(self.slots[i]);
            i = i + 1;
        }
        let r = SlotMap { slots: out };
        proof {
            assert(r@ =~= self@);
        }
        r
    }
}

/// A slot vector never outgrows the address space.
pub proof fn lemma_slotmap_len_bound<V>(m: &SlotMap<V>)
    ensures
        m@.len() <= usize::MAX,
{
    assert(m.slots@.len() == vstd::std_specs::vec::spec_vec_len(&m.slots));
}

/// Binding a key that already has a slot is a pointwise update.
pub proof fn lemma_put_in_range<V>(s: Seq<Option<V>>, id: int, v: V)
    requires
        0 <= id < s.len(),
    ensures
        spec_put(s, id, v) == s.update(id, Some(v)),
{
    assert(spec_put(s, id, v) =~= s.update(id, Some(v)));
}

/// An exact copy of a vector of plain values.
pub fn dup_vec<T: Copy>(v: &Vec<T>) -> (r: Vec<T>)
    ensures
        r@ == v@,
{
    let mut out: Vec<T> = Vec::new();
    let n = v.len();
    let mut i: usize = 0;
    while i < n
        invariant
            n == v@.len(),
            i <= n,
            out@.len() == i,
            forall|j: int| 0 <= j < i ==> out@[j] == v@[j],
        decreases n - i,
    {
        out.push(v[i]);
        i = i + 1;
    }
    proof {
        assert(out@ =~= v@);
    }
    out
}

} // verus!
