//! The counter record and the action that advances it.

use vstd::prelude::*;

verus! {

/// Stores the last generated unique ID
pub struct IDManager {
    current_id: usize,
}

impl View for IDManager {
    type V = nat;

    closed spec fn view(&self) -> nat {
        self.current_id as nat
    }
}

/// The number of values an ID can take; IDs are counted modulo this.
pub open spec fn id_space() -> nat {
    (usize::MAX + 1) as nat
}

/// The ID that stands after `fires` increments of `id`, each wrapping from
/// the largest representable value to 0.
pub open spec fn id_after(id: nat, fires: nat) -> nat {
    (id + fires) % id_space()
}

/// `ids` are the IDs that `fires` increments of `id` produce, in the order in
/// which they are produced.
pub open spec fn generated(ids: Seq<usize>, id: nat, fires: nat) -> bool {
    &&& ids.len() == fires
    &&& forall|i: int| 0 <= i < ids.len() ==> ids[i] == id_after(id, (i + 1) as nat)
}

impl Default for IDManager {
    fn default() -> (manager: Self)
        ensures
            manager@ == 0,
    {
        IDManager { current_id: 0 }
    }
}

impl IDManager {
    /// Every ID that a manager holds is one of the ID space.
    pub proof fn lemma_in_space(&self)
        ensures
            self@ < id_space(),
    {
    }

    /// A manager whose last generated ID is `current_id`.
    pub fn starting_at(current_id: usize) -> (manager: Self)
        ensures
            manager@ == current_id,
    {
        IDManager { current_id }
    }

    /// The last generated ID.
    pub fn current_id(&self) -> (id: usize)
        ensures
            id == self@,
    {
        self.current_id
    }

    /// Creates a new unique ID
    pub fn new(&mut self)
        ensures
            final(self)@ == id_after(old(self)@, 1),
            old(self)@ == usize::MAX ==> final(self)@ == 0,
            old(self)@ < usize::MAX ==> final(self)@ == old(self)@ + 1,
    {
        self.current_id = self.current_id.wrapping_add(1);
        proof {
            lemma_id_after_one(old(self)@);
        }
    }
}

/// One increment moves an ID to its successor, and the largest one to 0.
pub proof fn lemma_id_after_one(id: nat)
    requires
        id < id_space(),
    ensures
        id_after(id, 1) == if id + 1 == id_space() { 0 } else { id + 1 },
{
    let m: nat = id_space();
    if id + 1 == m {
        assert((id + 1) % m == 0) by (nonlinear_arith)
            requires id + 1 == m, m > 0;
    } else {
        assert((id + 1) % m == id + 1) by (nonlinear_arith)
            requires 0 <= id + 1 < m;
    }
}

/// Increments compose: `a` of them followed by `b` more are `a + b` of them.
pub proof fn lemma_id_after_add(id: nat, a: nat, b: nat)
    ensures
        id_after(id_after(id, a), b) == id_after(id, a + b),
{
    let m: int = id_space() as int;
    vstd::arithmetic::div_mod::lemma_add_mod_noop((id + a) as int, b as int, m);
    vstd::arithmetic::div_mod::lemma_mod_twice((id + a) as int, m);
    vstd::arithmetic::div_mod::lemma_add_mod_noop(((id + a) as int) % m, b as int, m);
}

/// Each time step create a new ID: runs the counter action `fires` times and
/// hands back the IDs it produced, oldest first.
pub fn generate_ids(manager: &mut IDManager, fires: u64) -> (ids: Vec<usize>)
    ensures
        generated(ids@, old(manager)@, fires as nat),
        final(manager)@ == id_after(old(manager)@, fires as nat),
{
    let ghost start: nat = manager@;
    let mut ids: Vec<usize> = Vec::new();
    let mut done: u64 = 0;
    proof {
        manager.lemma_in_space();
        vstd::arithmetic::div_mod::lemma_small_mod(start, id_space());
    }
    while done < fires
        invariant
            done <= fires,
            ids@.len() == done,
            manager@ == id_after(start, done as nat),
            forall|i: int| 0 <= i < done ==> ids@[i] as nat == id_after(start, (i + 1) as nat),
        decreases fires - done,
    {
        manager.new();
        proof {
            lemma_id_after_add(start, done as nat, 1);
        }
        ids.push(manager.current_id());
        done = done + 1;
    }
    ids
}

} // verus!
