use vstd::prelude::*;

use crate::terminal::ZohaTerminal;

verus! {

/// The slot that the entry at slot `i` moves to when the entry at `from`
/// is dragged to `to`: the moved entry lands at `to`, the entries
/// between shift by one towards `from`, the others stay.
pub open spec fn reorder_slot(i: int, from: int, to: int) -> int {
    if i == from {
        to
    } else if from < i && i <= to {
        i - 1
    } else if to <= i && i < from {
        i + 1
    } else {
        i
    }
}

/// The sequence after the entry at `from` has been moved to `to`.
pub open spec fn reorder_seq<T>(s: Seq<T>, from: int, to: int) -> Seq<T> {
    s.remove(from).insert(to, s[from])
}

/// The sessions of the notebook, indexed by their visible slot.
pub struct SessionRegistry {
    pub terminals: Vec<ZohaTerminal>,
}

impl View for SessionRegistry {
    type V = Seq<ZohaTerminal>;

    open spec fn view(&self) -> Seq<ZohaTerminal> {
        self.terminals@
    }
}

impl SessionRegistry {
    /// The registry as a map from slot to session.
    pub open spec fn slot_map(&self) -> Map<int, ZohaTerminal> {
        Map::new(|i: int| 0 <= i < self@.len(), |i: int| self@[i])
    }

    pub fn new() -> (r: Self)
        ensures
            r@ == Seq::<ZohaTerminal>::empty(),
    {
        SessionRegistry { terminals: Vec::new() }
    }

    pub fn len(&self) -> (r: usize)
        ensures
            r == self@.len(),
    {
        self.terminals.len()
    }

    /// The session at `slot`, if there is one.
    pub fn get(&self, slot: usize) -> (r: Option<ZohaTerminal>)
        ensures
            slot < self@.len() ==> r == Some(self@[slot as int]),
            slot >= self@.len() ==> r is None,
    {
        if slot < self.terminals.len() {
            Some(self.terminals[slot])
        } else {
            None
        }
    }

    /// The slot of the first session whose counter is `tab_counter`.
    pub fn slot_of(&self, tab_counter: u64) -> (r: Option<usize>)
        ensures
            r is None <==> forall|k: int| 0 <= k < self@.len() ==> self@[k].tab_counter != tab_counter,
            r matches Some(k) ==> k < self@.len() && self@[k as int].tab_counter == tab_counter
                && forall|j: int| 0 <= j < k ==> self@[j].tab_counter != tab_counter,
    {
        let mut i: usize = 0;
        while i < self.terminals.len()
            invariant
                i <= self@.len(),
                forall|j: int| 0 <= j < i ==> self@[j].tab_counter != tab_counter,
            decreases self@.len() - i,
        {
            if self.terminals[i].tab_counter == tab_counter {
                return Some(i);
            }
            i = i + 1;
        }
        None
    }

    /// Opens `t` at `slot`: entries at `slot` and above shift up by one.
    pub fn insert(&mut self, slot: usize, t: ZohaTerminal)
        requires
            slot <= old(self)@.len(),
        ensures
            final(self)@ == old(self)@.insert(slot as int, t),
    {
        self.terminals.insert(slot, t);
    }

    /// Drops the entry at `slot`: entries above shift down by one.
    pub fn remove(&mut self, slot: usize) -> (r: ZohaTerminal)
        requires
            slot < old(self)@.len(),
        ensures
            r == old(self)@[slot as int],
            final(self)@ == old(self)@.remove(slot as int),
    {
        self.terminals.remove(slot)
    }

    /// Moves the entry at `from` to `to`.
    pub fn reorder(&mut self, from: usize, to: usize)
        requires
            from < old(self)@.len(),
            to < old(self)@.len(),
        ensures
            final(self)@ == reorder_seq(old(self)@, from as int, to as int),
    {
        let t = self.terminals.remove(from);
        self.terminals.insert(to, t);
    }
}

/// The slots of a registry are exactly `0..count`, with no gap.
pub proof fn lemma_slots_dense(r: &SessionRegistry)
    ensures
        r.slot_map().dom() == Set::new(|i: int| 0 <= i < r@.len()),
        forall|i: int| 0 <= i < r@.len() ==> r.slot_map()[i] == r@[i],
{
    assert(r.slot_map().dom() =~= Set::new(|i: int| 0 <= i < r@.len()));
}

/// Moving `from` to `to` sends every entry to `reorder_slot`: the moved
/// entry lands at `to`, the ones between shift by one towards `from`, the
/// others stay.
pub proof fn lemma_reorder_shifts<T>(s: Seq<T>, from: int, to: int)
    requires
        0 <= from < s.len(),
        0 <= to < s.len(),
    ensures
        reorder_seq(s, from, to).len() == s.len(),
        forall|i: int| 0 <= i < s.len() ==> 0 <= #[trigger] reorder_slot(i, from, to) < s.len(),
        forall|i: int| 0 <= i < s.len() ==> #[trigger] reorder_seq(s, from, to)[reorder_slot(i, from, to)] == s[i],
{
}

/// After moving `from` to `to`, slot `p` holds what slot
/// `reorder_slot(p, to, from)` held: moving back undoes the move, and
/// distinct slots draw from distinct slots.
pub proof fn lemma_reorder_inverse<T>(s: Seq<T>, from: int, to: int)
    requires
        0 <= from < s.len(),
        0 <= to < s.len(),
    ensures
        forall|p: int| 0 <= p < s.len() ==> 0 <= #[trigger] reorder_slot(p, to, from) < s.len(),
        forall|p: int| 0 <= p < s.len() ==> #[trigger] reorder_seq(s, from, to)[p] == s[reorder_slot(p, to, from)],
        forall|p: int, q: int|
            0 <= p < s.len() && 0 <= q < s.len() && p != q ==> #[trigger] reorder_slot(p, to, from)
                != #[trigger] reorder_slot(q, to, from),
{
}

} // verus!
