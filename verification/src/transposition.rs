//! The transposition table: a direct-mapped cache of searched positions.
//!
//! The table has a power of two of slots; a hash falls into the slot given by
//! its low bits. A slot keeps the entry of the deeper search.

use crate::pieces_logic::{Move, Promotion};
use vstd::prelude::*;

verus! {

/// What a stored value says of the true score of its position.
#[derive(Debug, PartialEq, Eq, Clone, Copy, Structural)]
pub enum Bound {
    Exact,
    Lower,
    Upper,
}

/// The result of one search: the key of the position, the depth searched, the value found
/// and what it bounds, and the best move. `valid` tells a stored entry from an empty slot.
#[derive(Debug, PartialEq, Eq, Clone, Copy)]
pub struct TTEntry {
    pub key: u64,
    pub depth: u8,
    pub value: i64,
    pub bound: Bound,
    pub best_move: Move,
    pub valid: bool,
}

/// The largest absolute value that the table holds.
pub const VALUE_LIMIT: i64 = 1_000_255;

/// The largest number of index bits of a table.
pub const MAX_INDEX_BITS: u8 = 30;

/// The table. Its slots are reached through [`TranspositionTable::probe`] and
/// [`TranspositionTable::store`] only.
pub struct TranspositionTable {
    slots: Vec<TTEntry>,
}

/// A slot that holds nothing.
pub open spec fn vacant_entry() -> TTEntry {
    TTEntry {
        key: 0,
        depth: 0,
        value: 0,
        bound: Bound::Exact,
        best_move: Move {
            current_square: (0, 0),
            destination_square: (0, 0),
            castle: false,
            promotion: Promotion::NoPromotion,
        },
        valid: false,
    }
}

/// `n` is a power of two.
pub open spec fn is_power_of_two(n: nat) -> bool {
    0 < n <= 0x4000_0000 && (n as u64) & ((n - 1) as u64) == 0
}

/// The slot that `hash` falls into in a table of `size` slots.
pub open spec fn slot_of(hash: u64, size: nat) -> int {
    (hash & ((size - 1) as u64)) as int
}

/// The entry stored under `hash`, if the slot of `hash` holds one with that key.
pub open spec fn probed(slots: Seq<TTEntry>, hash: u64) -> Option<TTEntry> {
    let entry = slots[slot_of(hash, slots.len())];
    if entry.valid && entry.key == hash {
        Some(entry)
    } else {
        None
    }
}

/// `entry` as it is written into a slot.
pub open spec fn marked_valid(entry: TTEntry) -> TTEntry {
    TTEntry {
        key: entry.key,
        depth: entry.depth,
        value: entry.value,
        bound: entry.bound,
        best_move: entry.best_move,
        valid: true,
    }
}

/// The slots after `entry` is offered: it is written if its slot is empty or
/// holds a search that is not deeper.
pub open spec fn stored(slots: Seq<TTEntry>, entry: TTEntry) -> Seq<TTEntry> {
    let i = slot_of(entry.key, slots.len());
    if !slots[i].valid || entry.depth >= slots[i].depth {
        slots.update(i, marked_valid(entry))
    } else {
        slots
    }
}

/// The slots of a table: a power of two of them, with every stored value within the limit.
pub open spec fn well_formed_slots(slots: Seq<TTEntry>) -> bool {
    &&& is_power_of_two(slots.len())
    &&& forall|i: int|
        0 <= i < slots.len() ==> -VALUE_LIMIT <= (#[trigger] slots[i]).value <= VALUE_LIMIT
}

/// What a probed entry lets a search of depth `depth` with window
/// `(alpha, beta)` return at once: nothing if the entry comes from a shallower
/// search; else an exact value as it is, a lower bound if it reaches `beta`,
/// an upper bound if it does not exceed `alpha`.
pub open spec fn cutoff_value(entry: TTEntry, depth: u8, alpha: int, beta: int) -> Option<int> {
    if entry.depth < depth {
        None
    } else {
        match entry.bound {
            Bound::Exact => Some(entry.value as int),
            Bound::Lower => if entry.value >= beta {
                Some(entry.value as int)
            } else {
                None
            },
            Bound::Upper => if entry.value <= alpha {
                Some(entry.value as int)
            } else {
                None
            },
        }
    }
}

proof fn lemma_slot_in_range(hash: u64, size: nat)
    requires
        0 < size <= 0x4000_0000,
    ensures
        0 <= slot_of(hash, size) < size,
{
    let mask = (size - 1) as u64;
    assert(hash & mask <= mask) by (bit_vector);
}

proof fn lemma_shift_is_power_of_two(bits: u8)
    requires
        bits <= 30,
    ensures
        is_power_of_two((1u64 << bits) as nat),
{
    let n = 1u64 << bits;
    assert(0 < n <= 0x4000_0000 && n & ((n - 1) as u64) == 0) by (bit_vector)
        requires
            n == 1u64 << bits,
            bits <= 30,
    ;
}

impl TranspositionTable {
    /// The slots of the table, in order.
    pub closed spec fn view(&self) -> Seq<TTEntry> {
        self.slots@
    }

    /// The table has a power of two of slots and holds no value beyond the limit.
    pub open spec fn well_formed(&self) -> bool {
        well_formed_slots(self@)
    }

    /// A table of `2^bits` empty slots.
    pub fn new(bits: u8) -> (table: TranspositionTable)
        requires
            bits <= MAX_INDEX_BITS,
        ensures
            table.well_formed(),
            table@.len() == (1u64 << bits),
            forall|i: int| 0 <= i < table@.len() ==> table@[i] == vacant_entry(),
    {
        let size: u64 = 1u64 << bits;
        proof {
            lemma_shift_is_power_of_two(bits);
        }
        let empty = TTEntry {
            key: 0,
            depth: 0,
            value: 0,
            bound: Bound::Exact,
            best_move: Move {
                current_square: (0, 0),
                destination_square: (0, 0),
                castle: false,
                promotion: Promotion::NoPromotion,
            },
            valid: false,
        };
        let mut slots: Vec<TTEntry> = Vec::new();
        let mut i: u64 = 0;
        while i < size
            invariant
                i <= size,
                size <= 0x4000_0000,
                slots@.len() == i,
                empty == vacant_entry(),
                forall|k: int| 0 <= k < i ==> slots@[k] == vacant_entry(),
            decreases size - i,
        {
            slots.push(empty);
            i += 1;
        }
        TranspositionTable { slots }
    }

    /// The number of slots.
    pub fn size(&self) -> (size: usize)
        ensures
            size == self@.len(),
    {
        self.slots.len()
    }

    /// The entry stored for `hash`, if there is one; another position that
    /// falls into the same slot gives nothing.
    pub fn probe(&self, hash: u64) -> (found: Option<TTEntry>)
        requires
            self.well_formed(),
        ensures
            found == probed(self@, hash),
            found matches Some(entry) ==> -VALUE_LIMIT <= entry.value <= VALUE_LIMIT,
    {
        proof {
            lemma_slot_in_range(hash, self@.len());
        }
        let mask = (self.slots.len() - 1) as u64;
        let index = (hash & mask) as usize;
        let entry = self.slots[index];
        if entry.valid && entry.key == hash {
            Some(entry)
        } else {
            None
        }
    }

    /// Offers `entry` to the slot of its key: it replaces what is there unless
    /// that comes from a deeper search.
    pub fn store(&mut self, entry: TTEntry)
        requires
            old(self).well_formed(),
            -VALUE_LIMIT <= entry.value <= VALUE_LIMIT,
        ensures
            final(self)@ == stored(old(self)@, entry),
            final(self)@.len() == old(self)@.len(),
            final(self).well_formed(),
    {
        proof {
            lemma_slot_in_range(entry.key, self@.len());
        }
        let mask = (self.slots.len() - 1) as u64;
        let index = (entry.key & mask) as usize;
        let slot = self.slots[index];
        if !slot.valid || entry.depth >= slot.depth {
            self.slots[index] = TTEntry {
                key: entry.key,
                depth: entry.depth,
                value: entry.value,
                bound: entry.bound,
                best_move: entry.best_move,
                valid: true,
            };
        }
    }
}

/// The value that a probed entry lets a search return at once, if any.
pub fn tt_cutoff(entry: &TTEntry, depth: u8, alpha: i64, beta: i64) -> (value: Option<i64>)
    ensures
        match value {
            Some(v) => cutoff_value(*entry, depth, alpha as int, beta as int) == Some(v as int),
            None => cutoff_value(*entry, depth, alpha as int, beta as int) is None,
        },
{
    if entry.depth < depth {
        return None;
    }
    match entry.bound {
        Bound::Exact => Some(entry.value),
        Bound::Lower => if entry.value >= beta {
            Some(entry.value)
        } else {
            None
        },
        Bound::Upper => if entry.value <= alpha {
            Some(entry.value)
        } else {
            None
        },
    }
}

} // verus!
