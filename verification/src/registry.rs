//! The rooms that the assistant is in, by room code. Whoever shares the
//! registry between tasks guards it with a lock of their own; the registry
//! itself is a plain map. The rooms are few: they are kept in a list with one
//! slot for each code, and the list is searched.

use vstd::prelude::*;

verus! {

/// One room of the registry: its code and the handle of its state.
struct Slot<H> {
    code: String,
    handle: H,
}

/// The rooms by room code. `H` is the handle under which a room's state is
/// reached.
pub struct RoomRegistry<H> {
    slots: Vec<Slot<H>>,
}

/// What a lookup of `code` gives in the rooms `rooms`: the handle entered
/// under the code, or nothing for a code that was never entered.
pub open spec fn looked_up<H>(rooms: Map<Seq<char>, H>, code: Seq<char>) -> Option<H> {
    if rooms.contains_key(code) {
        Some(rooms[code])
    } else {
        None
    }
}

/// Lookups agree. A lookup reads the rooms and leaves them as they are, so
/// however many lookups of a code follow its entry, in whatever order, each
/// gives the handle that was entered, no lookup enters a room, and a code
/// that was never entered is not found.
pub proof fn lemma_lookups_agree<H>(rooms: Map<Seq<char>, H>, code: Seq<char>, handle: H)
    ensures
        looked_up(rooms.insert(code, handle), code) == Some(handle),
        forall|other: Seq<char>|
            other != code ==> #[trigger] looked_up(rooms.insert(code, handle), other)
                == looked_up(rooms, other),
        looked_up(Map::<Seq<char>, H>::empty(), code) is None,
        looked_up(rooms.remove(code), code) is None,
{
}

/// The codes of the slots, in their order.
spec fn codes<H>(slots: Seq<Slot<H>>) -> Seq<Seq<char>> {
    Seq::new(slots.len(), |i: int| slots[i].code@)
}

/// Where the code `code` stands among the slots.
spec fn position_of<H>(slots: Seq<Slot<H>>, code: Seq<char>) -> int {
    choose|i: int| 0 <= i < codes(slots).len() && codes(slots)[i] == code
}

/// The map from the codes of the slots to their handles.
spec fn map_of<H>(slots: Seq<Slot<H>>) -> Map<Seq<char>, H> {
    Map::new(
        |code: Seq<char>| codes(slots).contains(code),
        |code: Seq<char>| slots[position_of(slots, code)].handle,
    )
}

/// Where no code stands twice, each slot's code leads to its handle.
proof fn lemma_slot<H>(slots: Seq<Slot<H>>, i: int)
    requires
        codes(slots).no_duplicates(),
        0 <= i < slots.len(),
    ensures
        map_of(slots).contains_key(slots[i].code@),
        map_of(slots)[slots[i].code@] == slots[i].handle,
{
    assert(codes(slots)[i] == slots[i].code@);
}

impl<H> View for RoomRegistry<H> {
    type V = Map<Seq<char>, H>;

    closed spec fn view(&self) -> Map<Seq<char>, H> {
        map_of(self.slots@)
    }
}

impl<H> RoomRegistry<H> {
    #[verifier::type_invariant]
    spec fn one_slot_per_code(self) -> bool {
        codes(self.slots@).no_duplicates()
    }

    /// A registry without rooms.
    pub fn new() -> (registry: RoomRegistry<H>)
        ensures
            registry@ == Map::<Seq<char>, H>::empty(),
    {
        RoomRegistry { slots: Vec::new() }
    }

    /// How many rooms the registry holds.
    pub fn len(&self) -> (n: usize)
        ensures
            n == self@.dom().len(),
            self@.dom().finite(),
    {
        proof {
            use_type_invariant(self);
            codes(self.slots@).unique_seq_to_set();
        }
        self.slots.len()
    }

    /// The position of the slot with the code `code`, if there is one.
    fn find(&self, code: &str) -> (found: Option<usize>)
        ensures
            match found {
                Some(i) => i < self.slots@.len() && self.slots@[i as int].code@ == code@,
                None => !codes(self.slots@).contains(code@),
            },
    {
        let wanted = code.to_owned();
        let mut i: usize = 0;
        while i < self.slots.len()
            invariant
                i <= self.slots.len(),
                wanted@ == code@,
                forall|j: int| 0 <= j < i ==> self.slots@[j].code@ != code@,
            decreases self.slots.len() - i,
        {
            if self.slots[i].code == wanted {
                return Some(i);
            }
            i = i + 1;
        }
        None
    }

    /// The handle of the room with the code `code`; `None` for a code that
    /// the registry does not hold. The registry stays as it is.
    pub fn lookup(&self, code: &str) -> (handle: Option<&H>)
        ensures
            looked_up(self@, code@) == match handle {
                Some(h) => Some(*h),
                None => None,
            },
    {
        match self.find(code) {
            Some(i) => {
                proof {
                    use_type_invariant(self);
                    lemma_slot(self.slots@, i as int);
                }
                Some(&self.slots[i].handle)
            },
            None => None,
        }
    }

    /// Whether the registry holds a room with the code `code`.
    pub fn contains(&self, code: &str) -> (r: bool)
        ensures
            r == self@.contains_key(code@),
    {
        self.lookup(code).is_some()
    }

    /// Enters the room `code` with the handle `handle`, in place of the
    /// handle that the registry held under that code, if it held one.
    pub fn insert(&mut self, code: String, handle: H)
        ensures
            final(self)@ == old(self)@.insert(code@, handle),
    {
        proof {
            use_type_invariant(&*self);
        }
        let ghost before = self.slots@;
        let found = self.find(code.as_str());
        let mut slots: Vec<Slot<H>> = Vec::new();
        std::mem::swap(&mut self.slots, &mut slots);
        let ghost at: int = match found {
            Some(i) => i as int,
            None => before.len() as int,
        };
        match found {
            Some(i) => {
                slots[i] = Slot { code, handle };
                assert(codes(slots@) =~= codes(before));
            },
            None => {
                slots.push(Slot { code, handle });
                assert(codes(slots@) =~= codes(before).push(code@));
            },
        }
        proof {
            let after = slots@;
            assert(codes(after)[at] == code@);
            assert forall|c: Seq<char>| #[trigger]
                map_of(after).contains_key(c) == (c == code@ || map_of(before).contains_key(
                    c,
                )) by {
                if map_of(before).contains_key(c) {
                    assert(codes(after)[position_of(before, c)] == c);
                }
            }
            assert forall|c: Seq<char>| #[trigger]
                map_of(after).contains_key(c) implies map_of(after)[c] == (if c == code@ {
                handle
            } else {
                map_of(before)[c]
            }) by {
                let j = position_of(after, c);
                lemma_slot(after, j);
                if c != code@ {
                    lemma_slot(before, j);
                }
            }
        }
        self.slots = slots;
    }

    /// Takes the room `code` out of the registry and returns its handle;
    /// `None`, and no change, for a code that the registry does not hold.
    pub fn remove(&mut self, code: &str) -> (handle: Option<H>)
        ensures
            final(self)@ == old(self)@.remove(code@),
            match handle {
                Some(h) => old(self)@.contains_key(code@) && h == old(self)@[code@],
                None => !old(self)@.contains_key(code@),
            },
    {
        proof {
            use_type_invariant(&*self);
        }
        let ghost before = self.slots@;
        match self.find(code) {
            Some(i) => {
                let mut slots: Vec<Slot<H>> = Vec::new();
                std::mem::swap(&mut self.slots, &mut slots);
                let slot = slots.remove(i);
                proof {
                    let after = slots@;
                    // where the slot at position `j` of the list afterwards stood before
                    let earlier = |j: int|
                        if j < i {
                            j
                        } else {
                            j + 1
                        };
                    lemma_slot(before, i as int);
                    assert(codes(after) =~= codes(before).remove(i as int));
                    assert forall|c: Seq<char>| #[trigger]
                        map_of(after).contains_key(c) == (c != code@ && map_of(
                            before,
                        ).contains_key(c)) by {
                        if map_of(after).contains_key(c) {
                            assert(codes(before)[earlier(position_of(after, c))] == c);
                            assert(codes(before)[i as int] == code@);
                        }
                        if c != code@ && map_of(before).contains_key(c) {
                            let j0 = position_of(before, c);
                            let j = if j0 < i {
                                j0
                            } else {
                                j0 - 1
                            };
                            assert(codes(after)[j] == c);
                        }
                    }
                    assert forall|c: Seq<char>| #[trigger]
                        map_of(after).contains_key(c) implies map_of(after)[c] == map_of(
                        before,
                    )[c] by {
                        let j = position_of(after, c);
                        lemma_slot(after, j);
                        lemma_slot(before, earlier(j));
                    }
                }
                self.slots = slots;
                Some(slot.handle)
            },
            None => None,
        }
    }
}

} // verus!
