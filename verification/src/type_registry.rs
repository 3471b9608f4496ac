//! The identity registry of the message dispatch layer.
//!
//! The dispatch layer routes submissions by a compact per-type identity. This
//! registry assigns short, non-zero ids to process-wide type identity words
//! and remembers a readable name for each, so that receivers can be addressed
//! by a small integer instead of the full identity word.

use vstd::prelude::*;
use std::collections::HashMap;

verus! {

broadcast use vstd::std_specs::hash::group_hash_axioms;

/// A compact, non-zero identity for a registered type. The zero value is kept
/// free so that an optional id fits in the same word.
#[derive(Clone, Copy, PartialEq, Eq, Structural, Debug, Hash)]
pub struct ShortTypeId {
    id: u16,
}

impl ShortTypeId {
    /// The id word itself.
    pub closed spec fn spec_id(self) -> u16 {
        self.id
    }

    /// Short ids are never zero.
    pub open spec fn wf(self) -> bool {
        self.spec_id() != 0
    }

    /// Wraps a raw word as a short id; zero is not a valid id.
    pub fn new(id: u16) -> (r: Option<ShortTypeId>)
        ensures
            match r {
                Some(t) => id != 0 && t.spec_id() == id,
                None => id == 0,
            },
    {
        if id == 0 {
            None
        } else {
            Some(ShortTypeId { id })
        }
    }

    /// The id as a table index.
    pub fn as_usize(&self) -> (r: usize)
        ensures
            r == self.spec_id() as usize,
    {
        self.id as usize
    }
}

impl From<ShortTypeId> for u16 {
    fn from(id: ShortTypeId) -> (r: u16) {
        id.id
    }
}

impl vstd::std_specs::convert::FromSpecImpl<ShortTypeId> for u16 {
    open spec fn obeys_from_spec() -> bool {
        true
    }

    open spec fn from_spec(id: ShortTypeId) -> u16 {
        id.spec_id()
    }
}

/// The table behind the dispatch layer's type routing: every registered type
/// identity word owns one short id, and every short id one readable name.
pub struct TypeRegistry {
    next_short_id: ShortTypeId,
    long_to_short_ids: HashMap<u64, ShortTypeId>,
    short_ids_to_names: HashMap<u16, String>,
}

impl TypeRegistry {
    /// The short id the next registration will receive.
    pub closed spec fn next_id(self) -> u16 {
        self.next_short_id.spec_id()
    }

    /// The assignment of short ids to registered identity words.
    pub closed spec fn ids(self) -> Map<u64, ShortTypeId> {
        self.long_to_short_ids@
    }

    /// The readable name kept for each assigned short id.
    pub closed spec fn names(self) -> Map<u16, String> {
        self.short_ids_to_names@
    }

    /// Ids are handed out from a non-zero counter, so every assigned id is
    /// non-zero and below the counter.
    pub closed spec fn wf(self) -> bool {
        &&& 1 <= self.next_id()
        &&& forall|l: u64| #[trigger] self.ids().contains_key(l)
            ==> 1 <= self.ids()[l].spec_id() < self.next_id()
        &&& forall|s: u16| #[trigger] self.names().contains_key(s) ==> 1 <= s < self.next_id()
    }

    /// An empty registry; the first registration receives id 1.
    pub fn new() -> (r: TypeRegistry)
        ensures
            r.wf(),
            r.next_id() == 1,
            r.ids() == Map::<u64, ShortTypeId>::empty(),
            r.names() == Map::<u16, String>::empty(),
    {
        let first = ShortTypeId::new(1);
        match first {
            Some(one) => TypeRegistry {
                next_short_id: one,
                long_to_short_ids: HashMap::new(),
                short_ids_to_names: HashMap::new(),
            },
            None => {
                proof {
                    assert(false);
                }
                TypeRegistry {
                    next_short_id: ShortTypeId { id: 1 },
                    long_to_short_ids: HashMap::new(),
                    short_ids_to_names: HashMap::new(),
                }
            },
        }
    }

    /// Assigns the next short id to a type identity word not yet registered
    /// and records its readable name.
    pub fn register_new(&mut self, long_id: u64, name: String) -> (r: ShortTypeId)
        requires
            old(self).wf(),
            !old(self).ids().contains_key(long_id),
            old(self).next_id() < 0xFFFF,
        ensures
            final(self).wf(),
            r.spec_id() == old(self).next_id(),
            final(self).ids() == old(self).ids().insert(long_id, r),
            final(self).names() == old(self).names().insert(r.spec_id(), name),
            final(self).next_id() == old(self).next_id() + 1,
    {
        let short_id = self.next_short_id;
        self.long_to_short_ids.insert(long_id, short_id);
        self.short_ids_to_names.insert(short_id.as_usize() as u16, name);
        let bumped = ShortTypeId::new(u16::from(self.next_short_id) + 1);
        match bumped {
            Some(next) => {
                self.next_short_id = next;
            },
            None => {
                proof {
                    assert(false);
                }
            },
        }
        proof {
            assert forall|l: u64| #[trigger] self.ids().contains_key(l) implies 1
                <= self.ids()[l].spec_id() < self.next_id() by {
                if l != long_id {
                    assert(old(self).ids().contains_key(l));
                }
            }
            assert forall|s: u16| #[trigger] self.names().contains_key(s) implies 1 <= s
                < self.next_id() by {
                if s != short_id.spec_id() {
                    assert(old(self).names().contains_key(s));
                }
            }
        }
        short_id
    }

    /// Looks up the short id assigned earlier to a type identity word; the
    /// word must have been registered.
    pub fn get(&self, long_id: u64) -> (r: ShortTypeId)
        requires
            self.ids().contains_key(long_id),
        ensures
            r == self.ids()[long_id],
    {
        match self.long_to_short_ids.get(&long_id) {
            Some(short_id) => *short_id,
            None => {
                proof {
                    assert(false);
                }
                ShortTypeId { id: 1 }
            },
        }
    }

    /// Looks the identity word up, registering it first if it is new: the
    /// idempotent entry point the setup path uses.
    pub fn get_or_register(&mut self, long_id: u64, name: String) -> (r: ShortTypeId)
        requires
            old(self).wf(),
            old(self).ids().contains_key(long_id) || old(self).next_id() < 0xFFFF,
        ensures
            final(self).wf(),
            final(self).ids().contains_key(long_id),
            r == final(self).ids()[long_id],
            if old(self).ids().contains_key(long_id) {
                &&& r == old(self).ids()[long_id]
                &&& final(self).ids() == old(self).ids()
                &&& final(self).names() == old(self).names()
                &&& final(self).next_id() == old(self).next_id()
            } else {
                &&& r.spec_id() == old(self).next_id()
                &&& final(self).ids() == old(self).ids().insert(long_id, r)
                &&& final(self).names() == old(self).names().insert(r.spec_id(), name)
                &&& final(self).next_id() == old(self).next_id() + 1
            },
    {
        let known = self.long_to_short_ids.contains_key(&long_id);
        if known {
            self.get(long_id)
        } else {
            self.register_new(long_id, name)
        }
    }

    /// The id the next registration would receive; callers check it against
    /// the id space before registering, since a full registry accepts no more.
    pub fn next_unassigned_id(&self) -> (r: u16)
        ensures
            r == self.next_id(),
    {
        u16::from(self.next_short_id)
    }

    /// The readable name recorded for an assigned short id; the id must have
    /// been handed out by this registry.
    pub fn get_name(&self, short_id: ShortTypeId) -> (r: &String)
        requires
            self.names().contains_key(short_id.spec_id()),
        ensures
            *r == self.names()[short_id.spec_id()],
    {
        match self.short_ids_to_names.get(&(short_id.as_usize() as u16)) {
            Some(name) => name,
            None => {
                proof {
                    assert(false);
                }
                self.short_ids_to_names.get(&(short_id.as_usize() as u16)).unwrap()
            },
        }
    }
}

impl Default for TypeRegistry {
    fn default() -> (r: Self)
        ensures
            r.wf(),
            r.next_id() == 1,
            r.ids() == Map::<u64, ShortTypeId>::empty(),
            r.names() == Map::<u16, String>::empty(),
    {
        Self::new()
    }
}

} // verus!
