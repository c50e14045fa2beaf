//! Download status records and the table that keys them by download id.

use vstd::prelude::*;

use crate::path::FsPath;
use crate::text::{has_prefix, same_text, starts_with, chars_of};

verus! {

/// Progress / lifecycle status of a single download.
#[derive(Clone)]
pub enum Status {
    Queued,
    Downloading { received: u64, total: u64 },
    Extracting,
    Installed(FsPath),
    Failed(String),
}

/// The value of a [`Status`], with locations and messages as sequences.
pub enum StatusView {
    Queued,
    Downloading { received: u64, total: u64 },
    Extracting,
    Installed(Seq<Seq<char>>),
    Failed(Seq<char>),
}

impl View for Status {
    type V = StatusView;

    open spec fn view(&self) -> StatusView {
        match self {
            Status::Queued => StatusView::Queued,
            Status::Downloading { received, total } => StatusView::Downloading {
                received: *received,
                total: *total,
            },
            Status::Extracting => StatusView::Extracting,
            Status::Installed(p) => StatusView::Installed(p@),
            Status::Failed(m) => StatusView::Failed(m@),
        }
    }
}

/// A download in this state is still under way (queued, receiving bytes, or
/// unpacking).
pub open spec fn in_flight(s: StatusView) -> bool {
    match s {
        StatusView::Queued | StatusView::Downloading { .. } | StatusView::Extracting => true,
        _ => false,
    }
}

impl Status {
    /// A copy of this status.
    pub fn duplicate(&self) -> (r: Status)
        ensures
            r@ == self@,
    {
        match self {
            Status::Queued => Status::Queued,
            Status::Downloading { received, total } => Status::Downloading {
                received: *received,
                total: *total,
            },
            Status::Extracting => Status::Extracting,
            Status::Installed(p) => Status::Installed(p.duplicate()),
            Status::Failed(m) => Status::Failed(m.clone()),
        }
    }

    /// Whether the download is still under way.
    pub fn is_in_flight(&self) -> (r: bool)
        ensures
            r == in_flight(self@),
    {
        match self {
            Status::Queued | Status::Downloading { .. } | Status::Extracting => true,
            _ => false,
        }
    }
}

/// The record kept for one download.
pub struct Entry {
    pub status: Status,
}

struct Slot {
    key: String,
    entry: Entry,
}

/// Download records keyed by download id; each id occurs at most once.
pub struct StatusTable {
    slots: Vec<Slot>,
    contents: Ghost<Map<Seq<char>, StatusView>>,
}

impl View for StatusTable {
    type V = Map<Seq<char>, StatusView>;

    closed spec fn view(&self) -> Map<Seq<char>, StatusView> {
        self.contents@
    }
}

/// The records of `m` whose ids do not start with `prefix`.
pub open spec fn without_prefix(m: Map<Seq<char>, StatusView>, prefix: Seq<char>) -> Map<
    Seq<char>,
    StatusView,
> {
    m.restrict(m.dom().filter(|k: Seq<char>| !has_prefix(k, prefix)))
}

/// The slots and the recorded map describe each other, and no id occurs
/// twice.
spec fn slots_match(slots: Seq<Slot>, contents: Map<Seq<char>, StatusView>) -> bool {
    &&& forall|i: int|
        0 <= i < slots.len() ==> {
            &&& contents.contains_key(#[trigger] slots[i].key@)
            &&& contents[slots[i].key@] == slots[i].entry.status@
        }
    &&& forall|i: int, j: int|
        0 <= i < slots.len() && 0 <= j < slots.len() && i != j ==> #[trigger] slots[i].key@
            != #[trigger] slots[j].key@
    &&& forall|k: Seq<char>|
        #[trigger] contents.contains_key(k) ==> exists|i: int|
            0 <= i < slots.len() && #[trigger] slots[i].key@ == k
}

impl StatusTable {
    /// The slots and the recorded map always describe each other.
    #[verifier::type_invariant]
    spec fn consistent(self) -> bool {
        slots_match(self.slots@, self.contents@)
    }

    /// An empty table.
    pub fn new() -> (r: StatusTable)
        ensures
            r@ == Map::<Seq<char>, StatusView>::empty(),
    {
        StatusTable { slots: Vec::new(), contents: Ghost(Map::empty()) }
    }

    fn find(&self, key: &str) -> (r: Option<usize>)
        ensures
            r is None ==> !self@.contains_key(key@),
            r matches Some(i) ==> i < self.slots@.len() && self.slots@[i as int].key@ == key@,
    {
        proof {
            use_type_invariant(self);
        }
        let mut i: usize = 0;
        while i < self.slots.len()
            invariant
                slots_match(self.slots@, self.contents@),
                i <= self.slots@.len(),
                forall|k: int| 0 <= k < i ==> #[trigger] self.slots@[k].key@ != key@,
            decreases self.slots.len() - i,
        {
            if same_text(self.slots[i].key.as_str(), key) {
                return Some(i);
            }
            i += 1;
        }
        None
    }

    /// The status recorded under `key`, if any.
    pub fn get(&self, key: &str) -> (r: Option<Status>)
        ensures
            r is Some <==> self@.contains_key(key@),
            r matches Some(s) ==> s@ == self@[key@],
    {
        proof {
            use_type_invariant(self);
        }
        match self.find(key) {
            Some(i) => Some(self.slots[i].entry.status.duplicate()),
            None => None,
        }
    }

    /// Takes the slots out, leaving an empty table behind.
    fn take_slots(&mut self) -> (r: Vec<Slot>)
        ensures
            r@ == old(self).slots@,
            slots_match(r@, old(self)@),
    {
        proof {
            use_type_invariant(&*self);
        }
        let mut t = StatusTable::new();
        std::mem::swap(self, &mut t);
        let StatusTable { slots, contents: _ } = t;
        slots
    }

    /// Records `status` under `key`, replacing any earlier record.
    pub fn insert(&mut self, key: String, status: Status)
        ensures
            final(self)@ == old(self)@.insert(key@, status@),
    {
        let ghost k = key@;
        let ghost s = status@;
        let ghost m = self@.insert(k, s);
        let found = self.find(key.as_str());
        let mut slots = self.take_slots();
        let ghost old_slots = slots@;
        match found {
            Some(i) => {
                slots.set(i, Slot { key, entry: Entry { status } });
                assert forall|q: Seq<char>| #[trigger] m.contains_key(q) implies exists|j: int|
                    0 <= j < slots@.len() && #[trigger] slots@[j].key@ == q by {
                    if q != k {
                        let j = choose|j: int| 0 <= j < old_slots.len() && #[trigger] old_slots[j].key@ == q;
                        assert(slots@[j].key@ == q);
                    } else {
                        assert(slots@[i as int].key@ == q);
                    }
                }
            },
            None => {
                slots.push(Slot { key, entry: Entry { status } });
                assert forall|q: Seq<char>| #[trigger] m.contains_key(q) implies exists|j: int|
                    0 <= j < slots@.len() && #[trigger] slots@[j].key@ == q by {
                    if q != k {
                        let j = choose|j: int| 0 <= j < old_slots.len() && #[trigger] old_slots[j].key@ == q;
                        assert(slots@[j].key@ == q);
                    } else {
                        assert(slots@[slots@.len() - 1].key@ == q);
                    }
                }
            },
        }
        assert(slots_match(slots@, m));
        *self = StatusTable { slots, contents: Ghost(m) };
    }

    /// Replaces the status under `key`, but only where a record exists.
    pub fn update(&mut self, key: &str, status: Status)
        ensures
            final(self)@ == if old(self)@.contains_key(key@) {
                old(self)@.insert(key@, status@)
            } else {
                old(self)@
            },
    {
        proof {
            use_type_invariant(&*self);
        }
        if let Some(i) = self.find(key) {
            let owned_key = self.slots[i].key.clone();
            self.insert(owned_key, status);
        }
    }

    /// Removes the record under `key`, if any.
    pub fn remove(&mut self, key: &str)
        ensures
            final(self)@ == old(self)@.remove(key@),
    {
        let ghost m = self@.remove(key@);
        if let Some(i) = self.find(key) {
            let mut slots = self.take_slots();
            let ghost old_slots = slots@;
            slots.remove(i);
            assert forall|a: int|
                0 <= a < slots@.len() implies #[trigger] slots@[a].key@ != key@ by {
                if a < i {
                    assert(old_slots[a].key@ != old_slots[i as int].key@);
                } else {
                    assert(old_slots[a + 1].key@ != old_slots[i as int].key@);
                }
            }
            assert forall|a: int, b: int|
                0 <= a < slots@.len() && 0 <= b < slots@.len() && a != b
                    implies #[trigger] slots@[a].key@ != #[trigger] slots@[b].key@ by {
                let oa = if a < i { a } else { a + 1 };
                let ob = if b < i { b } else { b + 1 };
                assert(old_slots[oa] == slots@[a]);
                assert(old_slots[ob] == slots@[b]);
            }
            assert forall|q: Seq<char>| #[trigger] m.contains_key(q) implies exists|j: int|
                0 <= j < slots@.len() && #[trigger] slots@[j].key@ == q by {
                let j = choose|j: int| 0 <= j < old_slots.len() && #[trigger] old_slots[j].key@ == q;
                if j < i {
                    assert(slots@[j].key@ == q);
                } else {
                    assert(j != i);
                    assert(slots@[j - 1].key@ == q);
                }
            }
            assert(slots_match(slots@, m));
            *self = StatusTable { slots, contents: Ghost(m) };
        } else {
            assert(self@ =~= m);
        }
    }

    /// Removes every record whose id starts with `prefix`.
    pub fn remove_prefixed(&mut self, prefix: &str)
        ensures
            final(self)@ == without_prefix(old(self)@, prefix@),
    {
        let p = chars_of(prefix);
        let ghost m = without_prefix(self@, prefix@);
        let ghost old_map = self@;
        let old_slots = self.take_slots();
        let mut kept: Vec<Slot> = Vec::new();
        let ghost mut origin: Seq<int> = Seq::empty();
        let mut i: usize = 0;
        while i < old_slots.len()
            invariant
                slots_match(old_slots@, old_map),
                p@ == prefix@,
                i <= old_slots@.len(),
                m == without_prefix(old_map, prefix@),
                kept@.len() == origin.len(),
                forall|a: int|
                    0 <= a < origin.len() ==> 0 <= #[trigger] origin[a] < i && kept@[a].key@
                        == old_slots@[origin[a]].key@ && kept@[a].entry.status@
                        == old_slots@[origin[a]].entry.status@ && !has_prefix(
                        kept@[a].key@,
                        prefix@,
                    ),
                forall|a: int, b: int| 0 <= a < b < origin.len() ==> origin[a] < origin[b],
                forall|c: int|
                    0 <= c < i && !has_prefix(#[trigger] old_slots@[c].key@, prefix@)
                        ==> exists|a: int| 0 <= a < origin.len() && origin[a] == c,
            decreases old_slots.len() - i,
        {
            let kc = chars_of(old_slots[i].key.as_str());
            if !starts_with(&kc, &p) {
                let slot = Slot {
                    key: old_slots[i].key.clone(),
                    entry: Entry { status: old_slots[i].entry.status.duplicate() },
                };
                kept.push(slot);
                proof {
                    let prev = origin;
                    origin = origin.push(i as int);
                    assert forall|c: int|
                        0 <= c < i + 1 && !has_prefix(#[trigger] old_slots@[c].key@, prefix@)
                            implies exists|a: int| 0 <= a < origin.len() && origin[a] == c by {
                        if c == i {
                            assert(origin[origin.len() - 1] == c);
                        } else {
                            assert(!has_prefix(old_slots@[c].key@, prefix@));
                            let a = choose|a: int| 0 <= a < prev.len() && prev[a] == c;
                            assert(origin[a] == c);
                        }
                    }
                }
            }
            i += 1;
        }
        assert forall|a: int|
            0 <= a < kept@.len() implies {
                &&& m.contains_key(#[trigger] kept@[a].key@)
                &&& m[kept@[a].key@] == kept@[a].entry.status@
            } by {
            let o = origin[a];
            assert(old_map.contains_key(old_slots@[o].key@));
        }
        assert forall|a: int, b: int|
            0 <= a < kept@.len() && 0 <= b < kept@.len() && a != b
                implies #[trigger] kept@[a].key@ != #[trigger] kept@[b].key@ by {
            if a < b {
                assert(origin[a] < origin[b]);
            } else {
                assert(origin[b] < origin[a]);
            }
            assert(old_slots@[origin[a]].key@ != old_slots@[origin[b]].key@);
        }
        assert forall|q: Seq<char>| #[trigger] m.contains_key(q) implies exists|j: int|
            0 <= j < kept@.len() && #[trigger] kept@[j].key@ == q by {
            let c = choose|c: int| 0 <= c < old_slots@.len() && #[trigger] old_slots@[c].key@ == q;
            assert(!has_prefix(old_slots@[c].key@, prefix@));
            let a = choose|a: int| 0 <= a < origin.len() && origin[a] == c;
            assert(kept@[a].key@ == q);
        }
        assert(slots_match(kept@, m));
        *self = StatusTable { slots: kept, contents: Ghost(m) };
    }
}

} // verus!
