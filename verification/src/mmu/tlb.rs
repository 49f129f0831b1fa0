//! A set-associative translation lookaside buffer with LRU replacement.
//!
//! Entries live in `sets * ways` slots; the set of a virtual page number is
//! `vpn % sets`.  Each slot has an LRU counter: the slot just used gets the
//! maximum, the others of its set count down, and when the used slot's
//! counter had already reached the maximum the set's counters are halved
//! first.  Insertion fills the first empty way of the set, else the first
//! way with the smallest counter.
use vstd::prelude::*;

verus! {

/// One cached translation.
#[derive(Debug, Clone, Copy, PartialEq, Eq, Structural)]
pub struct TlbEntry {
    /// Virtual page number.
    pub vpn: u64,
    /// Physical page number.
    pub ppn: u64,
    /// Address-space identifier.
    pub asid: u16,
    /// Valid in every address space.
    pub global: bool,
    /// Readable.
    pub read: bool,
    /// Writable.
    pub write: bool,
    /// Executable.
    pub execute: bool,
    /// User accessible.
    pub user: bool,
    /// Accessed bit of the entry it came from.
    pub accessed: bool,
    /// Dirty bit of the entry it came from.
    pub dirty: bool,
}

impl Default for TlbEntry {
    /// All zero, all false.
    fn default() -> (r: Self)
        ensures
            r.vpn == 0 && r.ppn == 0 && r.asid == 0,
            !r.global && !r.read && !r.write && !r.execute && !r.user && !r.accessed && !r.dirty,
    {
        TlbEntry {
            vpn: 0,
            ppn: 0,
            asid: 0,
            global: false,
            read: false,
            write: false,
            execute: false,
            user: false,
            accessed: false,
            dirty: false,
        }
    }
}

/// Access counters.
#[derive(Debug, Clone, Copy, PartialEq, Eq, Structural)]
pub struct TlbStats {
    /// Lookups.
    pub accesses: u64,
    /// Lookups that hit.
    pub hits: u64,
    /// Lookups that missed.
    pub misses: u64,
    /// Full flushes.
    pub flushes: u64,
}

impl Default for TlbStats {
    /// All counters zero.
    fn default() -> (r: Self)
        ensures
            r.accesses == 0 && r.hits == 0 && r.misses == 0 && r.flushes == 0,
    {
        TlbStats { accesses: 0, hits: 0, misses: 0, flushes: 0 }
    }
}

/// The counter a slot gets when it is used.
pub const MAX_LRU_COUNTER: u32 = 0x7FFF_FFFF;

/// Whether an entry translates `vpn` in address space `asid`.
pub open spec fn slot_matches(e: TlbEntry, vpn: u64, asid: u16) -> bool {
    e.vpn == vpn && (e.global || e.asid == asid)
}

/// The first way from `w` on, in the set starting at slot `base`, holding
/// an entry that translates `vpn` in `asid`.
pub open spec fn first_match(
    entries: Seq<Option<TlbEntry>>,
    base: int,
    w: int,
    ways: int,
    vpn: u64,
    asid: u16,
) -> Option<(int, TlbEntry)>
    decreases ways - w,
{
    if w >= ways {
        None
    } else {
        match entries[base + w] {
            Some(e) => if slot_matches(e, vpn, asid) {
                Some((w, e))
            } else {
                first_match(entries, base, w + 1, ways, vpn, asid)
            },
            None => first_match(entries, base, w + 1, ways, vpn, asid),
        }
    }
}

/// The set of a virtual page number.
pub open spec fn set_of(vpn: u64, sets: usize) -> int {
    ((vpn as usize) % sets) as int
}

/// The counters of set `set` after using way `used`.
pub open spec fn lru_after_use(c: Seq<u32>, set: int, ways: int, used: int) -> Seq<u32> {
    let halve = c[set * ways + used] >= MAX_LRU_COUNTER;
    Seq::new(
        c.len(),
        |i: int|
            if set * ways <= i < set * ways + ways {
                if i == set * ways + used {
                    MAX_LRU_COUNTER
                } else {
                    let x = if halve {
                        (c[i] / 2) as u32
                    } else {
                        c[i]
                    };
                    if x > 0 {
                        (x - 1) as u32
                    } else {
                        0u32
                    }
                }
            } else {
                c[i]
            },
    )
}

/// Whether `way` is the way insertion picks in set `set`: the first empty
/// way, or, with none empty, the first way with the smallest counter.
pub open spec fn lru_choice(
    entries: Seq<Option<TlbEntry>>,
    c: Seq<u32>,
    set: int,
    ways: int,
    way: int,
) -> bool {
    let base = set * ways;
    &&& 0 <= way < ways
    &&& (exists|w: int| 0 <= w < ways && #[trigger] entries[base + w] is None) ==> {
        &&& entries[base + way] is None
        &&& forall|w: int| 0 <= w < way ==> #[trigger] entries[base + w] is Some
    }
    &&& (forall|w: int| 0 <= w < ways ==> #[trigger] entries[base + w] is Some) ==> {
        &&& forall|w: int| 0 <= w < ways ==> c[base + way] <= #[trigger] c[base + w]
        &&& forall|w: int| 0 <= w < way ==> c[base + way] < #[trigger] c[base + w]
    }
}

/// A translation lookaside buffer.
pub struct Tlb {
    size: usize,
    ways: usize,
    sets: usize,
    entries: Vec<Option<TlbEntry>>,
    lru_counters: Vec<u32>,
    stats: TlbStats,
}

/// What a lookup of `vpn` under `asid` does to a TLB: the entries stay;
/// the access counter, and the hit or the miss counter, go up by one; a hit
/// marks its way most recently used.
pub open spec fn lookup_effect(t0: Tlb, t1: Tlb, vpn: u64, asid: u16) -> bool {
    &&& t1.entries_spec() == t0.entries_spec()
    &&& t1.ways_spec() == t0.ways_spec()
    &&& t1.sets_spec() == t0.sets_spec()
    &&& t1.stats_spec().accesses == t0.stats_spec().accesses.wrapping_add(1)
    &&& t1.stats_spec().flushes == t0.stats_spec().flushes
    &&& match t0.lookup_spec(vpn, asid) {
        Some((w, e)) => {
            &&& t1.stats_spec().hits == t0.stats_spec().hits.wrapping_add(1)
            &&& t1.stats_spec().misses == t0.stats_spec().misses
            &&& t1.counters_spec() == lru_after_use(
                t0.counters_spec(),
                set_of(vpn, t0.sets_spec()),
                t0.ways_spec() as int,
                w,
            )
        },
        None => {
            &&& t1.stats_spec().misses == t0.stats_spec().misses.wrapping_add(1)
            &&& t1.stats_spec().hits == t0.stats_spec().hits
            &&& t1.counters_spec() == t0.counters_spec()
        },
    }
}

/// What inserting `entry` for `vpn` does to a TLB: it replaces the least
/// recently used way of the page's set, which becomes the most recently
/// used; the statistics stay.
pub open spec fn insert_effect(t0: Tlb, t1: Tlb, vpn: u64, entry: TlbEntry) -> bool {
    &&& t1.ways_spec() == t0.ways_spec()
    &&& t1.sets_spec() == t0.sets_spec()
    &&& t1.stats_spec() == t0.stats_spec()
    &&& exists|way: int|
        {
            &&& lru_choice(
                t0.entries_spec(),
                t0.counters_spec(),
                set_of(vpn, t0.sets_spec()),
                t0.ways_spec() as int,
                way,
            )
            &&& t1.entries_spec() == t0.entries_spec().update(
                set_of(vpn, t0.sets_spec()) * t0.ways_spec() + way,
                Some(entry),
            )
            &&& t1.counters_spec() == #[trigger] lru_after_use(
                t0.counters_spec(),
                set_of(vpn, t0.sets_spec()),
                t0.ways_spec() as int,
                way,
            )
        }
}

impl Tlb {
    /// The slots.
    pub closed spec fn entries_spec(&self) -> Seq<Option<TlbEntry>> {
        self.entries@
    }

    /// The LRU counters.
    pub closed spec fn counters_spec(&self) -> Seq<u32> {
        self.lru_counters@
    }

    /// The statistics.
    pub closed spec fn stats_spec(&self) -> TlbStats {
        self.stats
    }

    /// The associativity.
    pub closed spec fn ways_spec(&self) -> usize {
        self.ways
    }

    /// The number of sets.
    pub closed spec fn sets_spec(&self) -> usize {
        self.sets
    }

    /// The slots and counters cover every set.
    pub closed spec fn wf(&self) -> bool {
        &&& self.ways > 0
        &&& self.sets > 0
        &&& self.sets * self.ways <= self.size
        &&& self.entries@.len() == self.size
        &&& self.lru_counters@.len() == self.size
    }

    /// The entry a lookup of `vpn` in `asid` finds.
    pub open spec fn lookup_spec(&self, vpn: u64, asid: u16) -> Option<(int, TlbEntry)> {
        first_match(
            self.entries_spec(),
            set_of(vpn, self.sets_spec()) * self.ways_spec(),
            0,
            self.ways_spec() as int,
            vpn,
            asid,
        )
    }

    /// A TLB of `size` slots in sets of `ways`; `ways` must be positive and
    /// at most `size`, so that there is at least one set.
    pub fn new(size: usize, ways: usize) -> (r: Self)
        requires
            ways > 0,
            size >= ways,
        ensures
            r.wf(),
            r.ways_spec() == ways,
            r.sets_spec() == size / ways,
            r.entries_spec() == Seq::new(size as nat, |i: int| None::<TlbEntry>),
            r.counters_spec() == Seq::new(size as nat, |i: int| 0u32),
            r.stats_spec() == (TlbStats { accesses: 0, hits: 0, misses: 0, flushes: 0 }),
    {
        let sets = size / ways;
        let mut entries: Vec<Option<TlbEntry>> = Vec::new();
        let mut lru_counters: Vec<u32> = Vec::new();
        let mut i: usize = 0;
        while i < size
            invariant
                i <= size,
                entries@ == Seq::new(i as nat, |j: int| None::<TlbEntry>),
                lru_counters@ == Seq::new(i as nat, |j: int| 0u32),
            decreases size - i,
        {
            entries.push(None);
            lru_counters.push(0);
            assert(entries@ =~= Seq::new((i + 1) as nat, |j: int| None::<TlbEntry>));
            assert(lru_counters@ =~= Seq::new((i + 1) as nat, |j: int| 0u32));
            i = i + 1;
        }
        assert(sets * ways <= size) by (nonlinear_arith)
            requires
                sets == size / ways,
                ways > 0,
        ;
        assert(sets > 0) by (nonlinear_arith)
            requires
                sets == size / ways,
                ways > 0,
                size >= ways,
        ;
        Tlb { size, ways, sets, entries, lru_counters, stats: TlbStats::default() }
    }

    fn set_index(&self, vpn: u64) -> (r: usize)
        requires
            self.wf(),
        ensures
            r == set_of(vpn, self.sets),
            r < self.sets,
    {
        (vpn as usize) % self.sets
    }

    fn entry_index(&self, set: usize, way: usize) -> (r: usize)
        requires
            self.wf(),
            set < self.sets,
            way < self.ways,
        ensures
            r == set * self.ways + way,
            r < self.entries@.len(),
    {
        proof {
            lemma_slot_in_range(set as int, way as int, self.sets as int, self.ways as int);
        }
        set * self.ways + way
    }

    /// Looks up `vpn` in `asid`: the first way of its set holding a matching
    /// entry (same vpn, and global or the same asid).  Counts the access and
    /// the hit or miss (wrapping), and refreshes the LRU counters on a hit.
    pub fn lookup(&mut self, vpn: u64, asid: u16) -> (r: Option<TlbEntry>)
        requires
            old(self).wf(),
        ensures
            final(self).wf(),
            r == (match old(self).lookup_spec(vpn, asid) {
                Some((w, e)) => Some(e),
                None => None::<TlbEntry>,
            }),
            lookup_effect(*old(self), *final(self), vpn, asid),
    {
        self.stats.accesses = self.stats.accesses.wrapping_add(1);
        let set = self.set_index(vpn);
        let ghost base = set * self.ways;
        let mut way: usize = 0;
        while way < self.ways
            invariant
                self.wf(),
                way <= self.ways,
                set < self.sets,
                base == set * self.ways,
                self.entries@ == old(self).entries@,
                self.lru_counters@ == old(self).lru_counters@,
                self.ways == old(self).ways,
                self.sets == old(self).sets,
                self.size == old(self).size,
                set == set_of(vpn, self.sets),
                self.stats.accesses == old(self).stats.accesses.wrapping_add(1),
                self.stats.hits == old(self).stats.hits,
                self.stats.misses == old(self).stats.misses,
                self.stats.flushes == old(self).stats.flushes,
                first_match(self.entries@, base, 0, self.ways as int, vpn, asid) == first_match(
                    self.entries@,
                    base,
                    way as int,
                    self.ways as int,
                    vpn,
                    asid,
                ),
            decreases self.ways - way,
        {
            let idx = self.entry_index(set, way);
            if let Some(entry) = self.entries[idx] {
                if entry.vpn == vpn && (entry.global || entry.asid == asid) {
                    self.stats.hits = self.stats.hits.wrapping_add(1);
                    self.update_lru(set, way);
                    return Some(entry);
                }
            }
            way = way + 1;
        }
        self.stats.misses = self.stats.misses.wrapping_add(1);
        None
    }

    /// Caches `entry` in the set of `vpn`, in the way the LRU policy picks,
    /// and marks that way used.
    pub fn insert(&mut self, vpn: u64, entry: TlbEntry)
        requires
            old(self).wf(),
        ensures
            final(self).wf(),
            final(self).ways_spec() == old(self).ways_spec(),
            final(self).sets_spec() == old(self).sets_spec(),
            insert_effect(*old(self), *final(self), vpn, entry),
    {
        let set = self.set_index(vpn);
        let way = self.find_lru_way(set);
        let idx = self.entry_index(set, way);
        self.entries.set(idx, Some(entry));
        self.update_lru(set, way);
        assert(self.lru_counters@ == lru_after_use(
            old(self).lru_counters@,
            set as int,
            self.ways as int,
            way as int,
        ));
        assert(self.entries@ == old(self).entries@.update(set * self.ways + way, Some(entry)));
        let ghost w = way as int;
        assert(lru_choice(
            old(self).entries_spec(),
            old(self).counters_spec(),
            set_of(vpn, old(self).sets_spec()),
            old(self).ways_spec() as int,
            w,
        ));
        assert(self.entries_spec() == old(self).entries_spec().update(
            set_of(vpn, old(self).sets_spec()) * old(self).ways_spec() + w,
            Some(entry),
        ));
        assert(self.counters_spec() == lru_after_use(
            old(self).counters_spec(),
            set_of(vpn, old(self).sets_spec()),
            old(self).ways_spec() as int,
            w,
        ));
    }

    fn find_lru_way(&self, set: usize) -> (r: usize)
        requires
            self.wf(),
            set < self.sets,
        ensures
            r < self.ways,
            lru_choice(self.entries@, self.lru_counters@, set as int, self.ways as int, r as int),
    {
        let ghost base = set * self.ways;
        let mut min_counter: u32 = u32::MAX;
        let mut min_way: usize = 0;
        let mut way: usize = 0;
        while way < self.ways
            invariant
                self.wf(),
                set < self.sets,
                base == set * self.ways,
                way <= self.ways,
                min_way < self.ways,
                forall|w: int| 0 <= w < way ==> #[trigger] self.entries@[base + w] is Some,
                way > 0 ==> min_way < way && min_counter == self.lru_counters@[base + min_way],
                way == 0 ==> min_way == 0 && min_counter == u32::MAX,
                forall|w: int| 0 <= w < way ==> min_counter <= #[trigger] self.lru_counters@[base + w],
                forall|w: int| 0 <= w < min_way ==> min_counter < #[trigger] self.lru_counters@[base + w],
            decreases self.ways - way,
        {
            proof {
                lemma_slot_in_range(set as int, way as int, self.sets as int, self.ways as int);
            }
            let idx = self.entry_index(set, way);
            if self.entries[idx].is_none() {
                proof {
                    assert(exists|w: int| 0 <= w < self.ways && #[trigger] self.entries@[base + w] is None);
                }
                return way;
            }
            if self.lru_counters[idx] < min_counter {
                min_counter = self.lru_counters[idx];
                min_way = way;
            }
            way = way + 1;
        }
        proof {
            if min_counter == u32::MAX && self.ways > 0 {
                assert(min_way == 0 || self.lru_counters@[base + min_way] == u32::MAX);
            }
        }
        min_way
    }

    fn update_lru(&mut self, set: usize, used_way: usize)
        requires
            old(self).wf(),
            set < old(self).sets,
            used_way < old(self).ways,
        ensures
            final(self).wf(),
            final(self).entries@ == old(self).entries@,
            final(self).ways == old(self).ways,
            final(self).sets == old(self).sets,
            final(self).size == old(self).size,
            final(self).stats == old(self).stats,
            final(self).lru_counters@ == lru_after_use(
                old(self).lru_counters@,
                set as int,
                old(self).ways as int,
                used_way as int,
            ),
    {
        let used_idx = self.entry_index(set, used_way);
        let halve = self.lru_counters[used_idx] >= MAX_LRU_COUNTER;
        let ghost c0 = self.lru_counters@;
        let ghost base = set * self.ways;
        let mut way: usize = 0;
        while way < self.ways
            invariant
                self.wf(),
                set < self.sets,
                used_way < self.ways,
                base == set * self.ways,
                used_idx == base + used_way,
                way <= self.ways,
                self.entries@ == old(self).entries@,
                self.ways == old(self).ways,
                self.sets == old(self).sets,
                self.size == old(self).size,
                self.stats == old(self).stats,
                c0 == old(self).lru_counters@,
                halve == (c0[used_idx as int] >= MAX_LRU_COUNTER),
                self.lru_counters@.len() == c0.len(),
                forall|i: int|
                    0 <= i < c0.len() ==> #[trigger] self.lru_counters@[i] == if base <= i < base + way {
                        lru_after_use(c0, set as int, self.ways as int, used_way as int)[i]
                    } else {
                        c0[i]
                    },
            decreases self.ways - way,
        {
            let idx = self.entry_index(set, way);
            let cur = self.lru_counters[idx];
            let x = if halve {
                cur / 2
            } else {
                cur
            };
            let v = if way == used_way {
                MAX_LRU_COUNTER
            } else if x > 0 {
                x - 1
            } else {
                0
            };
            self.lru_counters.set(idx, v);
            way = way + 1;
        }
        assert(self.lru_counters@ =~= lru_after_use(c0, set as int, self.ways as int, used_way as int));
    }

    /// Empties every slot, zeroes every counter, and counts the flush
    /// (wrapping).
    pub fn flush_all(&mut self)
        requires
            old(self).wf(),
        ensures
            final(self).wf(),
            final(self).ways_spec() == old(self).ways_spec(),
            final(self).sets_spec() == old(self).sets_spec(),
            final(self).entries_spec() == Seq::new(old(self).entries_spec().len(), |i: int| None::<TlbEntry>),
            final(self).counters_spec() == Seq::new(old(self).counters_spec().len(), |i: int| 0u32),
            final(self).stats_spec().flushes == old(self).stats_spec().flushes.wrapping_add(1),
            final(self).stats_spec().accesses == old(self).stats_spec().accesses,
            final(self).stats_spec().hits == old(self).stats_spec().hits,
            final(self).stats_spec().misses == old(self).stats_spec().misses,
    {
        let n = self.entries.len();
        let mut i: usize = 0;
        while i < n
            invariant
                self.wf(),
                n == self.size,
                i <= n,
                self.ways == old(self).ways,
                self.sets == old(self).sets,
                self.size == old(self).size,
                self.stats == old(self).stats,
                forall|j: int| 0 <= j < i ==> #[trigger] self.entries@[j] is None,
                forall|j: int| 0 <= j < i ==> #[trigger] self.lru_counters@[j] == 0,
            decreases n - i,
        {
            self.entries.set(i, None);
            self.lru_counters.set(i, 0);
            i = i + 1;
        }
        assert(self.entries@ =~= Seq::new(old(self).entries@.len(), |i: int| None::<TlbEntry>));
        assert(self.lru_counters@ =~= Seq::new(old(self).lru_counters@.len(), |i: int| 0u32));
        self.stats.flushes = self.stats.flushes.wrapping_add(1);
    }

    /// Empties every slot holding a non-global entry of `asid`.
    pub fn flush_asid(&mut self, asid: u16)
        requires
            old(self).wf(),
        ensures
            final(self).wf(),
            final(self).ways_spec() == old(self).ways_spec(),
            final(self).sets_spec() == old(self).sets_spec(),
            final(self).counters_spec() == old(self).counters_spec(),
            final(self).stats_spec() == old(self).stats_spec(),
            final(self).entries_spec() == Seq::new(
                old(self).entries_spec().len(),
                |i: int|
                    match old(self).entries_spec()[i] {
                        Some(e) => if !e.global && e.asid == asid {
                            None
                        } else {
                            Some(e)
                        },
                        None => None,
                    },
            ),
    {
        let ghost e0 = self.entries@;
        let n = self.entries.len();
        let mut i: usize = 0;
        while i < n
            invariant
                self.wf(),
                n == self.size,
                i <= n,
                self.ways == old(self).ways,
                self.sets == old(self).sets,
                self.size == old(self).size,
                self.stats == old(self).stats,
                self.lru_counters@ == old(self).lru_counters@,
                e0 == old(self).entries@,
                forall|j: int|
                    0 <= j < n ==> #[trigger] self.entries@[j] == if j < i {
                        match e0[j] {
                            Some(e) => if !e.global && e.asid == asid {
                                None
                            } else {
                                Some(e)
                            },
                            None => None,
                        }
                    } else {
                        e0[j]
                    },
            decreases n - i,
        {
            if let Some(e) = self.entries[i] {
                if !e.global && e.asid == asid {
                    self.entries.set(i, None);
                }
            }
            i = i + 1;
        }
        assert(self.entries@ =~= Seq::new(
            e0.len(),
            |i: int|
                match e0[i] {
                    Some(e) => if !e.global && e.asid == asid {
                        None
                    } else {
                        Some(e)
                    },
                    None => None,
                },
        ));
    }

    /// Empties the slots of `vpn`'s set holding an entry for `vpn`.
    pub fn flush_va(&mut self, vpn: u64)
        requires
            old(self).wf(),
        ensures
            final(self).wf(),
            final(self).ways_spec() == old(self).ways_spec(),
            final(self).sets_spec() == old(self).sets_spec(),
            final(self).counters_spec() == old(self).counters_spec(),
            final(self).stats_spec() == old(self).stats_spec(),
            final(self).entries_spec() == flushed_in_set(
                old(self).entries_spec(),
                set_of(vpn, old(self).sets_spec()) * old(self).ways_spec(),
                old(self).ways_spec() as int,
                |e: TlbEntry| e.vpn == vpn,
            ),
    {
        self.flush_set_where(vpn, None);
    }

    /// Empties the slots of `vpn`'s set holding an entry for `vpn` that is
    /// global or of `asid`.
    pub fn flush_asid_va(&mut self, asid: u16, vpn: u64)
        requires
            old(self).wf(),
        ensures
            final(self).wf(),
            final(self).ways_spec() == old(self).ways_spec(),
            final(self).sets_spec() == old(self).sets_spec(),
            final(self).counters_spec() == old(self).counters_spec(),
            final(self).stats_spec() == old(self).stats_spec(),
            final(self).entries_spec() == flushed_in_set(
                old(self).entries_spec(),
                set_of(vpn, old(self).sets_spec()) * old(self).ways_spec(),
                old(self).ways_spec() as int,
                |e: TlbEntry| slot_matches(e, vpn, asid),
            ),
    {
        self.flush_set_where(vpn, Some(asid));
    }

    fn flush_set_where(&mut self, vpn: u64, asid: Option<u16>)
        requires
            old(self).wf(),
        ensures
            final(self).wf(),
            final(self).ways == old(self).ways,
            final(self).sets == old(self).sets,
            final(self).lru_counters@ == old(self).lru_counters@,
            final(self).stats == old(self).stats,
            final(self).entries@ == flushed_in_set(
                old(self).entries@,
                set_of(vpn, old(self).sets) * old(self).ways,
                old(self).ways as int,
                |e: TlbEntry|
                    match asid {
                        Some(a) => slot_matches(e, vpn, a),
                        None => e.vpn == vpn,
                    },
            ),
    {
        let set = self.set_index(vpn);
        let ghost base = set * self.ways;
        let ghost e0 = self.entries@;
        let ghost pred = |e: TlbEntry|
            match asid {
                Some(a) => slot_matches(e, vpn, a),
                None => e.vpn == vpn,
            };
        let mut way: usize = 0;
        while way < self.ways
            invariant
                self.wf(),
                set < self.sets,
                base == set * self.ways,
                way <= self.ways,
                self.ways == old(self).ways,
                self.sets == old(self).sets,
                self.size == old(self).size,
                self.stats == old(self).stats,
                self.lru_counters@ == old(self).lru_counters@,
                e0 == old(self).entries@,
                self.entries@.len() == e0.len(),
                set == set_of(vpn, self.sets),
                pred == (|e: TlbEntry|
                    match asid {
                        Some(a) => slot_matches(e, vpn, a),
                        None => e.vpn == vpn,
                    }),
                forall|i: int|
                    0 <= i < e0.len() ==> #[trigger] self.entries@[i] == if base <= i < base + way {
                        flushed_in_set(e0, base, self.ways as int, pred)[i]
                    } else {
                        e0[i]
                    },
            decreases self.ways - way,
        {
            let idx = self.entry_index(set, way);
            if let Some(e) = self.entries[idx] {
                let hit = match asid {
                    Some(a) => e.vpn == vpn && (e.global || e.asid == a),
                    None => e.vpn == vpn,
                };
                if hit {
                    self.entries.set(idx, None);
                }
            }
            way = way + 1;
        }
        assert(self.entries@ =~= flushed_in_set(e0, base, self.ways as int, pred));
    }

    /// The statistics.
    pub fn stats(&self) -> (r: TlbStats)
        ensures
            r == self.stats_spec(),
    {
        self.stats
    }
}

/// `entries` with the slots of the set at `base` whose entry satisfies
/// `pred` emptied.
pub open spec fn flushed_in_set(
    entries: Seq<Option<TlbEntry>>,
    base: int,
    ways: int,
    pred: spec_fn(TlbEntry) -> bool,
) -> Seq<Option<TlbEntry>> {
    Seq::new(
        entries.len(),
        |i: int|
            if base <= i < base + ways {
                match entries[i] {
                    Some(e) => if pred(e) {
                        None
                    } else {
                        Some(e)
                    },
                    None => None,
                }
            } else {
                entries[i]
            },
    )
}

/// Whether a slot holds an entry translating `vpn` in `asid`.
pub open spec fn slot_hit(slot: Option<TlbEntry>, vpn: u64, asid: u16) -> bool {
    slot matches Some(e) && slot_matches(e, vpn, asid)
}

/// What `first_match` finds is a hit at or after `w`, and it finds one
/// whenever one exists.
proof fn lemma_first_match(entries: Seq<Option<TlbEntry>>, base: int, w: int, ways: int, vpn: u64, asid: u16)
    ensures
        first_match(entries, base, w, ways, vpn, asid) matches Some((k, x)) ==> w <= k < ways
            && entries[base + k] == Some(x) && slot_matches(x, vpn, asid),
        first_match(entries, base, w, ways, vpn, asid) is None <==> forall|k: int|
            w <= k < ways ==> !slot_hit(#[trigger] entries[base + k], vpn, asid),
    decreases ways - w,
{
    if w < ways {
        lemma_first_match(entries, base, w + 1, ways, vpn, asid);
        if first_match(entries, base, w, ways, vpn, asid) is None {
            assert forall|k: int| w <= k < ways implies !slot_hit(#[trigger] entries[base + k], vpn, asid) by {
                if k > w {
                    assert(w + 1 <= k < ways);
                }
            }
        }
    }
}

/// After an entry for `vpn` is inserted into a way of `vpn`'s set, a lookup
/// of `vpn` in an address space the entry covers hits.
pub proof fn lemma_insert_then_lookup_hits(t0: Tlb, t1: Tlb, vpn: u64, e: TlbEntry, asid: u16, way: int)
    requires
        t0.wf(),
        t1.ways_spec() == t0.ways_spec(),
        t1.sets_spec() == t0.sets_spec(),
        0 <= way < t0.ways_spec(),
        t1.entries_spec() == t0.entries_spec().update(
            set_of(vpn, t0.sets_spec()) * t0.ways_spec() + way,
            Some(e),
        ),
        slot_matches(e, vpn, asid),
    ensures
        t1.lookup_spec(vpn, asid) matches Some((k, x)) && slot_matches(x, vpn, asid),
{
    let base = set_of(vpn, t1.sets_spec()) * t1.ways_spec();
    lemma_slot_in_range(set_of(vpn, t0.sets_spec()), way, t0.sets_spec() as int, t0.ways_spec() as int);
    lemma_first_match(t1.entries_spec(), base, 0, t1.ways_spec() as int, vpn, asid);
    assert(slot_hit(t1.entries_spec()[base + way], vpn, asid));
}

/// After `flush_all`, every lookup misses.
pub proof fn lemma_flush_all_misses(t: Tlb, vpn: u64, asid: u16)
    requires
        t.wf(),
        forall|i: int| 0 <= i < t.entries_spec().len() ==> #[trigger] t.entries_spec()[i] is None,
    ensures
        t.lookup_spec(vpn, asid) is None,
{
    let base = set_of(vpn, t.sets_spec()) * t.ways_spec();
    lemma_first_match(t.entries_spec(), base, 0, t.ways_spec() as int, vpn, asid);
    assert forall|k: int| 0 <= k < t.ways_spec() implies !slot_hit(#[trigger] t.entries_spec()[base + k], vpn, asid) by {
        lemma_slot_in_range(set_of(vpn, t.sets_spec()), k, t.sets_spec() as int, t.ways_spec() as int);
    }
}

/// After `flush_va(vpn)`, a lookup of `vpn` misses in every address space.
pub proof fn lemma_flush_va_misses(t0: Tlb, t1: Tlb, vpn: u64, asid: u16)
    requires
        t0.wf(),
        t1.ways_spec() == t0.ways_spec(),
        t1.sets_spec() == t0.sets_spec(),
        t1.entries_spec() == flushed_in_set(
            t0.entries_spec(),
            set_of(vpn, t0.sets_spec()) * t0.ways_spec(),
            t0.ways_spec() as int,
            |e: TlbEntry| e.vpn == vpn,
        ),
    ensures
        t1.lookup_spec(vpn, asid) is None,
{
    let base = set_of(vpn, t0.sets_spec()) * t0.ways_spec();
    lemma_first_match(t1.entries_spec(), base, 0, t1.ways_spec() as int, vpn, asid);
    assert forall|k: int| 0 <= k < t1.ways_spec() implies !slot_hit(#[trigger] t1.entries_spec()[base + k], vpn, asid) by {
        lemma_slot_in_range(set_of(vpn, t0.sets_spec()), k, t0.sets_spec() as int, t0.ways_spec() as int);
    }
}

/// After `flush_asid_va(asid, vpn)`, a lookup of `vpn` in `asid` misses.
pub proof fn lemma_flush_asid_va_misses(t0: Tlb, t1: Tlb, vpn: u64, asid: u16)
    requires
        t0.wf(),
        t1.ways_spec() == t0.ways_spec(),
        t1.sets_spec() == t0.sets_spec(),
        t1.entries_spec() == flushed_in_set(
            t0.entries_spec(),
            set_of(vpn, t0.sets_spec()) * t0.ways_spec(),
            t0.ways_spec() as int,
            |e: TlbEntry| slot_matches(e, vpn, asid),
        ),
    ensures
        t1.lookup_spec(vpn, asid) is None,
{
    let base = set_of(vpn, t0.sets_spec()) * t0.ways_spec();
    lemma_first_match(t1.entries_spec(), base, 0, t1.ways_spec() as int, vpn, asid);
    assert forall|k: int| 0 <= k < t1.ways_spec() implies !slot_hit(#[trigger] t1.entries_spec()[base + k], vpn, asid) by {
        lemma_slot_in_range(set_of(vpn, t0.sets_spec()), k, t0.sets_spec() as int, t0.ways_spec() as int);
    }
}

/// After `flush_asid(asid)`, a lookup in `asid` can only hit a global entry.
pub proof fn lemma_flush_asid_leaves_global(t0: Tlb, t1: Tlb, vpn: u64, asid: u16)
    requires
        t0.wf(),
        t1.ways_spec() == t0.ways_spec(),
        t1.sets_spec() == t0.sets_spec(),
        t1.entries_spec() == Seq::new(
            t0.entries_spec().len(),
            |i: int|
                match t0.entries_spec()[i] {
                    Some(e) => if !e.global && e.asid == asid {
                        None
                    } else {
                        Some(e)
                    },
                    None => None,
                },
        ),
    ensures
        t1.lookup_spec(vpn, asid) matches Some((k, x)) ==> x.global,
{
    let base = set_of(vpn, t0.sets_spec()) * t0.ways_spec();
    lemma_first_match(t1.entries_spec(), base, 0, t1.ways_spec() as int, vpn, asid);
    if let Some((k, x)) = t1.lookup_spec(vpn, asid) {
        lemma_slot_in_range(set_of(vpn, t0.sets_spec()), k, t0.sets_spec() as int, t0.ways_spec() as int);
    }
}

proof fn lemma_slot_in_range(set: int, way: int, sets: int, ways: int)
    requires
        0 <= set < sets,
        0 <= way < ways,
    ensures
        set * ways + way < sets * ways,
        0 <= set * ways,
{
    assert(set * ways + way < sets * ways) by (nonlinear_arith)
        requires
            0 <= set < sets,
            0 <= way < ways,
    ;
    assert(0 <= set * ways) by (nonlinear_arith)
        requires
            0 <= set,
            0 <= ways,
    ;
}

} // verus!
