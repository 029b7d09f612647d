//! A refcounted, sharded string interner that reclaims its own entries.
//!
//! The interner takes the caller's hash of a string and keeps it beside the
//! string, so interning hashes a string once and [`Interned::hash`] is a read
//! rather than a rehash.
//!
//! # Reclamation
//!
//! The table owns one reference to each entry and every [`Interned`] handle
//! owns one more, so dropping a handle never frees anything. Freeing happens in
//! [`Interner::sweep`] and in the sweeps that insertions trigger, which remove
//! every entry that only the table still refers to. A shard sweeps once the
//! insertions since its last sweep pass half of its size (at least
//! [`MIN_SWEEP_THRESHOLD`]), so each insertion amortizes to a constant amount
//! of sweeping however large the table grows.
use std::sync::Arc;

use hashbrown::HashTable;
use vstd::multiset::Multiset;
use vstd::prelude::*;

use crate::text::str_eq;

verus! {

broadcast use vstd::multiset::group_multiset_axioms;

/// Number of shards. A power of two: [`shard_index`] takes the index from the
/// top bits of the hash.
pub const SHARDS: usize = 64;

/// Smallest number of insertions a shard waits for before sweeping.
pub const MIN_SWEEP_THRESHOLD: usize = 64;

/// The largest number of entries a shard holds; beyond it a string is handed
/// out without being shared. Far above anything memory allows, it keeps every
/// table growth clear of the table's capacity overflow.
pub const MAX_SHARD_ENTRIES: usize = usize::MAX / 256;

/// An interned string and the hash its caller computed for it.
pub struct Entry {
    text: String,
    hash: u64,
}

/// The string and hash an entry holds.
pub closed spec fn entry_key(e: Entry) -> (Seq<char>, u64) {
    (e.text@, e.hash)
}

/// The keys of a sequence of entries, counted with multiplicity.
pub closed spec fn keys_of(v: Seq<Arc<Entry>>) -> Multiset<(Seq<char>, u64)> {
    v.map_values(|e: Arc<Entry>| entry_key(*e)).to_multiset()
}

/// A `hashbrown::HashTable` of entries, held out of Verus's sight: its
/// contents are known only through [`table_entries`] and the wrappers below.
#[verifier::external_body]
pub struct EntryTable {
    table: HashTable<Arc<Entry>>,
}

/// The keys of the entries a table holds.
pub uninterp spec fn table_entries(t: EntryTable) -> Multiset<(Seq<char>, u64)>;

/// Every entry of the table sits where the hash stored in the entry places it.
pub uninterp spec fn table_placed_by_entry_hash(t: EntryTable) -> bool;

/// `HashTable::new`: an empty table, which allocates nothing.
#[verifier::external_body]
fn table_new() -> (t: EntryTable)
    ensures
        table_entries(t) =~= Multiset::empty(),
        table_placed_by_entry_hash(t),
{
    EntryTable { table: HashTable::new() }
}

/// `HashTable::len`: the number of entries in the table.
#[verifier::external_body]
fn table_len(t: &EntryTable) -> (n: usize)
    ensures
        n == table_entries(*t).len(),
{
    t.table.len()
}

/// `HashTable::find` with the probe hash `hash`, matching the entry that holds
/// exactly `s` and `hash`.
///
/// `find` visits every entry inserted under `hash` and stops at the first one
/// the predicate accepts, so it misses no such entry when each entry was
/// inserted under its own stored hash.
#[verifier::external_body]
fn table_find<'a>(t: &'a EntryTable, s: &str, hash: u64) -> (r: Option<&'a Arc<Entry>>)
    requires
        table_placed_by_entry_hash(*t),
    ensures
        match r {
            Some(e) => e.text@ == s@ && e.hash == hash && table_entries(*t).contains((s@, hash)),
            None => !table_entries(*t).contains((s@, hash)),
        },
{
    t.table.find(hash, |e| entry_matches(e, s, hash))
}

/// `HashTable::insert_unique`, placing the entry under the hash it stores and
/// rehashing with the stored hashes when the table grows.
#[verifier::external_body]
fn table_insert(t: &mut EntryTable, e: Arc<Entry>)
    requires
        table_placed_by_entry_hash(*old(t)),
        table_entries(*old(t)).len() < MAX_SHARD_ENTRIES,
    ensures
        table_entries(*final(t)) == table_entries(*old(t)).insert(entry_key(*e)),
        table_placed_by_entry_hash(*final(t)),
{
    let hash = e.hash;
    t.table.insert_unique(hash, e, |x| x.hash);
}

/// `HashTable::extract_if`, run to the end, removing the entries that only the
/// table refers to. The removed entries come back; the rest stay in place.
/// Which entries that is depends on the handles held elsewhere, so only the
/// partition of the old entries into kept and removed ones is stated.
#[verifier::external_body]
fn table_extract_unreferenced(t: &mut EntryTable) -> (removed: Vec<Arc<Entry>>)
    requires
        table_placed_by_entry_hash(*old(t)),
    ensures
        table_entries(*old(t)) == table_entries(*final(t)).add(keys_of(removed@)),
        table_placed_by_entry_hash(*final(t)),
{
    t.table.extract_if(|e| is_unreferenced(e)).collect()
}

/// `Arc::strong_count`: how many `Arc` pointers share the allocation, at
/// least the one passed in. The count moves with handles held elsewhere.
#[verifier::external_body]
fn arc_strong_count(e: &Arc<Entry>) -> (n: usize)
    ensures
        n >= 1,
{
    Arc::strong_count(e)
}

/// `Arc::clone`: another pointer to the same allocation, hence the same entry.
#[verifier::external_body]
fn arc_clone(e: &Arc<Entry>) -> (r: Arc<Entry>)
    ensures
        r == *e,
{
    Arc::clone(e)
}

/// `Arc::ptr_eq`: whether both pointers share one allocation, which then
/// holds one entry.
#[verifier::external_body]
fn arc_ptr_eq(a: &Arc<Entry>, b: &Arc<Entry>) -> (r: bool)
    ensures
        r ==> *a == *b,
{
    Arc::ptr_eq(a, b)
}

/// Whether the entry holds exactly `s` under `hash`.
fn entry_matches(e: &Arc<Entry>, s: &str, hash: u64) -> (r: bool)
    ensures
        r == (e.text@ == s@ && e.hash == hash),
{
    e.hash == hash && str_eq(e.text.as_str(), s)
}

/// Whether only the table refers to the entry.
fn is_unreferenced(e: &Arc<Entry>) -> bool {
    arc_strong_count(e) == 1
}

/// The shard a hash belongs to: its top six bits.
pub open spec fn shard_of(hash: u64) -> int {
    (hash >> 58u64) as int
}

/// Sharded by the **top** bits of the hash: `hashbrown` picks buckets with the
/// low bits, so sharding on those would give every entry of a shard the same
/// bucket index.
pub fn shard_index(hash: u64) -> (i: usize)
    ensures
        i == shard_of(hash),
        i < SHARDS,
{
    assert(hash >> 58u64 < 64) by (bit_vector);
    (hash >> 58u64) as usize
}

/// How many insertions a shard of `len` entries waits for before sweeping.
pub open spec fn sweep_threshold(len: nat) -> nat {
    if len / 2 > MIN_SWEEP_THRESHOLD as nat {
        len / 2
    } else {
        MIN_SWEEP_THRESHOLD as nat
    }
}

/// What interning `key` does to a shard, beyond keeping it well formed: a
/// key it holds changes nothing; a full shard changes nothing; otherwise the
/// key is added and one more insertion is counted, unless the count passes
/// the threshold for the grown shard, which sweeps it and restarts the count.
spec fn shard_insert_outcome(old_shard: Shard, new_shard: Shard, key: (Seq<char>, u64)) -> bool {
    let len = old_shard.entries().len();
    if old_shard.entries().contains(key) || len >= MAX_SHARD_ENTRIES {
        &&& new_shard.entries() == old_shard.entries()
        &&& new_shard.inserts_since_sweep == old_shard.inserts_since_sweep
    } else if old_shard.inserts_since_sweep + 1 <= sweep_threshold(len + 1) {
        &&& new_shard.entries() == old_shard.entries().insert(key)
        &&& new_shard.inserts_since_sweep == old_shard.inserts_since_sweep + 1
    } else {
        new_shard.inserts_since_sweep == 0
    }
}

struct Shard {
    table: EntryTable,
    inserts_since_sweep: usize,
}

impl Shard {
    spec fn entries(&self) -> Multiset<(Seq<char>, u64)> {
        table_entries(self.table)
    }

    /// The table is placed by hash, holds each key at most once, only holds
    /// keys of this shard, and is due a sweep no later than its threshold.
    spec fn wf(&self, index: int) -> bool {
        &&& table_placed_by_entry_hash(self.table)
        &&& forall|k: (Seq<char>, u64)| #[trigger] self.entries().count(k) <= 1
        &&& forall|k: (Seq<char>, u64)| #[trigger] self.entries().contains(k) ==> shard_of(k.1) == index
        &&& self.inserts_since_sweep <= sweep_threshold(self.entries().len())
        &&& self.entries().len() <= MAX_SHARD_ENTRIES
    }

    fn new() -> (s: Self)
        ensures
            forall|i: int| s.wf(i),
            s.entries() =~= Multiset::empty(),
            s.inserts_since_sweep == 0,
    {
        Shard { table: table_new(), inserts_since_sweep: 0 }
    }

    fn threshold(&self) -> (n: usize)
        ensures
            n == sweep_threshold(self.entries().len()),
    {
        let half = table_len(&self.table) / 2;
        if half > MIN_SWEEP_THRESHOLD {
            half
        } else {
            MIN_SWEEP_THRESHOLD
        }
    }

    /// Removes every entry no handle refers to and hands them back.
    fn sweep(&mut self) -> (removed: Vec<Arc<Entry>>)
        requires
            table_placed_by_entry_hash(old(self).table),
        ensures
            old(self).entries() == final(self).entries().add(keys_of(removed@)),
            table_placed_by_entry_hash(final(self).table),
            final(self).inserts_since_sweep == 0,
    {
        self.inserts_since_sweep = 0;
        table_extract_unreferenced(&mut self.table)
    }
}

impl Shard {
    /// Interns `s` under `hash` in this shard.
    fn intern(&mut self, s: &str, hash: u64, Ghost(index): Ghost<int>) -> (r: Interned)
        requires
            old(self).wf(index),
            shard_of(hash) == index,
        ensures
            final(self).wf(index),
            r@ == (s@, hash),
            old(self).entries().contains((s@, hash)) ==> final(self).entries() == old(self).entries(),
            forall|k: (Seq<char>, u64)|
                k != (s@, hash) ==> #[trigger] final(self).entries().count(k) <= old(self).entries().count(k),
            old(self).entries().len() < MAX_SHARD_ENTRIES ==> final(self).entries().contains((s@, hash)),
            shard_insert_outcome(*old(self), *final(self), (s@, hash)),
    {
        if let Some(e) = table_find(&self.table, s, hash) {
            return Interned { entry: arc_clone(e) };
        }
        let len = table_len(&self.table);
        let text = s.to_owned();
        let entry = Arc::new(Entry { text, hash });
        let handle = Interned { entry: arc_clone(&entry) };
        if len >= MAX_SHARD_ENTRIES {
            return handle;
        }
        let half = (len + 1) / 2;
        let threshold = if half > MIN_SWEEP_THRESHOLD {
            half
        } else {
            MIN_SWEEP_THRESHOLD
        };
        if self.inserts_since_sweep + 1 > threshold {
            let ghost before = self.entries();
            let removed = self.sweep();
            proof {
                lemma_sub_multiset_keeps_shard(self.entries(), keys_of(removed@), index);
                assert(!self.entries().contains((s@, hash))) by {
                    assert(before.count((s@, hash)) == self.entries().count((s@, hash)) + keys_of(removed@).count((s@, hash)));
                }
            }
        } else {
            self.inserts_since_sweep = self.inserts_since_sweep + 1;
        }
        let ghost mid = self.entries();
        assert(forall|k: (Seq<char>, u64)| #[trigger] mid.contains(k) ==> shard_of(k.1) == index);
        table_insert(&mut self.table, entry);
        proof {
            assert forall|k: (Seq<char>, u64)| #[trigger] self.entries().count(k) <= 1 by {
                if k != (s@, hash) {
                    assert(self.entries().count(k) == mid.count(k));
                }
            }
            assert forall|k: (Seq<char>, u64)| #[trigger] self.entries().contains(k) implies shard_of(k.1) == index by {
                if k != (s@, hash) {
                    assert(self.entries().count(k) == mid.count(k));
                    assert(mid.contains(k));
                } else {
                    assert(k.1 == hash);
                }
            }
        }
        handle
    }
}

proof fn lemma_sub_multiset_keeps_shard(m: Multiset<(Seq<char>, u64)>, r: Multiset<(Seq<char>, u64)>, index: int)
    requires
        forall|k: (Seq<char>, u64)| #[trigger] m.add(r).count(k) <= 1,
        forall|k: (Seq<char>, u64)| #[trigger] m.add(r).contains(k) ==> shard_of(k.1) == index,
    ensures
        forall|k: (Seq<char>, u64)| #[trigger] m.count(k) <= 1,
        forall|k: (Seq<char>, u64)| #[trigger] m.contains(k) ==> shard_of(k.1) == index,
        m.len() <= m.add(r).len(),
{
    assert forall|k: (Seq<char>, u64)| #[trigger] m.count(k) <= 1 by {
        assert(m.add(r).count(k) == m.count(k) + r.count(k));
    }
    assert forall|k: (Seq<char>, u64)| #[trigger] m.contains(k) implies shard_of(k.1) == index by {
        assert(m.add(r).count(k) == m.count(k) + r.count(k));
        assert(m.add(r).contains(k));
    }
}

/// A handle to an interned string. Each handle holds a reference to its
/// entry, so the entry outlives every sweep while a handle to it is alive.
pub struct Interned {
    entry: Arc<Entry>,
}

impl View for Interned {
    type V = (Seq<char>, u64);

    /// The string and the hash it was interned under.
    closed spec fn view(&self) -> (Seq<char>, u64) {
        entry_key(*self.entry)
    }
}

impl Interned {
    pub fn as_str(&self) -> (r: &str)
        ensures
            r@ == self@.0,
    {
        self.entry.text.as_str()
    }

    /// The hash handed to [`Interner::intern`], read back from the entry.
    pub fn hash(&self) -> (h: u64)
        ensures
            h == self@.1,
    {
        self.entry.hash
    }

    /// Whether both handles name the same interner entry. One entry holds one
    /// string, so handles to one entry hold the same string and hash.
    pub fn ptr_eq(&self, other: &Self) -> (r: bool)
        ensures
            r ==> self@ == other@,
    {
        arc_ptr_eq(&self.entry, &other.entry)
    }

    /// A handle to an entry of its own, held by no table.
    pub fn detached(s: &str, hash: u64) -> (r: Interned)
        ensures
            r@ == (s@, hash),
    {
        Interned { entry: Arc::new(Entry { text: s.to_owned(), hash }) }
    }

    /// One for the table plus one per live handle. A snapshot: other handles
    /// may come and go at any time.
    pub fn refcount(&self) -> (n: usize)
        ensures
            n >= 1,
    {
        arc_strong_count(&self.entry)
    }
}

impl Clone for Interned {
    /// Another handle to the same entry.
    fn clone(&self) -> (r: Self)
        ensures
            r@ == self@,
    {
        Interned { entry: arc_clone(&self.entry) }
    }
}

/// The entries of the first `n` shards, counted with multiplicity.
closed spec fn entries_upto(shards: Seq<Shard>, n: nat) -> Multiset<(Seq<char>, u64)>
    decreases n,
{
    if n == 0 || n > shards.len() {
        Multiset::empty()
    } else {
        entries_upto(shards, (n - 1) as nat).add(shards[n - 1].entries())
    }
}

/// A string interner. Distinct instances have distinct tables.
pub struct Interner {
    shards: Vec<Shard>,
}

impl View for Interner {
    type V = Multiset<(Seq<char>, u64)>;

    /// The strings held, each with the hash it was interned under.
    closed spec fn view(&self) -> Multiset<(Seq<char>, u64)> {
        entries_upto(self.shards@, SHARDS as nat)
    }
}

impl Interner {
    /// Every shard is well formed at its own index.
    pub closed spec fn wf(&self) -> bool {
        &&& self.shards@.len() == SHARDS
        &&& forall|i: int| 0 <= i < SHARDS ==> #[trigger] self.shards@[i].wf(i)
    }

    /// How many entries the shard of `hash` holds.
    pub closed spec fn shard_len(&self, hash: u64) -> nat {
        self.shards@[shard_of(hash)].entries().len()
    }

    /// How many strings the shard of `hash` took in since it was last swept;
    /// the shard sweeps itself once this passes its threshold (see
    /// [`sweep_threshold`]).
    pub closed spec fn inserts_since_sweep(&self, hash: u64) -> nat {
        self.shards@[shard_of(hash)].inserts_since_sweep as nat
    }

    proof fn lemma_view_count(&self, k: (Seq<char>, u64))
        requires
            self.wf(),
        ensures
            self@.count(k) == self.shards@[shard_of(k.1)].entries().count(k),
    {
        lemma_shard_of_bound(k.1);
        assert forall|j: int, k2: (Seq<char>, u64)|
            0 <= j < SHARDS && #[trigger] self.shards@[j].entries().contains(k2) implies shard_of(k2.1) == j by {
            assert(self.shards@[j].wf(j));
        }
        lemma_entries_upto_count(self.shards@, SHARDS as nat, k);
    }

    /// Each string is held at most once under a given hash.
    pub proof fn lemma_one_entry_per_key(&self, k: (Seq<char>, u64))
        requires
            self.wf(),
        ensures
            self@.count(k) <= 1,
    {
        self.lemma_view_count(k);
        lemma_shard_of_bound(k.1);
        assert(self.shards@[shard_of(k.1)].wf(shard_of(k.1)));
    }

    /// Intern `s`, whose hash the caller has already computed.
    ///
    /// `hash` must be a function of `s` alone: the interner keeps one entry
    /// per string and hash, so two hashes for one string make two entries.
    /// The hash is otherwise free, and comes back verbatim from
    /// [`Interned::hash`].
    pub fn intern(&mut self, s: &str, hash: u64) -> (r: Interned)
        requires
            old(self).wf(),
        ensures
            final(self).wf(),
            r@ == (s@, hash),
            old(self)@.contains((s@, hash)) ==> final(self)@ == old(self)@,
            forall|k: (Seq<char>, u64)|
                k != (s@, hash) ==> #[trigger] final(self)@.count(k) <= old(self)@.count(k),
            old(self).shard_len(hash) < MAX_SHARD_ENTRIES ==> final(self)@.contains((s@, hash)),
            forall|h: u64|
                shard_of(h) != shard_of(hash) ==> #[trigger] final(self).inserts_since_sweep(h)
                    == old(self).inserts_since_sweep(h),
            !old(self)@.contains((s@, hash)) && old(self).shard_len(hash) < MAX_SHARD_ENTRIES
                && old(self).inserts_since_sweep(hash) + 1 <= sweep_threshold(old(self).shard_len(hash) + 1) ==> {
                &&& final(self)@ == old(self)@.insert((s@, hash))
                &&& final(self).inserts_since_sweep(hash) == old(self).inserts_since_sweep(hash) + 1
            },
            !old(self)@.contains((s@, hash)) && old(self).shard_len(hash) < MAX_SHARD_ENTRIES
                && old(self).inserts_since_sweep(hash) + 1 > sweep_threshold(old(self).shard_len(hash) + 1)
                ==> final(self).inserts_since_sweep(hash) == 0,
            old(self)@.contains((s@, hash)) || old(self).shard_len(hash) >= MAX_SHARD_ENTRIES ==> {
                &&& final(self)@ == old(self)@
                &&& final(self).inserts_since_sweep(hash) == old(self).inserts_since_sweep(hash)
            },
    {
        let idx = shard_index(hash);
        let ghost before = self.shards@;
        proof {
            assert(before[idx as int].wf(idx as int));
        }
        let r = self.shards[idx].intern(s, hash, Ghost(idx as int));
        proof {
            assert(self.shards@ == before.update(idx as int, self.shards@[idx as int]));
            assert forall|i: int| 0 <= i < SHARDS implies #[trigger] self.shards@[i].wf(i) by {
                if i != idx {
                    assert(self.shards@[i] == before[i]);
                    assert(old(self).shards@[i].wf(i));
                }
            }
            assert forall|k: (Seq<char>, u64)| #[trigger] self@.count(k) == if shard_of(k.1) == idx {
                self.shards@[idx as int].entries().count(k)
            } else {
                old(self)@.count(k)
            } by {
                self.lemma_view_count(k);
                old(self).lemma_view_count(k);
                lemma_shard_of_bound(k.1);
                if shard_of(k.1) != idx {
                    assert(self.shards@[shard_of(k.1)] == old(self).shards@[shard_of(k.1)]);
                }
            }
            if old(self)@.contains((s@, hash)) {
                old(self).lemma_view_count((s@, hash));
                assert(old(self).shards@[idx as int].entries().contains((s@, hash)));
                assert forall|k: (Seq<char>, u64)| #[trigger] self@.count(k) == old(self)@.count(k) by {
                    old(self).lemma_view_count(k);
                    if shard_of(k.1) == idx {
                        assert(self@.count(k) == self.shards@[idx as int].entries().count(k));
                    }
                }
                assert(self@ =~= old(self)@);
            }
            assert forall|k: (Seq<char>, u64)| k != (s@, hash) implies #[trigger] self@.count(k) <= old(self)@.count(k) by {
                old(self).lemma_view_count(k);
                assert(self@.count(k) == if shard_of(k.1) == idx {
                    self.shards@[idx as int].entries().count(k)
                } else {
                    old(self)@.count(k)
                });
            }
            assert(self@.count((s@, hash)) == if shard_of(hash) == idx {
                self.shards@[idx as int].entries().count((s@, hash))
            } else {
                old(self)@.count((s@, hash))
            });
            assert forall|h: u64| shard_of(h) != shard_of(hash) implies #[trigger] self.inserts_since_sweep(h)
                == old(self).inserts_since_sweep(h) by {
                lemma_shard_of_bound(h);
                assert(self.shards@[shard_of(h)] == before[shard_of(h)]);
            }
            old(self).lemma_view_count((s@, hash));
            let key = (s@, hash);
            let old_shard = before[idx as int];
            if !old_shard.entries().contains(key) && old_shard.entries().len() < MAX_SHARD_ENTRIES
                && old_shard.inserts_since_sweep + 1 <= sweep_threshold(old_shard.entries().len() + 1) {
                assert forall|k: (Seq<char>, u64)| #[trigger] self@.count(k) == old(self)@.insert(key).count(k) by {
                    old(self).lemma_view_count(k);
                    assert(self@.count(k) == if shard_of(k.1) == idx {
                        self.shards@[idx as int].entries().count(k)
                    } else {
                        old(self)@.count(k)
                    });
                    if k == key {
                        assert(shard_of(k.1) == idx);
                    } else if shard_of(k.1) == idx {
                        assert(self.shards@[idx as int].entries().count(k) == old_shard.entries().count(k));
                    }
                }
                assert(self@ =~= old(self)@.insert(key));
            }
            if old_shard.entries().len() >= MAX_SHARD_ENTRIES {
                assert forall|k: (Seq<char>, u64)| #[trigger] self@.count(k) == old(self)@.count(k) by {
                    old(self).lemma_view_count(k);
                    assert(self@.count(k) == if shard_of(k.1) == idx {
                        self.shards@[idx as int].entries().count(k)
                    } else {
                        old(self)@.count(k)
                    });
                }
                assert(self@ =~= old(self)@);
            }
        }
        r
    }

    /// Reclaim every entry no handle refers to, across all shards, and
    /// restart every shard's count of insertions towards its next sweep.
    ///
    /// Insertions drive sweeps otherwise, so a shard that has gone quiet keeps
    /// its dead entries until this runs.
    pub fn sweep(&mut self)
        requires
            old(self).wf(),
        ensures
            final(self).wf(),
            forall|k: (Seq<char>, u64)| #[trigger] final(self)@.count(k) <= old(self)@.count(k),
            forall|h: u64| #[trigger] final(self).inserts_since_sweep(h) == 0,
    {
        let mut i: usize = 0;
        while i < SHARDS
            invariant
                self.wf(),
                i <= SHARDS,
                forall|j: int| 0 <= j < i ==> (#[trigger] self.shards@[j]).inserts_since_sweep == 0,
                forall|j: int| 0 <= j < SHARDS ==> (#[trigger] self.shards@[j]).entries().len() <= old(self).shards@[j].entries().len(),
                forall|j: int, k: (Seq<char>, u64)|
                    0 <= j < SHARDS ==> #[trigger] self.shards@[j].entries().count(k) <= old(self).shards@[j].entries().count(k),
            decreases SHARDS - i,
        {
            let ghost before = self.shards@;
            proof {
                assert(before[i as int].wf(i as int));
            }
            let removed = self.shards[i].sweep();
            proof {
                let m = self.shards@[i as int].entries();
                lemma_sub_multiset_keeps_shard(m, keys_of(removed@), i as int);
                assert(self.shards@ == before.update(i as int, self.shards@[i as int]));
                assert forall|j: int| 0 <= j < i + 1 implies (#[trigger] self.shards@[j]).inserts_since_sweep == 0 by {
                    if j != i {
                        assert(self.shards@[j] == before[j]);
                    }
                }
                assert forall|j: int| 0 <= j < SHARDS implies #[trigger] self.shards@[j].wf(j) by {
                    if j != i {
                        assert(self.shards@[j] == before[j]);
                    }
                }
                assert forall|j: int, k: (Seq<char>, u64)|
                    0 <= j < SHARDS implies #[trigger] self.shards@[j].entries().count(k) <= old(self).shards@[j].entries().count(k) by {
                    if j == i {
                        assert(before[j].entries().count(k) == m.count(k) + keys_of(removed@).count(k));
                    } else {
                        assert(self.shards@[j] == before[j]);
                    }
                }
                assert forall|j: int| 0 <= j < SHARDS implies (#[trigger] self.shards@[j]).entries().len() <= old(self).shards@[j].entries().len() by {
                    if j != i {
                        assert(self.shards@[j] == before[j]);
                    }
                }
            }
            i = i + 1;
        }
        proof {
            assert forall|k: (Seq<char>, u64)| #[trigger] self@.count(k) <= old(self)@.count(k) by {
                self.lemma_view_count(k);
                old(self).lemma_view_count(k);
                lemma_shard_of_bound(k.1);
            }
            assert forall|h: u64| #[trigger] self.inserts_since_sweep(h) == 0 by {
                lemma_shard_of_bound(h);
            }
        }
    }

    /// How many entries the interner holds, dead ones not yet swept included.
    pub fn len(&self) -> (n: usize)
        requires
            self.wf(),
        ensures
            n == self@.len(),
    {
        let mut total: usize = 0;
        let mut i: usize = 0;
        while i < SHARDS
            invariant
                self.wf(),
                i <= SHARDS,
                total == entries_upto(self.shards@, i as nat).len(),
                total <= i * MAX_SHARD_ENTRIES,
            decreases SHARDS - i,
        {
            let l = table_len(&self.shards[i].table);
            proof {
                assert(self.shards@[i as int].wf(i as int));
                lemma_entries_upto_len(self.shards@, (i + 1) as nat);
                assert((i + 1) * MAX_SHARD_ENTRIES == i * MAX_SHARD_ENTRIES + MAX_SHARD_ENTRIES) by (nonlinear_arith);
                assert((i + 1) * MAX_SHARD_ENTRIES <= SHARDS * MAX_SHARD_ENTRIES) by (nonlinear_arith)
                    requires
                        i + 1 <= SHARDS,
                ;
            }
            total = total + l;
            i = i + 1;
        }
        total
    }

    pub fn new() -> (r: Self)
        ensures
            r.wf(),
            r@ =~= Multiset::empty(),
            forall|h: u64| #[trigger] r.inserts_since_sweep(h) == 0,
    {
        let mut shards: Vec<Shard> = Vec::new();
        let mut i: usize = 0;
        while i < SHARDS
            invariant
                i <= SHARDS,
                shards@.len() == i,
                forall|j: int| 0 <= j < i ==> #[trigger] shards@[j].wf(j),
                forall|j: int| 0 <= j < i ==> #[trigger] shards@[j].entries() =~= Multiset::empty(),
                forall|j: int| 0 <= j < i ==> (#[trigger] shards@[j]).inserts_since_sweep == 0,
            decreases SHARDS - i,
        {
            shards.push(Shard::new());
            i = i + 1;
        }
        let r = Interner { shards };
        proof {
            lemma_entries_upto_empty(r.shards@, SHARDS as nat);
            assert forall|h: u64| #[trigger] r.inserts_since_sweep(h) == 0 by {
                lemma_shard_of_bound(h);
            }
        }
        r
    }
}

proof fn lemma_shard_of_bound(hash: u64)
    ensures
        0 <= shard_of(hash) < SHARDS,
{
    assert(hash >> 58u64 < 64) by (bit_vector);
}

proof fn lemma_entries_upto_count(shards: Seq<Shard>, n: nat, k: (Seq<char>, u64))
    requires
        n <= shards.len(),
        forall|j: int, k2: (Seq<char>, u64)|
            0 <= j < n && #[trigger] shards[j].entries().contains(k2) ==> shard_of(k2.1) == j,
    ensures
        entries_upto(shards, n).count(k) == if shard_of(k.1) < n {
            shards[shard_of(k.1)].entries().count(k)
        } else {
            0
        },
    decreases n,
{
    lemma_shard_of_bound(k.1);
    if n > 0 {
        lemma_entries_upto_count(shards, (n - 1) as nat, k);
        let last = shards[n - 1].entries();
        if shard_of(k.1) != n - 1 {
            if last.contains(k) {
                assert(shard_of(k.1) == n - 1);
            }
        }
    }
}

proof fn lemma_entries_upto_len(shards: Seq<Shard>, n: nat)
    requires
        0 < n <= shards.len(),
    ensures
        entries_upto(shards, n).len() == entries_upto(shards, (n - 1) as nat).len() + shards[n - 1].entries().len(),
{
}

proof fn lemma_entries_upto_empty(shards: Seq<Shard>, n: nat)
    requires
        n <= shards.len(),
        forall|j: int| 0 <= j < shards.len() ==> #[trigger] shards[j].entries() =~= Multiset::empty(),
    ensures
        entries_upto(shards, n) =~= Multiset::empty(),
    decreases n,
{
    if n > 0 {
        lemma_entries_upto_empty(shards, (n - 1) as nat);
    }
}

impl Default for Interner {
    fn default() -> (r: Self)
        ensures
            r.wf(),
            r@ =~= Multiset::empty(),
            forall|h: u64| #[trigger] r.inserts_since_sweep(h) == 0,
    {
        Interner::new()
    }
}

/// Intern `s` into `interner`. See [`Interner::intern`].
pub fn intern(interner: &mut Interner, s: &str, hash: u64) -> (r: Interned)
    requires
        old(interner).wf(),
    ensures
        final(interner).wf(),
        r@ == (s@, hash),
        old(interner)@.contains((s@, hash)) ==> final(interner)@ == old(interner)@,
        forall|k: (Seq<char>, u64)|
            k != (s@, hash) ==> #[trigger] final(interner)@.count(k) <= old(interner)@.count(k),
        old(interner).shard_len(hash) < MAX_SHARD_ENTRIES ==> final(interner)@.contains((s@, hash)),
{
    interner.intern(s, hash)
}

/// Entry count of `interner`. See [`Interner::len`].
pub fn live_entries(interner: &Interner) -> (n: usize)
    requires
        interner.wf(),
    ensures
        n == interner@.len(),
{
    interner.len()
}

} // verus!
