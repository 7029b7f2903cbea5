//! Heap-backed interned strings and the per-owner store that issues them.
//!
//! An [`Entry`] is the shared record behind one dynamic atom: the owned text,
//! its hash, the identity of the store that created it, and an atomically
//! updatable redirect installed by [`AtomStore::merge`]. An [`AtomStore`] is a
//! deduplicating table from hash to the entries with that hash; for any live
//! store at most one entry exists per distinct text.

use std::collections::HashMap;
use std::sync::Arc;
use std::sync::Mutex;

use vstd::prelude::*;
use vstd::utf8::*;

use crate::atom::Atom;
use crate::atom::MAX_INLINE_LEN;
use crate::hash::fnv64;
use crate::hash::hash_bytes;
use crate::util::bytes_eq;
use crate::util::lemma_encode_utf8_injective;

verus! {

broadcast use vstd::std_specs::hash::group_hash_axioms;

/// The shared record behind one dynamic atom.
///
/// Everything but `alias` is written once, at creation. `alias` is an
/// interior-mutable redirect that `AtomStore::merge` points at the canonical
/// entry of the absorbing store; readers never trust what they load from it
/// without re-checking the text.
pub struct Entry {
    /// The interned text.
    pub string: String,
    /// [`fnv64`] of the UTF-8 bytes of `string`, computed once at creation.
    pub hash: u64,
    /// Identity of the store that created this entry; `None` for entries that
    /// no store owns (the global table, derived atoms).
    pub store_id: Option<u32>,
    /// Redirect to the canonical entry for the same text after a merge.
    pub alias: AliasCell,
}

/// A well-formed entry: the stored hash is the hash of the stored text, and
/// the text is long enough that it was not inlined.
pub open spec fn entry_wf(e: Entry) -> bool {
    &&& e.hash == fnv64(encode_utf8(e.string@))
    &&& encode_utf8(e.string@).len() >= MAX_INLINE_LEN
}

/// Interior-mutable redirect slot of an [`Entry`].
///
/// Proofs assume nothing about its contents: every reader re-checks what it
/// loads. It only has to hand back values that were stored into it.
#[verifier::external_body]
pub struct AliasCell {
    cell: Mutex<Option<Arc<Entry>>>,
}

impl AliasCell {
    /// Relies on std::sync::Mutex::new: a fresh, empty slot.
    #[verifier::external_body]
    pub(crate) fn empty() -> AliasCell {
        AliasCell { cell: Mutex::new(None) }
    }

    /// Relies on std::sync::Mutex::lock: hands back a handle to the most
    /// recently stored redirect, or `None` before any store. No contract:
    /// callers verify everything they use about the result.
    #[verifier::external_body]
    pub(crate) fn load(&self) -> Option<Arc<Entry>> {
        match self.cell.lock() {
            Ok(guard) => guard.clone(),
            Err(poisoned) => poisoned.into_inner().clone(),
        }
    }

    /// Relies on std::sync::Mutex::lock: replaces the stored redirect.
    #[verifier::external_body]
    pub(crate) fn store(&self, target: Arc<Entry>) {
        match self.cell.lock() {
            Ok(mut guard) => {
                *guard = Some(target);
            },
            Err(poisoned) => {
                *poisoned.into_inner() = Some(target);
            },
        }
    }
}

/// Relies on std::sync::Arc::clone: the clone is a handle to the same entry.
#[verifier::external_body]
pub(crate) fn clone_entry(e: &Arc<Entry>) -> (r: Arc<Entry>)
    ensures
        r == *e,
{
    e.clone()
}

/// Relies on std::sync::Arc::ptr_eq: `true` only for handles to one
/// allocation, which therefore hold one and the same entry.
#[verifier::external_body]
pub(crate) fn same_entry(a: &Arc<Entry>, b: &Arc<Entry>) -> (r: bool)
    ensures
        r ==> *a == *b,
{
    Arc::ptr_eq(a, b)
}

/// Relies on std::sync::Arc::strong_count: the handle it is asked through is
/// itself counted, so the count is at least one.
#[verifier::external_body]
pub(crate) fn entry_ref_count(e: &Arc<Entry>) -> (r: usize)
    ensures
        r >= 1,
{
    Arc::strong_count(e)
}

/// Follows the redirects installed by merges, a bounded number of hops, and
/// returns the entry they end at. Every hop is re-checked to carry the same
/// text, so the result is an entry for the same text whatever the cells hold.
pub(crate) fn resolve_alias(e: &Arc<Entry>) -> (r: Arc<Entry>)
    ensures
        (*r).string@ == (*e).string@,
{
    let mut cur = clone_entry(e);
    let mut fuel: usize = 32;
    while fuel > 0
        invariant
            (*cur).string@ == (*e).string@,
        decreases fuel,
    {
        fuel = fuel - 1;
        let next = (*cur).alias.load();
        match next {
            Some(t) => {
                let same_text = bytes_eq(
                    (*t).string.as_str().as_bytes(),
                    (*cur).string.as_str().as_bytes(),
                );
                if same_text {
                    proof {
                        lemma_encode_utf8_injective((*t).string@, (*cur).string@);
                    }
                    cur = t;
                } else {
                    // A redirect that does not carry the same text is never
                    // trusted; stop at the entry before it.
                    return cur;
                }
            },
            None => {
                return cur;
            },
        }
    }
    cur
}

/// Scans a bucket for an entry holding exactly the given text.
fn find_in_bucket(bucket: &Vec<Arc<Entry>>, text: &str) -> (r: Option<usize>)
    ensures
        match r {
            Some(i) => 0 <= i < bucket@.len() && ((#[trigger] bucket@[i as int]).string)@
                == text@,
            None => forall|j: int|
                0 <= j < bucket@.len() ==> encode_utf8((#[trigger] bucket@[j].string)@)
                    != encode_utf8(text@),
        },
{
    let mut i: usize = 0;
    while i < bucket.len()
        invariant
            i <= bucket@.len(),
            forall|j: int|
                0 <= j < i ==> encode_utf8((#[trigger] bucket@[j].string)@) != encode_utf8(
                    text@,
                ),
        decreases bucket@.len() - i,
    {
        let hit = bytes_eq((*bucket[i]).string.as_str().as_bytes(), text.as_bytes());
        if hit {
            proof {
                lemma_encode_utf8_injective(((bucket@[i as int]).string)@, text@);
            }
            return Some(i);
        }
        i = i + 1;
    }
    None
}

/// What interning `text` guarantees when the text is long enough to go
/// through the table: the result wraps the entry the updated store holds for
/// `text`; the entry carries exactly that text, its hash, and the store's
/// identity; an already-present entry is reused untouched; and every other
/// text's entry is exactly as before.
pub open spec fn interned_atom_post(
    pre: AtomStore,
    post: AtomStore,
    text: Seq<char>,
    r: Atom,
) -> bool {
    &&& post.spec_contains(text)
    &&& r.spec_entry() == post.spec_entry(text)
    &&& entry_wf(r.spec_entry())
    &&& r.spec_entry().string@ == text
    &&& r.spec_entry().store_id == Some(pre.spec_id())
    &&& (pre.spec_contains(text) ==> r.spec_entry() == pre.spec_entry(text))
    &&& forall|t2: Seq<char>|
        pre.spec_contains(t2) ==> post.spec_contains(t2) && post.spec_entry(t2)
            == pre.spec_entry(t2)
    &&& forall|t2: Seq<char>| post.spec_contains(t2) ==> pre.spec_contains(t2) || t2 == text
}

/// What merging guarantees: entries of the absorbing store are untouched,
/// every text of the absorbed store is now held by the absorbing store, and
/// nothing else appeared.
pub open spec fn merge_post(pre: AtomStore, post: AtomStore, other: AtomStore) -> bool {
    &&& forall|t: Seq<char>|
        pre.spec_contains(t) ==> post.spec_contains(t) && post.spec_entry(t)
            == pre.spec_entry(t)
    &&& forall|t: Seq<char>| other.spec_contains(t) ==> post.spec_contains(t)
    &&& forall|t: Seq<char>|
        post.spec_contains(t) ==> pre.spec_contains(t) || other.spec_contains(t)
}

/// A store that issues atoms and deduplicates the entries behind them.
///
/// The table maps each hash to the entries carrying it; collisions are
/// resolved by comparing the text. Stores are single-owner: insertion takes
/// `&mut self`. Independent stores can be combined with [`AtomStore::merge`].
pub struct AtomStore {
    pub(crate) id: u32,
    pub(crate) data: HashMap<u64, Vec<Arc<Entry>>>,
    pub(crate) hashes: Vec<u64>,
}

/// Every entry of the bucket carries the given store identity.
pub open spec fn bucket_owned(id: u32, b: Seq<Arc<Entry>>) -> bool {
    forall|i: int| 0 <= i < b.len() ==> (#[trigger] b[i]).store_id == Some(id)
}

/// A well-formed bucket for hash `h`: every entry is well formed, carries `h`,
/// and no two entries hold the same text.
pub open spec fn bucket_wf(h: u64, b: Seq<Arc<Entry>>) -> bool {
    &&& forall|i: int| 0 <= i < b.len() ==> entry_wf(*#[trigger] b[i]) && b[i].hash == h
    &&& forall|i: int, j: int|
        0 <= i < j < b.len() ==> (#[trigger] b[i].string)@ != (#[trigger] b[j].string)@
}

impl AtomStore {
    /// The store's numeric identity.
    pub closed spec fn spec_id(self) -> u32 {
        self.id
    }

    /// Well-formedness: every bucket is well formed, keyed by the hash of its
    /// entries, and owned by this store; the key list mirrors the table's
    /// domain.
    pub closed spec fn wf(self) -> bool {
        &&& forall|h: u64| self.data@.contains_key(h) ==> bucket_wf(h, (#[trigger] self.data@[h])@)
        &&& forall|h: u64|
            self.data@.contains_key(h) ==> bucket_owned(self.id, (#[trigger] self.data@[h])@)
        &&& forall|h: u64| #[trigger] self.data@.contains_key(h) <==> self.hashes@.contains(h)
        &&& self.hashes@.no_duplicates()
    }

    /// Whether the store holds an entry for the text `t`.
    pub closed spec fn spec_contains(self, t: Seq<char>) -> bool {
        let h = fnv64(encode_utf8(t));
        &&& self.data@.contains_key(h)
        &&& exists|i: int|
            0 <= i < self.data@[h]@.len() && (#[trigger] self.data@[h]@[i].string)@ == t
    }

    /// The entry the store holds for the text `t`.
    pub closed spec fn spec_entry(self, t: Seq<char>) -> Entry {
        let h = fnv64(encode_utf8(t));
        let b = self.data@[h]@;
        *b[choose|i: int| 0 <= i < b.len() && (#[trigger] b[i].string)@ == t]
    }

    /// Creates a store carrying the given non-zero identity.
    ///
    /// Identities are carried metadata: every entry a store creates is
    /// branded with them, but equality of atoms never consults them, so
    /// nothing here depends on their uniqueness. An embedding that wants
    /// process-unique identities mints them itself (a process-wide counter)
    /// and passes them in here.
    pub fn with_id(id: u32) -> (s: AtomStore)
        requires
            id != 0,
        ensures
            s.wf(),
            s.spec_id() == id,
            forall|t: Seq<char>| !s.spec_contains(t),
    {
        let s = AtomStore { id, data: HashMap::new(), hashes: Vec::new() };
        proof {
            assert(forall|h: u64| !s.data@.contains_key(h));
        }
        s
    }

    /// Creates a store with identity 1. Minting process-unique identities
    /// needs process-wide state, which this library does not hold: embeddings
    /// that want them use [`AtomStore::with_id`].
    pub fn new() -> (s: AtomStore)
        ensures
            s.wf(),
            s.spec_id() == 1,
            forall|t: Seq<char>| !s.spec_contains(t),
    {
        AtomStore::with_id(1)
    }
}

impl AtomStore {
    /// An entry at a position in its bucket is the entry the store holds for
    /// its text: buckets never hold two entries with one text.
    proof fn lemma_entry_at(self, t: Seq<char>, i: int)
        requires
            self.wf(),
            self.data@.contains_key(fnv64(encode_utf8(t))),
            0 <= i < self.data@[fnv64(encode_utf8(t))]@.len(),
            (self.data@[fnv64(encode_utf8(t))]@[i].string)@ == t,
        ensures
            self.spec_contains(t),
            self.spec_entry(t) == *self.data@[fnv64(encode_utf8(t))]@[i],
    {
        let h = fnv64(encode_utf8(t));
        let b = self.data@[h]@;
        assert(self.spec_contains(t));
        assert(bucket_wf(h, b));
        let j = choose|j: int| 0 <= j < b.len() && (#[trigger] b[j].string)@ == t;
        assert(0 <= j < b.len() && (b[j].string)@ == t);
        if i < j {
            assert((b[i].string)@ != (b[j].string)@);
        } else if j < i {
            assert((b[j].string)@ != (b[i].string)@);
        }
        assert(j == i);
    }

    /// Every entry a well-formed store holds carries that store's identity:
    /// insertion brands fresh entries and never rebrands existing ones.
    pub proof fn lemma_store_owns_entry(self, t: Seq<char>)
        requires
            self.wf(),
            self.spec_contains(t),
        ensures
            self.spec_entry(t).store_id == Some(self.spec_id()),
    {
        let h = fnv64(encode_utf8(t));
        let b = self.data@[h]@;
        let j = choose|j: int| 0 <= j < b.len() && (#[trigger] b[j].string)@ == t;
        assert(bucket_owned(self.id, b));
        assert(b[j].store_id == Some(self.id));
    }

    /// Frame lemma for one table update: if only the bucket of `hash`
    /// changed, and it changed at most by one appended entry, then every
    /// other text's entry is untouched and nothing but the appended text is
    /// new.
    #[verifier::spinoff_prover]
    proof fn lemma_update_frame(
        pre: AtomStore,
        post: AtomStore,
        hash: u64,
        oldb: Seq<Arc<Entry>>,
        newb: Seq<Arc<Entry>>,
    )
        requires
            pre.wf(),
            post.wf(),
            forall|h2: u64|
                h2 != hash ==> (#[trigger] post.data@.contains_key(h2)
                    <==> pre.data@.contains_key(h2)),
            forall|h2: u64|
                h2 != hash && pre.data@.contains_key(h2) ==> #[trigger] post.data@[h2]
                    == pre.data@[h2],
            post.data@.contains_key(hash),
            post.data@[hash]@ == newb,
            pre.data@.contains_key(hash) ==> oldb == pre.data@[hash]@,
            !pre.data@.contains_key(hash) ==> oldb.len() == 0,
            newb == oldb || (newb.len() == oldb.len() + 1 && newb.take(oldb.len() as int)
                == oldb),
        ensures
            forall|t: Seq<char>|
                pre.spec_contains(t) ==> post.spec_contains(t) && post.spec_entry(t)
                    == pre.spec_entry(t),
            forall|t: Seq<char>|
                post.spec_contains(t) ==> pre.spec_contains(t) || (newb.len() == oldb.len()
                    + 1 && t == (newb.last().string)@),
    {
        assert forall|k: int| 0 <= k < oldb.len() implies newb[k] == oldb[k] by {
            if newb != oldb {
                assert(newb.take(oldb.len() as int)[k] == newb[k]);
            }
        }
        assert forall|t: Seq<char>|
            pre.spec_contains(t) implies post.spec_contains(t) && post.spec_entry(t)
            == pre.spec_entry(t) by {
            let ht = fnv64(encode_utf8(t));
            let k = choose|k: int|
                0 <= k < pre.data@[ht]@.len() && (#[trigger] pre.data@[ht]@[k].string)@ == t;
            pre.lemma_entry_at(t, k);
            if ht == hash {
                assert(post.data@[ht]@[k] == oldb[k]);
                post.lemma_entry_at(t, k);
            } else {
                assert(post.data@[ht] == pre.data@[ht]);
                post.lemma_entry_at(t, k);
            }
        }
        assert forall|t: Seq<char>|
            post.spec_contains(t) implies pre.spec_contains(t) || (newb.len() == oldb.len()
            + 1 && t == (newb.last().string)@) by {
            let ht = fnv64(encode_utf8(t));
            let k = choose|k: int|
                0 <= k < post.data@[ht]@.len() && (#[trigger] post.data@[ht]@[k].string)@
                    == t;
            if ht == hash {
                if k < oldb.len() {
                    assert(pre.data@.contains_key(ht));
                    assert((pre.data@[ht]@[k].string)@ == t);
                } else {
                    assert(newb != oldb);
                    assert(newb[k] == newb.last());
                }
            } else {
                assert(post.data@[ht] == pre.data@[ht]);
                assert((pre.data@[ht]@[k].string)@ == t);
            }
        }
    }

    /// After a lookup hit the table is unchanged up to bucket identity:
    /// the store is still well formed and holds exactly the entries it held.
    #[verifier::spinoff_prover]
    proof fn lemma_after_hit(
        pre: AtomStore,
        post: AtomStore,
        hash: u64,
        oldb: Seq<Arc<Entry>>,
        idx: int,
        t: Seq<char>,
    )
        requires
            pre.wf(),
            hash == fnv64(encode_utf8(t)),
            pre.data@.contains_key(hash),
            oldb == pre.data@[hash]@,
            0 <= idx < oldb.len(),
            (oldb[idx].string)@ == t,
            post.id == pre.id,
            post.hashes@ == pre.hashes@,
            post.data@.contains_key(hash),
            post.data@[hash]@ == oldb,
            forall|h2: u64|
                h2 != hash ==> (#[trigger] post.data@.contains_key(h2)
                    <==> pre.data@.contains_key(h2)),
            forall|h2: u64|
                h2 != hash && pre.data@.contains_key(h2) ==> #[trigger] post.data@[h2]
                    == pre.data@[h2],
        ensures
            post.wf(),
            pre.spec_contains(t),
            post.spec_contains(t),
            post.spec_entry(t) == *oldb[idx],
            pre.spec_entry(t) == *oldb[idx],
            forall|t2: Seq<char>|
                pre.spec_contains(t2) ==> post.spec_contains(t2) && post.spec_entry(t2)
                    == pre.spec_entry(t2),
            forall|t2: Seq<char>|
                post.spec_contains(t2) ==> pre.spec_contains(t2),
    {
        assert forall|h2: u64|
            #[trigger] post.data@.contains_key(h2) <==> post.hashes@.contains(h2) by {
            if h2 != hash {
                assert(post.data@.contains_key(h2) == pre.data@.contains_key(h2));
            }
        }
        assert forall|h2: u64|
            post.data@.contains_key(h2) implies bucket_wf(h2, (#[trigger] post.data@[h2])@) by {
            if h2 != hash {
                assert(post.data@[h2] == pre.data@[h2]);
            }
        }
        assert forall|h2: u64|
            post.data@.contains_key(h2) implies bucket_owned(post.id, (
        #[trigger] post.data@[h2])@) by {
            if h2 != hash {
                assert(post.data@[h2] == pre.data@[h2]);
            }
        }
        assert(post.wf());
        post.lemma_entry_at(t, idx);
        pre.lemma_entry_at(t, idx);
        AtomStore::lemma_update_frame(pre, post, hash, oldb, oldb);
    }

    /// After a miss created one entry the store is still well formed, holds
    /// the new text, and holds every other text exactly as before.
    #[verifier::rlimit(100)]
    #[verifier::spinoff_prover]
    proof fn lemma_after_miss(
        pre: AtomStore,
        post: AtomStore,
        hash: u64,
        oldb: Seq<Arc<Entry>>,
        r: Arc<Entry>,
        t: Seq<char>,
    )
        requires
            pre.wf(),
            hash == fnv64(encode_utf8(t)),
            pre.data@.contains_key(hash) ==> oldb == pre.data@[hash]@ && post.hashes@
                == pre.hashes@,
            !pre.data@.contains_key(hash) ==> oldb.len() == 0 && post.hashes@
                == pre.hashes@.push(hash),
            forall|j: int|
                0 <= j < oldb.len() ==> encode_utf8((#[trigger] oldb[j].string)@)
                    != encode_utf8(t),
            (*r).string@ == t,
            (*r).hash == hash,
            entry_wf(*r),
            (*r).store_id == Some(pre.id),
            post.id == pre.id,
            post.data@.contains_key(hash),
            post.data@[hash]@ == oldb.push(r),
            forall|h2: u64|
                h2 != hash ==> (#[trigger] post.data@.contains_key(h2)
                    <==> pre.data@.contains_key(h2)),
            forall|h2: u64|
                h2 != hash && pre.data@.contains_key(h2) ==> #[trigger] post.data@[h2]
                    == pre.data@[h2],
        ensures
            post.wf(),
            !pre.spec_contains(t),
            post.spec_contains(t),
            post.spec_entry(t) == *r,
            forall|t2: Seq<char>|
                pre.spec_contains(t2) ==> post.spec_contains(t2) && post.spec_entry(t2)
                    == pre.spec_entry(t2),
            forall|t2: Seq<char>|
                post.spec_contains(t2) ==> pre.spec_contains(t2) || t2 == t,
    {
        let newb = oldb.push(r);
        let ghost had_key = pre.data@.contains_key(hash);
        assert(newb.take(oldb.len() as int) =~= oldb);
        // No old entry in the bucket holds this text.
        assert forall|j: int| 0 <= j < oldb.len() implies (#[trigger] oldb[j].string)@
            != t by {
            if (oldb[j].string)@ == t {
                assert(encode_utf8((oldb[j].string)@) == encode_utf8(t));
            }
        }
        if pre.spec_contains(t) {
            let k = choose|k: int|
                0 <= k < pre.data@[hash]@.len() && (#[trigger] pre.data@[hash]@[k].string)@
                    == t;
            assert((oldb[k].string)@ == t);
        }
        // The extended bucket is well formed.
        if had_key {
            assert(bucket_wf(hash, oldb));
        }
        assert forall|a: int, b2: int|
            0 <= a < b2 < newb.len() implies (#[trigger] newb[a].string)@ != (
        #[trigger] newb[b2].string)@ by {
            assert(newb[a] == oldb[a]);
            if b2 == newb.len() - 1 {
                assert(newb[b2] == r);
            } else {
                assert(newb[b2] == oldb[b2]);
            }
        }
        assert forall|a: int| 0 <= a < newb.len() implies entry_wf(*#[trigger] newb[a])
            && newb[a].hash == hash by {
            if a == newb.len() - 1 {
                assert(newb[a] == r);
            } else {
                assert(newb[a] == oldb[a]);
            }
        }
        assert(bucket_wf(hash, newb));
        // The key list still mirrors the domain.
        assert forall|h2: u64|
            #[trigger] post.data@.contains_key(h2) <==> post.hashes@.contains(h2) by {
            if h2 == hash {
                if !had_key {
                    assert(post.hashes@[post.hashes@.len() - 1] == hash);
                }
            } else {
                assert(post.data@.contains_key(h2) == pre.data@.contains_key(h2));
                if !had_key {
                    if pre.hashes@.contains(h2) {
                        let k0 = choose|k0: int|
                            0 <= k0 < pre.hashes@.len() && pre.hashes@[k0] == h2;
                        assert(post.hashes@[k0] == h2);
                    }
                    if post.hashes@.contains(h2) {
                        let k = choose|k: int|
                            0 <= k < post.hashes@.len() && post.hashes@[k] == h2;
                        assert(k < pre.hashes@.len());
                        assert(pre.hashes@[k] == h2);
                    }
                }
            }
        }
        if !had_key {
            assert(!pre.hashes@.contains(hash));
            assert forall|a: int, b2: int|
                0 <= a < b2 < post.hashes@.len() implies post.hashes@[a]
                != post.hashes@[b2] by {
                if b2 == post.hashes@.len() - 1 {
                    assert(pre.hashes@[a] == post.hashes@[a]);
                    if post.hashes@[a] == hash {
                        assert(pre.hashes@.contains(hash));
                    }
                }
            }
            assert(post.hashes@.no_duplicates());
        }
        assert forall|h2: u64|
            post.data@.contains_key(h2) implies bucket_wf(h2, (#[trigger] post.data@[h2])@) by {
            if h2 != hash {
                assert(post.data@[h2] == pre.data@[h2]);
            }
        }
        assert forall|a: int| 0 <= a < newb.len() implies (#[trigger] newb[a]).store_id
            == Some(post.id) by {
            if had_key {
                assert(bucket_owned(pre.id, oldb));
            }
            if a == newb.len() - 1 {
                assert(newb[a] == r);
            } else {
                assert(newb[a] == oldb[a]);
            }
        }
        assert forall|h2: u64|
            post.data@.contains_key(h2) implies bucket_owned(post.id, (
        #[trigger] post.data@[h2])@) by {
            if h2 != hash {
                assert(post.data@[h2] == pre.data@[h2]);
            }
        }
        assert(post.wf());
        post.lemma_entry_at(t, newb.len() - 1);
        AtomStore::lemma_update_frame(pre, post, hash, oldb, newb);
        assert(newb.last() == r);
    }

    /// Looks the text up in the table by its hash; on a hit hands out one more
    /// handle to the existing entry, on a miss creates the entry and stores
    /// it. Every other text's entry is untouched.
    #[verifier::rlimit(100)]
    pub(crate) fn insert_entry(&mut self, text: &str, hash: u64) -> (r: Arc<Entry>)
        requires
            old(self).wf(),
            hash == fnv64(encode_utf8(text@)),
            encode_utf8(text@).len() >= MAX_INLINE_LEN as int,
        ensures
            final(self).wf(),
            final(self).spec_id() == old(self).spec_id(),
            entry_wf(*r),
            (*r).string@ == text@,
            final(self).spec_contains(text@),
            final(self).spec_entry(text@) == *r,
            old(self).spec_contains(text@) ==> *r == old(self).spec_entry(text@),
            (*r).store_id == Some(old(self).spec_id()),
            forall|t: Seq<char>|
                old(self).spec_contains(t) ==> final(self).spec_contains(t) && final(self).spec_entry(t) == old(self).spec_entry(t),
            forall|t: Seq<char>|
                final(self).spec_contains(t) ==> old(self).spec_contains(t) || t == text@,
    {
        let ghost pre = *self;
        let ghost had_key = pre.data@.contains_key(hash);
        let bucket_opt = self.data.remove(&hash);
        let mut bucket: Vec<Arc<Entry>>;
        match bucket_opt {
            Some(b) => {
                bucket = b;
            },
            None => {
                bucket = Vec::new();
                self.hashes.push(hash);
            },
        }
        let ghost pre_bucket = bucket@;

        match find_in_bucket(&bucket, text) {
            Some(i) => {
                let r = clone_entry(&bucket[i]);
                let ghost idx = i as int;
                self.data.insert(hash, bucket);
                proof {
                    lemma_encode_utf8_injective((*r).string@, text@);
                    AtomStore::lemma_after_hit(pre, *self, hash, pre_bucket, idx, text@);
                    // A reused entry already carries this store's identity.
                    assert(bucket_owned(pre.id, pre_bucket));
                    assert(pre_bucket[idx].store_id == Some(pre.id));
                }
                return r;
            },
            None => {},
        }

        let entry = Arc::new(
            Entry {
                string: text.to_owned(),
                hash,
                store_id: Some(self.id),
                alias: AliasCell::empty(),
            },
        );
        let r = clone_entry(&entry);
        bucket.push(entry);
        self.data.insert(hash, bucket);
        proof {
            AtomStore::lemma_after_miss(pre, *self, hash, pre_bucket, r, text@);
        }
        r
    }

    /// Interns the text and returns an atom for it.
    ///
    /// Text of fewer than [`MAX_INLINE_LEN`] bytes is packed into the atom and
    /// the store is untouched; anything longer is deduplicated through the
    /// table, creating an entry only for text the store has never seen.
    pub fn atom(&mut self, text: &str) -> (r: Atom)
        requires
            old(self).wf(),
        ensures
            final(self).wf(),
            final(self).spec_id() == old(self).spec_id(),
            r@ == text@,
            r.spec_is_dynamic() == (encode_utf8(text@).len() >= MAX_INLINE_LEN as int),
            encode_utf8(text@).len() < MAX_INLINE_LEN as int ==> r.spec_tag()
                == crate::atom::INLINE_TAG && *final(self) == *old(self),
            encode_utf8(text@).len() >= MAX_INLINE_LEN as int ==> interned_atom_post(
                *old(self),
                *final(self),
                text@,
                r,
            ),
    {
        let bytes = text.as_bytes();
        if bytes.len() < MAX_INLINE_LEN {
            Atom::inline_from(text)
        } else {
            let hash = hash_bytes(bytes);
            let entry = self.insert_entry(text, hash);
            Atom::from_entry(entry)
        }
    }

    /// Absorbs all of `other`'s entries, consuming it.
    ///
    /// Every text of `other` is interned into `self` through the ordinary
    /// insertion path, and the canonical entry is stored into the absorbed
    /// entry's redirect, so atoms issued by `other` before the merge keep
    /// comparing equal to atoms of the absorbing store. Entries `self`
    /// already held are untouched. The redirect write itself is shared
    /// interior-mutable state outside the value model, so the contract does
    /// not speak of it; equality never depends on it, because every reader of
    /// a redirect re-checks the text it finds there.
    pub fn merge(&mut self, other: AtomStore)
        requires
            old(self).wf(),
            other.wf(),
        ensures
            final(self).wf(),
            final(self).spec_id() == old(self).spec_id(),
            merge_post(*old(self), *final(self), other),
    {
        let ghost pre = *self;
        let mut hi: usize = 0;
        while hi < other.hashes.len()
            invariant
                other.wf(),
                self.wf(),
                self.spec_id() == pre.spec_id(),
                hi <= other.hashes@.len(),
                forall|t: Seq<char>|
                    pre.spec_contains(t) ==> self.spec_contains(t) && self.spec_entry(t)
                        == pre.spec_entry(t),
                forall|t: Seq<char>|
                    self.spec_contains(t) ==> pre.spec_contains(t) || other.spec_contains(t),
                forall|k: int, j: int|
                    0 <= k < hi && 0 <= j < other.data@[other.hashes@[k]]@.len()
                        ==> self.spec_contains(
                        (#[trigger] other.data@[other.hashes@[k]]@[j].string)@,
                    ),
            decreases other.hashes@.len() - hi,
        {
            let h = other.hashes[hi];
            proof {
                assert(other.hashes@.contains(h));
            }
            let bucket = match other.data.get(&h) {
                Some(b) => b,
                None => vstd::pervasive::unreached(),
            };
            let ghost pre_inner = *self;
            let mut j: usize = 0;
            while j < bucket.len()
                invariant
                    other.wf(),
                    self.wf(),
                    self.spec_id() == pre.spec_id(),
                    hi < other.hashes@.len(),
                    h == other.hashes@[hi as int],
                    other.data@.contains_key(h),
                    bucket@ == other.data@[h]@,
                    j <= bucket@.len(),
                    forall|t: Seq<char>|
                        pre.spec_contains(t) ==> self.spec_contains(t) && self.spec_entry(t)
                            == pre.spec_entry(t),
                    forall|t: Seq<char>|
                        self.spec_contains(t) ==> pre.spec_contains(t) || other.spec_contains(t),
                    forall|k: int, j2: int|
                        0 <= k < hi && 0 <= j2 < other.data@[other.hashes@[k]]@.len()
                            ==> self.spec_contains(
                            (#[trigger] other.data@[other.hashes@[k]]@[j2].string)@,
                        ),
                    forall|j2: int|
                        0 <= j2 < j ==> self.spec_contains((#[trigger] bucket@[j2].string)@),
                decreases bucket@.len() - j,
            {
                let ent = &bucket[j];
                proof {
                    assert(bucket_wf(h, bucket@));
                    assert(entry_wf(*bucket@[j as int]));
                    // The text of an entry of `other` is contained in `other`.
                    other.lemma_entry_at((*ent).string@, j as int);
                }
                let cur = self.insert_entry((**ent).string.as_str(), (**ent).hash);
                (**ent).alias.store(cur);
                j = j + 1;
            }
            hi = hi + 1;
            proof {
                assert forall|k: int, j2: int|
                    0 <= k < hi && 0 <= j2 < other.data@[other.hashes@[k]]@.len()
                        implies self.spec_contains(
                    (#[trigger] other.data@[other.hashes@[k]]@[j2].string)@,
                ) by {
                    if k == hi - 1 {
                        assert(other.data@[other.hashes@[k]]@ == bucket@);
                    }
                }
            }
        }
        proof {
            assert forall|t: Seq<char>| other.spec_contains(t) implies self.spec_contains(
                t,
            ) by {
                let ht = fnv64(encode_utf8(t));
                assert(other.hashes@.contains(ht));
                let k = choose|k: int|
                    0 <= k < other.hashes@.len() && other.hashes@[k] == ht;
                let j = choose|j: int|
                    0 <= j < other.data@[ht]@.len() && (#[trigger] other.data@[ht]@[j].string)@
                        == t;
                assert(self.spec_contains((other.data@[other.hashes@[k]]@[j].string)@));
            }
        }
    }
}

impl Default for AtomStore {
    /// Same as [`AtomStore::new`]: an empty store with identity 1.
    fn default() -> (s: AtomStore)
        ensures
            s.wf(),
            s.spec_id() == 1,
            forall|t: Seq<char>| !s.spec_contains(t),
    {
        AtomStore::new()
    }
}

} // verus!
