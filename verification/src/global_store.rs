//! The table behind the process-wide interning path.
//!
//! Unlike an [`AtomStore`](crate::dynamic::AtomStore), this table holds its
//! entries weakly: it never keeps an entry alive, liveness is owned entirely
//! by the atoms outstanding. A lookup that finds a dead slot drops it. There
//! is one such table per process, so no merge step is ever needed; the
//! embedding wraps one [`GlobalStore`] in a process-wide lock.

use std::collections::HashMap;
use std::sync::Arc;
use std::sync::Weak;

use vstd::prelude::*;
use vstd::utf8::*;

use crate::atom::Atom;
use crate::atom::MAX_INLINE_LEN;
use crate::dynamic::clone_entry;
use crate::dynamic::entry_wf;
use crate::dynamic::AliasCell;
use crate::dynamic::Entry;
use crate::hash::fnv64;
use crate::hash::hash_bytes;
use crate::util::bytes_eq;
use crate::util::lemma_encode_utf8_injective;

verus! {

broadcast use vstd::std_specs::hash::group_hash_axioms;

/// A weak handle to an [`Entry`]. It does not keep the entry alive.
#[verifier::external_body]
pub struct WeakEntry {
    weak: Weak<Entry>,
}

/// Relies on std::sync::Arc::downgrade: a weak handle to the entry that does
/// not keep it alive. No contract: what an upgrade later returns is
/// re-checked by the caller.
#[verifier::external_body]
fn downgrade_entry(e: &Arc<Entry>) -> WeakEntry {
    WeakEntry { weak: Arc::downgrade(e) }
}

/// Relies on std::sync::Weak::upgrade: `Some` of a strong handle while the
/// entry is alive, `None` once every strong handle is gone. No contract:
/// callers verify everything they use about the result.
#[verifier::external_body]
fn upgrade_entry(w: &WeakEntry) -> Option<Arc<Entry>> {
    w.weak.upgrade()
}

/// The deduplicating weak table of the process-wide interning path.
pub struct GlobalStore {
    pub(crate) data: HashMap<u64, Vec<WeakEntry>>,
}

impl GlobalStore {
    /// An empty table.
    pub fn new() -> GlobalStore {
        GlobalStore { data: HashMap::new() }
    }

    /// Looks the text up among the live entries of its bucket; on a hit hands
    /// out one more handle to the existing entry, on a miss creates an entry
    /// owned by no store. Dead slots found on the way are dropped, and a hit
    /// must carry exactly this path's shape: the right text, its hash, and no
    /// store identity.
    fn insert_entry(&mut self, text: &str, hash: u64) -> (r: Arc<Entry>)
        requires
            hash == fnv64(encode_utf8(text@)),
            encode_utf8(text@).len() >= MAX_INLINE_LEN as int,
        ensures
            (*r).string@ == text@,
            entry_wf(*r),
            (*r).store_id is None,
    {
        let bucket = match self.data.remove(&hash) {
            Some(b) => b,
            None => Vec::new(),
        };
        let mut live: Vec<WeakEntry> = Vec::new();
        let mut found: Option<Arc<Entry>> = None;
        let mut i: usize = 0;
        while i < bucket.len()
            invariant
                hash == fnv64(encode_utf8(text@)),
                encode_utf8(text@).len() >= MAX_INLINE_LEN as int,
                i <= bucket@.len(),
                found matches Some(e) ==> (*e).string@ == text@ && entry_wf(*e) && (
                *e).store_id is None,
            decreases bucket@.len() - i,
        {
            match upgrade_entry(&bucket[i]) {
                Some(e) => {
                    if found.is_none() && (*e).hash == hash && (*e).store_id.is_none()
                        && bytes_eq((*e).string.as_str().as_bytes(), text.as_bytes()) {
                        proof {
                            lemma_encode_utf8_injective((*e).string@, text@);
                        }
                        found = Some(clone_entry(&e));
                    }
                    live.push(downgrade_entry(&e));
                },
                None => {},
            }
            i = i + 1;
        }
        let r = match found {
            Some(e) => e,
            None => {
                let e = Arc::new(
                    Entry {
                        string: text.to_owned(),
                        hash,
                        store_id: None,
                        alias: AliasCell::empty(),
                    },
                );
                live.push(downgrade_entry(&e));
                e
            },
        };
        self.data.insert(hash, live);
        r
    }

    /// Interns the text through the process-wide table, exactly as
    /// [`AtomStore::atom`](crate::dynamic::AtomStore::atom) does through a
    /// per-owner store: short text is packed inline without touching the
    /// table.
    pub fn atom(&mut self, text: &str) -> (r: Atom)
        ensures
            r@ == text@,
            r.spec_is_dynamic() == (encode_utf8(text@).len() >= MAX_INLINE_LEN as int),
            encode_utf8(text@).len() < MAX_INLINE_LEN as int ==> r.spec_tag()
                == crate::atom::INLINE_TAG,
            r.spec_is_dynamic() ==> r.spec_entry().string@ == text@ && r.spec_entry().store_id
                is None,
    {
        let bytes = text.as_bytes();
        if bytes.len() < MAX_INLINE_LEN {
            Atom::inline_from(text)
        } else {
            let hash = hash_bytes(bytes);
            let entry = self.insert_entry(text, hash);
            Atom::from_entry(entry)
        }
    }
}

impl Default for GlobalStore {
    /// Same as [`GlobalStore::new`].
    fn default() -> GlobalStore {
        GlobalStore::new()
    }
}

} // verus!
