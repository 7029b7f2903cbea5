//! The laws the interning engine obeys, stated and proved once, over the
//! postcondition predicates of [`AtomStore::atom`](crate::dynamic::AtomStore::atom)
//! and [`AtomStore::merge`](crate::dynamic::AtomStore::merge).

use vstd::prelude::*;
use vstd::utf8::*;

use crate::atom::Atom;
use crate::atom::MAX_INLINE_LEN;
use crate::dynamic::interned_atom_post;
use crate::dynamic::merge_post;
use crate::dynamic::AtomStore;
use crate::hash::fnv64;

verus! {

/// Two atoms of equal text compare equal and hash equally, whatever stores
/// they came from and whatever their representations.
pub proof fn lemma_equal_text_equal_atoms(a1: Atom, a2: Atom)
    requires
        a1@ == a2@,
    ensures
        vstd::std_specs::cmp::PartialEqSpec::eq_spec(&a1, &a2),
        fnv64(encode_utf8(a1@)) == fnv64(encode_utf8(a2@)),
{
}

/// Atom equality is an equivalence, whatever the representations involved:
/// reflexive, symmetric and transitive.
pub proof fn lemma_atom_equality_is_equivalence(a: Atom, b: Atom, c: Atom)
    ensures
        vstd::std_specs::cmp::PartialEqSpec::eq_spec(&a, &a),
        vstd::std_specs::cmp::PartialEqSpec::eq_spec(&a, &b)
            == vstd::std_specs::cmp::PartialEqSpec::eq_spec(&b, &a),
        vstd::std_specs::cmp::PartialEqSpec::eq_spec(&a, &b)
            && vstd::std_specs::cmp::PartialEqSpec::eq_spec(&b, &c)
            ==> vstd::std_specs::cmp::PartialEqSpec::eq_spec(&a, &c),
{
}

/// Interning the same text twice in one store deduplicates: both atoms carry
/// the same text, and for text long enough to be interned they wrap one and
/// the same entry.
pub proof fn lemma_dedup_within_store(
    s0: AtomStore,
    s1: AtomStore,
    s2: AtomStore,
    t: Seq<char>,
    a1: Atom,
    a2: Atom,
)
    requires
        encode_utf8(t).len() >= MAX_INLINE_LEN as int,
        a1@ == t,
        a2@ == t,
        interned_atom_post(s0, s1, t, a1),
        interned_atom_post(s1, s2, t, a2),
    ensures
        a1@ == a2@,
        a1.spec_entry() == a2.spec_entry(),
        vstd::std_specs::cmp::PartialEqSpec::eq_spec(&a1, &a2),
{
    assert(s1.spec_contains(t));
    assert(s2.spec_entry(t) == s1.spec_entry(t));
}

/// Two independent stores interning the same text may answer with different
/// entries, but the atoms always compare equal and hash equally.
pub proof fn lemma_cross_store_equality(
    sa0: AtomStore,
    sa1: AtomStore,
    sb0: AtomStore,
    sb1: AtomStore,
    t: Seq<char>,
    a1: Atom,
    a2: Atom,
)
    requires
        a1@ == t,
        a2@ == t,
        interned_atom_post(sa0, sa1, t, a1),
        interned_atom_post(sb0, sb1, t, a2),
    ensures
        vstd::std_specs::cmp::PartialEqSpec::eq_spec(&a1, &a2),
        fnv64(encode_utf8(a1@)) == fnv64(encode_utf8(a2@)),
{
}

/// Merging canonicalizes while preserving what both stores held: after
/// `store_a.merge(store_b)`, interning a text that `store_a` already held
/// hands back the very entry `store_a` issued before the merge, and the atom
/// `store_b` issued for the same text still compares equal to it.
pub proof fn lemma_merge_preserves_equality(
    sa0: AtomStore,
    sa1: AtomStore,
    sa2: AtomStore,
    sa3: AtomStore,
    sb: AtomStore,
    t: Seq<char>,
    a1: Atom,
    b1: Atom,
    a2: Atom,
)
    requires
        encode_utf8(t).len() >= MAX_INLINE_LEN as int,
        a1@ == t,
        b1@ == t,
        a2@ == t,
        interned_atom_post(sa0, sa1, t, a1),
        merge_post(sa1, sa2, sb),
        interned_atom_post(sa2, sa3, t, a2),
    ensures
        a2.spec_entry() == a1.spec_entry(),
        vstd::std_specs::cmp::PartialEqSpec::eq_spec(&a1, &a2),
        vstd::std_specs::cmp::PartialEqSpec::eq_spec(&b1, &a2),
        fnv64(encode_utf8(a1@)) == fnv64(encode_utf8(a2@)),
{
    assert(sa1.spec_contains(t));
    assert(sa2.spec_contains(t) && sa2.spec_entry(t) == sa1.spec_entry(t));
    assert(a2.spec_entry() == sa2.spec_entry(t));
}

} // verus!
