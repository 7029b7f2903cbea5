//! Tests of the interning engine: stores, atoms, equality, merging.

use hstr::Atom;
use hstr::AtomStore;
use hstr::GlobalStore;

fn store_with_atoms(texts: Vec<&str>) -> (AtomStore, Vec<Atom>) {
    let mut store = AtomStore::default();

    let atoms = { texts.into_iter().map(|text| store.atom(text)).collect() };

    (store, atoms)
}

#[test]
fn simple_usage() {
    let (s, atoms) = store_with_atoms(vec!["Hello, world!", "Hello, world!"]);

    drop(s);

    let a1 = atoms[0].clone();

    let a2 = atoms[1].clone();

    assert!(a1.same_word(&a2));
}

#[test]
fn store_merge_and_drop() {
    let (mut s1, atoms1) = store_with_atoms(vec!["Hello, world!!!!"]);
    let a1 = atoms1.into_iter().next().unwrap();
    assert_eq!(2, a1.ref_count());
    let (mut s2, atoms2) = store_with_atoms(vec!["Hello, world!!!!"]);
    let a2 = atoms2.into_iter().next().unwrap();
    let (s3, atoms3) = store_with_atoms(vec!["Hello, world!!!!"]);
    let a3 = atoms3.into_iter().next().unwrap();
    s2.merge(s3);
    assert_eq!(2, a1.ref_count());
    s1.merge(s2);
    assert_eq!(3, a1.ref_count());

    assert_eq!("Hello, world!!!!", a1.as_str());
    assert_eq!("Hello, world!!!!", a2.as_str());
    assert_eq!("Hello, world!!!!", a3.as_str());

    drop(s1);
    assert_eq!(2, a1.ref_count());

    assert_eq!("Hello, world!!!!", a1.as_str());
    assert!(a1 == a2);
    drop(a1);
    assert!(a2 == a3);
    assert_eq!("Hello, world!!!!", a2.as_str());
    assert_eq!("Hello, world!!!!", a3.as_str());
}

#[test]
fn eager_drop() {
    let (_, atoms1) = store_with_atoms(vec!["Hello, world!!!!"]);
    let (_, atoms2) = store_with_atoms(vec!["Hello, world!!!!"]);

    let a1 = atoms1[0].clone();
    let a2 = atoms2[0].clone();

    assert!(
        !a1.same_word(&a2),
        "Different stores should have different addresses"
    );
    assert_eq!(a1.get_hash(), a2.get_hash(), "Same string should be equal");
    assert!(a1 == a2, "Same string should be equal");
}

#[test]
fn store_multiple() {
    let (_s1, atoms1) = store_with_atoms(vec!["Hello, world!!!!"]);
    let (_s2, atoms2) = store_with_atoms(vec!["Hello, world!!!!"]);

    let a1 = atoms1[0].clone();
    let a2 = atoms2[0].clone();

    assert!(
        !a1.same_word(&a2),
        "Different stores should have different addresses"
    );
    assert_eq!(a1.get_hash(), a2.get_hash(), "Same string should be equal");
    assert!(a1 == a2, "Same string should be equal");
}

#[test]
fn store_merge_two() {
    let (mut s1, atoms1) = store_with_atoms(vec!["Hello, world!!!!"]);
    let (s2, atoms2) = store_with_atoms(vec!["Hello, world!!!!"]);

    let a1 = atoms1[0].clone();
    let a2 = atoms2[0].clone();
    assert!(a1 == a2);
    assert!(!a1.simple_eq(&a2).unwrap_or_default());

    s1.merge(s2);

    let a3 = s1.atom("Hello, world!!!!");

    assert!(
        a1.same_word(&a3),
        "Merged store should give same address as `self`"
    );
    assert_eq!(
        a1.get_hash(),
        a3.get_hash(),
        "Merged store should give same hash as `self`"
    );
    assert!(
        !a2.same_word(&a3),
        "Merged store should give different address as `other`"
    );

    assert!(a1.simple_eq(&a3).unwrap_or_default());
    assert!(a2.simple_eq(&a3).unwrap_or_default());
}

#[test]
fn store_merge_many_1() {
    let (mut s1, atoms1) = store_with_atoms(vec!["Hello, world!!!!"]);
    let (s2, atoms2) = store_with_atoms(vec!["Hello, world!!!!"]);
    let (s3, atoms3) = store_with_atoms(vec!["Hi!"]);

    let a1 = atoms1[0].clone();
    let a2 = atoms2[0].clone();
    let a3 = atoms3[0].clone();

    assert!(a1 == a2);
    assert_eq!(a1.simple_eq(&a2), None, "Same string, but different stores");
    assert!(a1 != a3);
    assert_eq!(a1.simple_eq(&a3), Some(false));
    assert!(a2 != a3);
    assert_eq!(a2.simple_eq(&a3), Some(false));

    s1.merge(s2);
    s1.merge(s3);

    let a4 = s1.atom("Hello, world!!!!");

    assert!(
        a1.same_word(&a4),
        "Merged store should give same address as `self`"
    );
    assert_eq!(
        a1.get_hash(),
        a4.get_hash(),
        "Merged store should give same hash as `self`"
    );
    assert!(
        !a2.same_word(&a4),
        "Merged store should give different address as `other`"
    );
    assert!(
        !a3.same_word(&a4),
        "Merged store should give different address as `other`"
    );

    assert_eq!(a1.simple_eq(&a4), Some(true));
    assert_eq!(a2.simple_eq(&a4), Some(true));
    assert_eq!(a3.simple_eq(&a4), Some(false));

    assert!(a1 == a4);
    assert!(a2 == a4);
    assert!(a3 != a4);
}

#[test]
fn round_trip_ascii_and_unicode() {
    let mut store = AtomStore::default();
    for text in ["", "a", "Hi!", "exactly", "Hello, world!", "tsch\u{fc}ss", "\u{65e5}\u{672c}\u{8a9e} text"] {
        let atom = store.atom(text);
        assert_eq!(atom.as_str(), text);
    }
}

#[test]
fn inline_boundary() {
    let mut store = AtomStore::default();
    // One byte below the threshold: packed inline, no entry, no counting.
    let short = store.atom("abcdef");
    assert!(!short.is_dynamic());
    // At the threshold: interned through the table.
    let long = store.atom("abcdefg");
    assert!(long.is_dynamic());
    assert_eq!(long.ref_count(), 2);
    assert_eq!(short.as_str(), "abcdef");
    assert_eq!(long.as_str(), "abcdefg");
}

#[test]
fn dedup_within_store() {
    let mut store = AtomStore::default();
    let a1 = store.atom("deduplicated text");
    let a2 = store.atom("deduplicated text");
    assert!(a1.same_word(&a2));
    assert!(a1 == a2);
    assert_eq!(a1.get_hash(), a2.get_hash());
}

#[test]
fn refcount_correctness() {
    let mut store = AtomStore::default();
    let a = store.atom("counted string!");
    // The store's table and the atom itself.
    assert_eq!(a.ref_count(), 2);
    let clones: Vec<Atom> = (0..5).map(|_| a.clone()).collect();
    assert_eq!(a.ref_count(), 7);
    drop(clones);
    assert_eq!(a.ref_count(), 2);
    drop(store);
    // The entry stays alive and readable for as long as one atom holds it.
    assert_eq!(a.ref_count(), 1);
    assert_eq!(a.as_str(), "counted string!");
}

#[test]
fn concrete_scenario() {
    // Interning the same text twice in one store gives the same word.
    let mut store = AtomStore::default();
    let h1 = store.atom("Hello, world!");
    let h2 = store.atom("Hello, world!");
    assert!(h1.same_word(&h2));

    // "Hi!" is below the inline threshold: both stores pack it into the
    // word itself, so the words coincide and the atoms are equal.
    let mut store1 = AtomStore::default();
    let mut store2 = AtomStore::default();
    let hi1 = store1.atom("Hi!");
    let hi2 = store2.atom("Hi!");
    assert!(hi1.same_word(&hi2));
    assert!(hi1 == hi2);
    assert_eq!(hi1.simple_eq(&hi2), Some(true));
    let mut global = GlobalStore::default();
    assert!(global.atom("Hi!").same_word(&hi1));

    // Interned text of two stores: unequal words but equal atoms; after a
    // merge the absorbing store keeps answering with its own canonical word,
    // and the absorbed store's old atom still compares equal to it.
    let before1 = store1.atom("Hello there!");
    let before2 = store2.atom("Hello there!");
    assert!(!before1.same_word(&before2));
    assert!(before1 == before2);
    store1.merge(store2);
    let after = store1.atom("Hello there!");
    assert!(after.same_word(&before1));
    assert!(!after.same_word(&before2));
    assert!(before2 == after);
    assert_eq!(before2.get_hash(), after.get_hash());
}

#[test]
fn cross_representation_equality() {
    let mut store = AtomStore::default();
    let stat = Atom::from_static("static text!");
    let dynamic = store.atom("static text!");
    assert!(stat == dynamic);
    assert_eq!(stat.get_hash(), dynamic.get_hash());
    let inline_static = Atom::from_static("ab");
    let inline = store.atom("ab");
    assert!(inline_static == inline);
    assert!(inline_static != stat);
    // Word-equal static atoms decide equality on the fast path.
    assert_eq!(Atom::from_static("ab").simple_eq(&inline_static), Some(true));
    // An inline and a dynamic atom decide on the fast path too.
    assert_eq!(inline.simple_eq(&dynamic), Some(false));
}

#[test]
fn ascii_case_mapping() {
    let mut store = AtomStore::default();
    let a = store.atom("Hello, World 123!");
    assert_eq!(a.to_ascii_uppercase().as_str(), "HELLO, WORLD 123!");
    assert_eq!(a.to_ascii_lowercase().as_str(), "hello, world 123!");
    // Bytes outside the ASCII range pass through untouched.
    let b = store.atom("h\u{e9}llo");
    assert_eq!(b.to_ascii_uppercase().as_str(), "H\u{e9}LLO");
    let short = store.atom("Up");
    assert_eq!(short.to_ascii_uppercase().as_str(), "UP");
}

#[test]
fn default_atom_is_empty() {
    let a = Atom::default();
    assert_eq!(a.as_str(), "");
    assert!(!a.is_dynamic());
}

#[test]
fn global_store_interning() {
    let mut global = GlobalStore::default();
    let a1 = global.atom("globally interned");
    let a2 = global.atom("globally interned");
    assert!(a1.same_word(&a2));
    assert!(a1 == a2);
    let short = global.atom("tiny");
    assert!(!short.is_dynamic());
    assert_eq!(short.as_str(), "tiny");

    // Entries are held weakly: dropping every atom lets the entry die, and
    // the next lookup creates a fresh one.
    drop(a1);
    drop(a2);
    let a3 = global.atom("globally interned");
    assert_eq!(a3.as_str(), "globally interned");
    assert_eq!(a3.ref_count(), 1);
}
