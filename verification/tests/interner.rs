use std::hash::Hasher;

use rspack_resolver::{interner::live_entries, Interned, Interner};

fn h(s: &str) -> u64 {
    let mut hasher = rustc_hash::FxHasher::default();
    hasher.write(s.as_bytes());
    hasher.finish()
}

fn get(interner: &mut Interner, s: &str) -> Interned {
    interner.intern(s, h(s))
}

#[test]
fn equal_strings_share_one_entry() {
    let mut interner = Interner::new();
    let a = get(&mut interner, "/a/b/c.js");
    let b = get(&mut interner, "/a/b/c.js");
    assert!(a.ptr_eq(&b));
    assert_eq!(a.as_str(), "/a/b/c.js");
    assert_eq!(interner.len(), 1);
}

#[test]
fn different_strings_get_different_entries() {
    let mut interner = Interner::new();
    let a = get(&mut interner, "/a.js");
    let b = get(&mut interner, "/b.js");
    assert!(!a.ptr_eq(&b));
    assert_eq!(interner.len(), 2);
}

#[test]
fn the_empty_string_round_trips() {
    let mut interner = Interner::new();
    let a = get(&mut interner, "");
    assert_eq!(a.as_str(), "");
    let b = get(&mut interner, "");
    assert!(a.ptr_eq(&b));
}

#[test]
fn hash_is_returned_verbatim() {
    let mut interner = Interner::new();
    assert_eq!(interner.intern("/x.js", 0xDEAD_BEEF_1234_5678).hash(), 0xDEAD_BEEF_1234_5678);
}

#[test]
fn colliding_hashes_stay_distinct_entries() {
    let mut interner = Interner::new();
    let a = interner.intern("/one", 0x5555_5555_5555_5555);
    let b = interner.intern("/two", 0x5555_5555_5555_5555);
    assert!(!a.ptr_eq(&b));
    assert_eq!(a.as_str(), "/one");
    assert_eq!(b.as_str(), "/two");
}

#[test]
fn refcount_counts_the_table_plus_every_handle() {
    let mut interner = Interner::new();
    let a = get(&mut interner, "/a.js");
    assert_eq!(a.refcount(), 2, "the table holds one reference of its own");
    let b = a.clone();
    assert_eq!(a.refcount(), 3);
    drop(b);
    assert_eq!(a.refcount(), 2);
}

#[test]
fn sweeping_reclaims_entries_no_handle_refers_to() {
    let mut interner = Interner::new();
    drop(get(&mut interner, "/dead.js"));
    let alive = get(&mut interner, "/alive.js");
    assert_eq!(interner.len(), 2, "dropping a handle does not remove it");

    interner.sweep();

    assert_eq!(interner.len(), 1);
    assert_eq!(alive.as_str(), "/alive.js", "a held entry must survive the sweep");
}

#[test]
fn a_held_entry_survives_repeated_sweeps() {
    let mut interner = Interner::new();
    let held = get(&mut interner, "/held.js");
    for _ in 0..10 {
        interner.sweep();
        let again = get(&mut interner, "/held.js");
        assert!(held.ptr_eq(&again));
    }
    assert_eq!(held.as_str(), "/held.js");
}

#[test]
fn one_shot_strings_do_not_grow_the_table_without_bound() {
    let mut interner = Interner::new();
    for i in 0..100_000 {
        drop(get(&mut interner, &format!("/transient/{i}.js")));
    }
    let len = interner.len();
    assert!(len < 8_192, "table grew to {len}, which is not bounded");
}

#[test]
fn interning_an_existing_string_adds_no_entry() {
    let mut interner = Interner::new();
    let a = get(&mut interner, "/k.js");
    let before = interner.len();
    let b = get(&mut interner, "/k.js");
    assert_eq!(interner.len(), before);
    assert_eq!(live_entries(&interner), before);
    assert!(a.ptr_eq(&b));
}

#[test]
fn a_detached_entry_is_not_in_the_table() {
    let mut interner = Interner::new();
    let d = Interned::detached("/free.js", 7);
    assert_eq!(d.as_str(), "/free.js");
    assert_eq!(d.hash(), 7);
    let t = interner.intern("/free.js", 7);
    assert!(!d.ptr_eq(&t));
    assert_eq!(interner.len(), 1);
}
