//! Short exercises on patterns, panics and marker traits.
use vstd::prelude::*;

verus! {

enum MyEnum {
    Foo,
    Bar,
}

/// Tests values against patterns with `matches!`: a letter against the
/// ranges of ASCII letters, an option against a guarded pattern, and counts
/// the `Foo`s of a short list.
pub fn ch06_03_matches() {
    let v = vec![MyEnum::Foo, MyEnum::Bar, MyEnum::Foo];
    let mut foos: usize = 0;
    let mut i: usize = 0;
    while i < v.len()
        invariant
            i <= v.len(),
            foos <= i,
        decreases v.len() - i,
    {
        if matches!(v[i], MyEnum::Foo) {
            foos = foos + 1;
        }
        i = i + 1;
    }
    let foo = 'f';
    let letter = matches!(foo, 'A'..='Z' | 'a'..='z');
    assert(letter);
    let bar: Option<i32> = Some(4);
    let big = matches!(bar, Some(x) if x > 2);
    assert(big);
}

/// Indexing a vector within its bounds does not panic; the verifier would
/// refuse an index out of them.
pub fn ch09_01_unrecoverable_errors_with_panic() {
    let v: Vec<i32> = vec![1, 2, 3];
    let last = v[2];
    assert(last == 3);
}

/// `Send` and `Sync` are marker traits: types built of such types have them
/// without an impl.
pub fn ch16_04_extensible_concurrency_sync_and_send() {
}

/// A pattern that matches every value is irrefutable; one that can fail is
/// refutable.
pub fn ch18_02_refutability() {
    let x: i32 = 5;
    let a_value: Option<i32> = Some(x);
    if let Some(y) = a_value {
        assert(y == 5);
    }
}

} // verus!
