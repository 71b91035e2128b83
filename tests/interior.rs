use std::borrow::Cow;
use std::cell::Cell;

use the_rust_programming_language::cow::abs_all;
use the_rust_programming_language::lamp::{Lamp, Switcher};

#[test]
fn ch15_05_case1() {
    let slice = [0, 1, 2];
    let mut input = Cow::from(&slice[..]);
    assert!(matches!(input, Cow::Borrowed(_)), "Sorry, your assumption is incorrect!");
    assert!(matches!(abs_all(&mut input), Cow::Borrowed(_)), "Sorry, your assumption is incorrect!");
}

#[test]
fn case2() {
    let slice = [-1, 0, 1];
    let mut input = Cow::from(&slice[..]);
    assert!(matches!(input, Cow::Borrowed(_)), "Sorry, your assumption is incorrect!");
    assert!(matches!(abs_all(&mut input), Cow::Owned(_)), "Sorry, your assumption is incorrect!");
    assert!(matches!(abs_all(&mut input), Cow::Owned(_)));
}

#[test]
fn case3() {
    let vec = vec![0, 1, 2];
    let mut input = Cow::from(vec);
    assert!(matches!(input, Cow::Owned(_)), "Sorry, your assumption is incorrect!");
    assert!(matches!(abs_all(&mut input), Cow::Owned(_)), "Sorry, your assumption is incorrect!");
}

#[test]
fn case4() {
    let vec = vec![-2, -1, 0, 1];
    let mut input = Cow::from(vec);
    assert!(matches!(input, Cow::Owned(_)), "Sorry, your assumption is incorrect!");
    assert!(matches!(abs_all(&mut input), Cow::Owned(_)), "Sorry, your assumption is incorrect!");
}

#[test]
fn abs_all_gives_absolute_values() {
    let slice = [-3, 0, 4, -5];
    let mut input = Cow::from(&slice[..]);
    let out = abs_all(&mut input);
    assert_eq!(&out[..], &[3, 0, 4, 5]);
    assert_eq!(slice, [-3, 0, 4, -5]);
}

#[test]
fn case6() {
    let lamp = Cell::new(Lamp::default());
    let mut sw1 = Switcher::new(&lamp);
    let mut sw2 = Switcher::new(&lamp);
    println!("{:?}", lamp.get());
    sw1.switch();
    println!("{:?}", lamp.get());
    assert!(lamp.get().is_on());
    sw2.switch();
    println!("{:?}", lamp.get());
    assert!(!lamp.get().is_on());
}
