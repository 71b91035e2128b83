use std::cell::Cell;
use std::cell::RefCell;

use the_rust_programming_language::colors::{mix, PrimaryColor, SecondaryColor};
use the_rust_programming_language::lamp::Lamp;
use the_rust_programming_language::quota::{quota_message, LimitTracker, Messenger};
use the_rust_programming_language::restaurant::{setup, Breakfast, Vegetable};
use the_rust_programming_language::testing::{
    add_one, add_two, greeting, internal_adder, Guess, Rectangle, TestStruct,
};
use the_rust_programming_language::workers::Engine;

#[test]
fn ch11_01_it_works() {
    assert_eq!(2 + 2, 4);
}

#[test]
fn larger_can_hold_smaller() {
    let larger = Rectangle { length: 8, width: 7 };
    let smaller = Rectangle { length: 5, width: 1 };
    assert!(larger.can_hold(&smaller));
}

#[test]
fn smaller_cannot_hold_larger() {
    let larger = Rectangle { length: 8, width: 7 };
    let smaller = Rectangle { length: 5, width: 1 };
    assert!(!smaller.can_hold(&larger));
}

#[test]
fn test_struct() {
    let a = TestStruct { a: 1 };
    let b = TestStruct { a: 1 };
    let c = TestStruct { a: 2 };
    assert_eq!(a, b);
    assert!(a == b);
    assert_ne!(a, c);
    assert!(a != c);
}

#[test]
fn ch11_01_it_adds_two() {
    assert_eq!(4, add_two(2));
}

#[test]
fn greeting_contains_name() {
    let result = greeting("Carol");
    assert!(result.contains("Carol"), "Greeting did not contain name, value was `{}`", result);
}

#[test]
fn greeting_is_exact() {
    assert_eq!(greeting("Carol"), "Hello Carol!");
}

#[test]
fn add_two_and_two() {
    assert_eq!(4, add_two(2))
}

#[test]
fn add_three_and_two() {
    assert_eq!(5, add_two(3));
}

#[test]
fn one_hundred() {
    assert_eq!(102, add_two(100));
}

#[test]
fn internal() {
    assert_eq!(4, internal_adder(2, 2));
}

#[test]
fn integration_test_it_adds_two() {
    setup();
    assert_eq!(4, add_one(3));
}

#[test]
fn guess_keeps_its_value() {
    assert_eq!(Guess::new(1).value(), 1);
    assert_eq!(Guess::new(100).value(), 100);
}

#[test]
fn iterator_demonstration() {
    let v1 = vec![1, 2, 3];
    let mut v1_iter = v1.iter();
    assert_eq!(v1_iter.next(), Some(&1));
    assert_eq!(v1_iter.next(), Some(&2));
    assert_eq!(v1_iter.next(), Some(&3));
    assert_eq!(v1_iter.next(), None);
}

struct MockMessenger {
    sent_message: RefCell<Vec<String>>,
}

impl MockMessenger {
    fn new() -> MockMessenger {
        MockMessenger { sent_message: RefCell::new(vec![]) }
    }
}

impl Messenger for MockMessenger {
    fn send(&self, message: &str) {
        self.sent_message.borrow_mut().push(String::from(message));
    }
}

#[test]
fn it_sends_an_over_75_percent_warning_message() {
    let mock_messenger = MockMessenger::new();
    let mut limit_tracker = LimitTracker::new(&mock_messenger, 100);
    limit_tracker.set_value(80);
    assert_eq!(mock_messenger.sent_message.borrow().len(), 1);
}

#[test]
fn tracker_sends_the_matching_message() {
    let mock_messenger = MockMessenger::new();
    let mut limit_tracker = LimitTracker::new(&mock_messenger, 100);
    limit_tracker.set_value(10);
    limit_tracker.set_value(75);
    limit_tracker.set_value(90);
    limit_tracker.set_value(100);
    let sent = mock_messenger.sent_message.borrow();
    assert_eq!(sent.len(), 3);
    assert_eq!(sent[0], "Warning: You've used up over 75% of your quota!");
    assert_eq!(sent[1], "Urgent Warning: You've used up over 90% of you quota!");
    assert_eq!(sent[2], "Error: You are over your quota!");
}

#[test]
fn quota_levels_at_their_edges() {
    assert_eq!(quota_message(74, 100), None);
    assert_eq!(quota_message(3, 4), Some("Warning: You've used up over 75% of your quota!"));
    assert_eq!(quota_message(89, 100), Some("Warning: You've used up over 75% of your quota!"));
    assert_eq!(quota_message(0, 0), None);
    assert_eq!(quota_message(1, 0), Some("Error: You are over your quota!"));
    assert_eq!(quota_message(usize::MAX - 1, usize::MAX), Some("Urgent Warning: You've used up over 90% of you quota!"));
}

#[test]
fn ch15_03_case1() {
    let mut engine = Engine::new();
    for id in 0..3 {
        engine.add_worker(id)
    }
    engine.run();
    println!("Log content:");
    for entry in engine.log() {
        println!("{}", entry);
    }
    engine.run();
    println!("\nFinal log content:");
    for entry in engine.log() {
        println!("{}", entry);
    }
    assert_eq!(engine.log().len(), 6);
}

#[test]
fn workers_write_their_ids() {
    let mut engine = Engine::new();
    engine.add_worker(7);
    engine.add_worker(120);
    engine.run();
    assert_eq!(
        engine.log(),
        &vec!["Worker 7 did some work".to_string(), "Worker 120 did some work".to_string()]
    );
}

struct SomeStruct {
    regular_field: u8,
    special_field: Cell<u8>,
}

#[test]
fn case5() {
    let my_struct = SomeStruct { regular_field: 0, special_field: Cell::new(1) };
    let new_value = 100;
    my_struct.special_field.set(new_value);
    assert_eq!(my_struct.special_field.get(), new_value);
    assert_eq!(my_struct.regular_field, 0);
}

#[test]
fn lamp_switches() {
    let mut lamp = Lamp::default();
    assert!(!lamp.is_on());
    lamp.switch_on();
    assert!(lamp.is_on());
    assert!(!lamp.toggled().is_on());
    lamp.switch_off();
    assert!(!lamp.is_on());
}

#[test]
fn mixing_gives_green() {
    assert_eq!(mix(PrimaryColor::Red, PrimaryColor::Blue), SecondaryColor::Green);
}

#[test]
fn restaurant_items() {
    let mut meal = Breakfast::summer("Rye");
    assert_eq!(meal.toast, "Rye");
    meal.toast = String::from("Wheat");
    assert_eq!(meal.toast, "Wheat");
    let v = Vegetable::new("squash");
    assert_eq!(v.name, "squash");
}
