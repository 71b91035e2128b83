//! Small functions and types that the library's tests exercise.
use vstd::prelude::*;

verus! {

/// A rectangle by its side lengths.
#[derive(Debug)]
pub struct Rectangle {
    pub length: u32,
    pub width: u32,
}

impl Rectangle {
    /// Whether `other` fits strictly inside `self`, sides kept parallel.
    pub fn can_hold(&self, other: &Rectangle) -> (r: bool)
        ensures
            r == (self.length > other.length && self.width > other.width),
    {
        self.length > other.length && self.width > other.width
    }
}

/// A value compared field by field.
#[derive(Debug, PartialEq, Eq, Structural)]
pub struct TestStruct {
    pub a: i32,
}

/// `a + b`.
pub fn internal_adder(a: i32, b: i32) -> (r: i32)
    requires
        i32::MIN <= a + b <= i32::MAX,
    ensures
        r == a + b,
{
    a + b
}

/// `a + 2`.
pub fn add_two(a: i32) -> (r: i32)
    requires
        a <= i32::MAX - 2,
    ensures
        r == a + 2,
{
    internal_adder(a, 2)
}

/// A greeting for `name`.
pub fn greeting(name: &str) -> (r: String)
    ensures
        r@ == "Hello "@ + name@ + "!"@,
{
    String::from_str("Hello ").concat(name).concat("!")
}

/// A guess between 1 and 100.
pub struct Guess {
    value: i32,
}

impl View for Guess {
    type V = i32;

    closed spec fn view(&self) -> i32 {
        self.value
    }
}

impl Guess {
    /// The guess `value`, which lies between 1 and 100.
    pub fn new(value: i32) -> (r: Guess)
        requires
            1 <= value <= 100,
        ensures
            r@ == value,
    {
        Guess { value }
    }

    /// The guessed value.
    pub fn value(&self) -> (r: i32)
        ensures
            r == self@,
    {
        self.value
    }
}

/// `x + 1`.
pub fn add_one(x: i32) -> (r: i32)
    requires
        x < i32::MAX,
    ensures
        r == x + 1,
{
    x + 1
}

} // verus!
