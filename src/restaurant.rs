//! Modules, paths and privacy: a restaurant, a garden and an orchestra.
use vstd::prelude::*;

verus! {

/// Prepares what the library's tests share; there is nothing to prepare.
pub fn setup() {
}

fn serve_order() {
}

fn cook_order() {
}

/// Corrects an order: cooks it again and serves it.
fn fix_incorrect_order() {
    cook_order();
    serve_order();
}

/// A breakfast: the guest picks the toast; the kitchen picks the fruit.
pub struct Breakfast {
    pub toast: String,
    seasonal_fruit: String,
}

impl View for Breakfast {
    /// The toast, then the fruit.
    type V = (Seq<char>, Seq<char>);

    closed spec fn view(&self) -> (Seq<char>, Seq<char>) {
        (self.toast@, self.seasonal_fruit@)
    }
}

impl Breakfast {
    /// The summer breakfast with the toast `toast`; its fruit is peaches.
    pub fn summer(toast: &str) -> (r: Breakfast)
        ensures
            r@ == (toast@, "peaches"@),
    {
        Breakfast { toast: String::from_str(toast), seasonal_fruit: String::from_str("peaches") }
    }
}

/// The starters on the menu.
#[derive(Clone, Copy, Debug, PartialEq, Eq, Structural)]
pub enum Appetizer {
    Soup,
    Salad,
}

/// A vegetable of the garden: its name is public, its id is not.
pub struct Vegetable {
    pub name: String,
    id: i32,
}

impl View for Vegetable {
    /// The name, then the id.
    type V = (Seq<char>, i32);

    closed spec fn view(&self) -> (Seq<char>, i32) {
        (self.name@, self.id)
    }
}

impl Vegetable {
    /// A vegetable named `name`, with id 1.
    pub fn new(name: &str) -> (r: Vegetable)
        ensures
            r@ == (name@, 1i32),
    {
        Vegetable { name: String::from_str(name), id: 1 }
    }
}

fn breathe_in() {
}

/// Plays the clarinet once: a breath, then the note.
pub fn clarinet() {
    breathe_in();
}

/// Three clarinets, one after another.
pub fn clarinet_trio() {
    clarinet();
    clarinet();
    clarinet();
}

} // verus!
