//! A lamp that can be switched on and off.
use std::cell::Cell;
use vstd::prelude::*;

verus! {

/// A lamp, on or off.
#[derive(Debug, Clone, Copy)]
pub struct Lamp {
    on: bool,
}

impl View for Lamp {
    /// Whether the lamp is on.
    type V = bool;

    closed spec fn view(&self) -> bool {
        self.on
    }
}

impl Default for Lamp {
    /// A lamp that is off.
    fn default() -> (r: Lamp)
        ensures
            !r@,
    {
        Lamp { on: false }
    }
}

impl Lamp {
    /// Whether the lamp is on.
    pub fn is_on(&self) -> (r: bool)
        ensures
            r == self@,
    {
        self.on
    }

    /// Turns the lamp on.
    pub fn switch_on(&mut self)
        ensures
            final(self)@,
    {
        self.on = true
    }

    /// Turns the lamp off.
    pub fn switch_off(&mut self)
        ensures
            !final(self)@,
    {
        self.on = false
    }

    /// The lamp in the other state.
    pub fn toggled(self) -> (r: Lamp)
        ensures
            r@ == !self@,
    {
        let mut lamp = self;
        if lamp.is_on() {
            lamp.switch_off()
        } else {
            lamp.switch_on()
        }
        lamp
    }
}

#[verifier::external_type_specification]
#[verifier::external_body]
#[verifier::reject_recursive_types(T)]
pub struct ExCell<T: ?Sized>(Cell<T>);

/// Relies on `Cell::take`, which hands out the value held and leaves the
/// default in its place. What the cell holds is shared state that the
/// verifier does not follow, so nothing is stated of the value.
pub assume_specification<T: Default>[ Cell::<T>::take ](c: &Cell<T>) -> T
    where
        T: Default,
;

/// Relies on `Cell::set`, which replaces the value held by `val`.
pub assume_specification<T>[ Cell::<T>::set ](c: &Cell<T>, val: T);

/// A switch wired to a lamp that other switches may share.
pub struct Switcher<'a> {
    lamp: &'a Cell<Lamp>,
}

impl<'a> Switcher<'a> {
    /// Whether the switch is wired to the lamp in `lamp`.
    pub closed spec fn wired_to(&self, lamp: &Cell<Lamp>) -> bool {
        self.lamp == lamp
    }

    /// A switch for the lamp in `lamp`.
    pub fn new(lamp: &'a Cell<Lamp>) -> (r: Switcher<'a>)
        ensures
            r.wired_to(lamp),
    {
        Switcher { lamp }
    }

    /// Puts the lamp in the other state: takes it out of its cell, toggles it
    /// (see `Lamp::toggled`) and puts it back.
    pub fn switch(&mut self)
        ensures
            *final(self) == *old(self),
    {
        let lamp = self.lamp.take();
        self.lamp.set(lamp.toggled());
    }
}

} // verus!
