//! Copy on write: a slice is copied only when a change is due.
use vstd::prelude::*;
use std::borrow::Cow;
use vstd::slice::slice_to_vec;

verus! {

/// The absolute value of `v`.
pub open spec fn abs_of(v: i32) -> int {
    if v < 0 {
        -v
    } else {
        v as int
    }
}

/// The absolute values of `s`, in order.
pub open spec fn abs_seq(s: Seq<i32>) -> Seq<int> {
    s.map_values(|v: i32| abs_of(v))
}

pub open spec fn int_seq(s: Seq<i32>) -> Seq<int> {
    s.map_values(|v: i32| v as int)
}

/// Replaces every negative value of `v` by its absolute value.
fn abs_in_place(v: &mut Vec<i32>)
    requires
        forall|i: int| 0 <= i < old(v)@.len() ==> old(v)@[i] != i32::MIN,
    ensures
        int_seq(final(v)@) == abs_seq(old(v)@),
{
    let ghost start = v@;
    let mut i: usize = 0;
    while i < v.len()
        invariant
            v@.len() == start.len(),
            i <= v.len(),
            forall|j: int| 0 <= j < start.len() ==> start[j] != i32::MIN,
            forall|j: int| 0 <= j < i ==> v@[j] as int == abs_of(start[j]),
            forall|j: int| i <= j < v@.len() ==> v@[j] == start[j],
        decreases v.len() - i,
    {
        let x = v[i];
        assert(x == start[i as int]);
        if x < 0 {
            v.set(i, -x);
        }
        i = i + 1;
    }
    assert(int_seq(v@) =~= abs_seq(start));
}

/// Whether `s` holds a negative value.
fn has_negative(s: &[i32]) -> (r: bool)
    ensures
        r == exists|i: int| 0 <= i < s@.len() && s@[i] < 0,
{
    let mut i: usize = 0;
    while i < s.len()
        invariant
            i <= s.len(),
            forall|j: int| 0 <= j < i ==> s@[j] >= 0,
        decreases s.len() - i,
    {
        if s[i] < 0 {
            return true;
        }
        i = i + 1;
    }
    false
}

/// Replaces every value of `input` by its absolute value. A borrowed slice is
/// copied into an owned vector only when it holds a negative value; an owned
/// one is changed where it stands.
pub fn abs_all<'a, 'b>(input: &'a mut Cow<'b, [i32]>) -> (r: &'a mut Cow<'b, [i32]>)
    requires
        forall|i: int| 0 <= i < old(input)@.len() ==> old(input)@[i] != i32::MIN,
    ensures
        int_seq(r@) == abs_seq(old(input)@),
        (*r is Owned) <==> (*old(input) is Owned || exists|i: int|
            0 <= i < old(input)@.len() && old(input)@[i] < 0),
        *final(input) == *final(r),
{
    let copy: Option<Vec<i32>> = match &*input {
        Cow::Borrowed(s) => if has_negative(s) {
            Some(slice_to_vec(s))
        } else {
            None
        },
        Cow::Owned(_) => None,
    };
    match copy {
        Some(c) => {
            *input = Cow::Owned(c);
        },
        None => {},
    }
    assert(input@ == old(input)@);
    match input {
        Cow::Owned(v) => abs_in_place(v),
        Cow::Borrowed(_) => {},
    }
    input
}

} // verus!
