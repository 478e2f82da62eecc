//! The argument and environment vectors that the loader hands to `execveat`.
//!
//! The kernel takes both as arrays of NUL-terminated strings. A string with
//! a NUL byte inside cannot be passed on and is left out; every other one is
//! passed on unchanged, in its place.

use vstd::prelude::*;

verus! {

/// The byte `=` that separates a variable's name from its value.
pub const EQUALS: u8 = 0x3d;

/// `s` as a NUL-terminated string: `s` with a NUL byte appended, or `None`
/// where `s` itself holds a NUL byte.
pub open spec fn c_string(s: Seq<u8>) -> Option<Seq<u8>> {
    if s.contains(0u8) {
        None
    } else {
        Some(s.push(0u8))
    }
}

/// The environment entry for a variable: `name=value`.
pub open spec fn env_entry_bytes(name: Seq<u8>, value: Seq<u8>) -> Seq<u8> {
    name + seq![EQUALS] + value
}

/// The byte strings that a vector of byte vectors holds.
pub open spec fn byte_strings(items: Seq<Vec<u8>>) -> Seq<Seq<u8>> {
    items.map_values(|v: Vec<u8>| v@)
}

/// The NUL-terminated forms of those `items` that have one, in order.
pub open spec fn c_strings(items: Seq<Seq<u8>>) -> Seq<Seq<u8>>
    decreases items.len(),
{
    if items.len() == 0 {
        Seq::empty()
    } else {
        let before = c_strings(items.drop_last());
        match c_string(items.last()) {
            Some(c) => before.push(c),
            None => before,
        }
    }
}

/// Every string that `c_strings` yields ends in its only NUL byte.
pub proof fn lemma_c_strings_are_terminated(items: Seq<Seq<u8>>, i: int)
    requires
        0 <= i < c_strings(items).len(),
    ensures
        ({
            let c = c_strings(items)[i];
            &&& c.len() >= 1
            &&& c.last() == 0u8
            &&& !c.drop_last().contains(0u8)
        }),
    decreases items.len(),
{
    if items.len() > 0 && i < c_strings(items.drop_last()).len() {
        lemma_c_strings_are_terminated(items.drop_last(), i);
    }
}

/// Where no item holds a NUL byte, none is left out.
pub proof fn lemma_c_strings_keeps_clean_items(items: Seq<Seq<u8>>)
    requires
        forall|i: int| 0 <= i < items.len() ==> !(#[trigger] items[i]).contains(0u8),
    ensures
        c_strings(items).len() == items.len(),
        forall|i: int|
            0 <= i < items.len() ==> (#[trigger] c_strings(items)[i]) == items[i].push(0u8),
    decreases items.len(),
{
    if items.len() > 0 {
        lemma_c_strings_keeps_clean_items(items.drop_last());
    }
}

/// Appends the terminating NUL byte to `s`, unless `s` holds a NUL byte.
pub fn c_string_bytes(s: &[u8]) -> (r: Option<Vec<u8>>)
    ensures
        match r {
            Some(c) => c_string(s@) == Some(c@),
            None => c_string(s@) is None,
        },
{
    let mut out: Vec<u8> = Vec::with_capacity(s.len());
    let mut i: usize = 0;
    while i < s.len()
        invariant
            i <= s@.len(),
            out@ == s@.take(i as int),
            !s@.take(i as int).contains(0u8),
        decreases s@.len() - i,
    {
        let b: u8 = s[i];
        if b == 0 {
            return None;
        }
        out.push(b);
        i = i + 1;
    }
    assert(s@.take(i as int) =~= s@);
    out.push(0u8);
    Some(out)
}

/// The environment entry `name=value`.
pub fn env_entry(name: &[u8], value: &[u8]) -> (entry: Vec<u8>)
    ensures
        entry@ == env_entry_bytes(name@, value@),
{
    let mut entry: Vec<u8> = Vec::with_capacity(name.len());
    entry.extend_from_slice(name);
    entry.push(EQUALS);
    entry.extend_from_slice(value);
    entry
}

/// The vector to hand to `execveat` for `items`: each item NUL-terminated,
/// in order, without those that hold a NUL byte.
pub fn exec_vector(items: &Vec<Vec<u8>>) -> (out: Vec<Vec<u8>>)
    ensures
        byte_strings(out@) == c_strings(byte_strings(items@)),
{
    let mut out: Vec<Vec<u8>> = Vec::new();
    let mut i: usize = 0;
    while i < items.len()
        invariant
            i <= items@.len(),
            byte_strings(out@) == c_strings(byte_strings(items@).take(i as int)),
        decreases items@.len() - i,
    {
        assert(byte_strings(items@).take(i + 1).drop_last() =~= byte_strings(items@).take(
            i as int,
        ));
        match c_string_bytes(items[i].as_slice()) {
            Some(c) => {
                out.push(c);
            },
            None => {},
        }
        i = i + 1;
    }
    assert(byte_strings(items@).take(i as int) =~= byte_strings(items@));
    out
}

} // verus!
