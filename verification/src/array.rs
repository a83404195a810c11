//! Projections over vectors of pairs.
//!
//! Where a fixed-size array abstraction would match lengths at compile
//! time, these helpers work on growable vectors and state the length
//! relations in their contracts: the output is as long as the input, as
//! long as the requested size, or a prefix of the input.

use vstd::prelude::*;

verus! {

/// The first components of a vector of pairs, in order.
pub fn fst<A: Copy, B>(from: &Vec<(A, B)>) -> (r: Vec<A>)
    ensures
        r@.len() == from@.len(),
        forall|k: int| 0 <= k < from@.len() ==> r@[k] == from@[k].0,
{
    let mut r: Vec<A> = Vec::new();
    let mut i: usize = 0;
    while i < from.len()
        invariant
            i <= from.len(),
            r@.len() == i,
            forall|k: int| 0 <= k < i ==> r@[k] == from@[k].0,
        decreases from.len() - i,
    {
        r.push(from[i].0);
        i = i + 1;
    }
    r
}

/// The second components of a vector of pairs, in order.
pub fn snd<A, B: Copy>(from: &Vec<(A, B)>) -> (r: Vec<B>)
    ensures
        r@.len() == from@.len(),
        forall|k: int| 0 <= k < from@.len() ==> r@[k] == from@[k].1,
{
    let mut r: Vec<B> = Vec::new();
    let mut i: usize = 0;
    while i < from.len()
        invariant
            i <= from.len(),
            r@.len() == i,
            forall|k: int| 0 <= k < i ==> r@[k] == from@[k].1,
        decreases from.len() - i,
    {
        r.push(from[i].1);
        i = i + 1;
    }
    r
}

/// The first components of a vector of pairs, padded with the default
/// value of `A` up to `len` when the input is shorter.
pub fn fst_default<A: Copy + Default, B>(from: &Vec<(A, B)>, len: usize) -> (r: Vec<A>)
    ensures
        r@.len() == len,
        forall|k: int| 0 <= k < from@.len() && k < len ==> r@[k] == from@[k].0,
{
    let fill = A::default();
    let mut r: Vec<A> = Vec::new();
    let mut i: usize = 0;
    while i < len
        invariant
            i <= len,
            r@.len() == i,
            forall|k: int| 0 <= k < i && k < from@.len() ==> r@[k] == from@[k].0,
        decreases len - i,
    {
        if i < from.len() {
            r.push(from[i].0);
        } else {
            r.push(fill);
        }
        i = i + 1;
    }
    r
}

/// The second components of a vector of pairs, padded with the default
/// value of `B` up to `len` when the input is shorter.
pub fn snd_default<A, B: Copy + Default>(from: &Vec<(A, B)>, len: usize) -> (r: Vec<B>)
    ensures
        r@.len() == len,
        forall|k: int| 0 <= k < from@.len() && k < len ==> r@[k] == from@[k].1,
{
    let fill = B::default();
    let mut r: Vec<B> = Vec::new();
    let mut i: usize = 0;
    while i < len
        invariant
            i <= len,
            r@.len() == i,
            forall|k: int| 0 <= k < i && k < from@.len() ==> r@[k] == from@[k].1,
        decreases len - i,
    {
        if i < from.len() {
            r.push(from[i].1);
        } else {
            r.push(fill);
        }
        i = i + 1;
    }
    r
}

/// The first components of the initial `len` pairs of a vector at least
/// that long.
pub fn fst_initial<A: Copy, B>(from: &Vec<(A, B)>, len: usize) -> (r: Vec<A>)
    requires
        len <= from@.len(),
    ensures
        r@.len() == len,
        forall|k: int| 0 <= k < len ==> r@[k] == from@[k].0,
{
    let mut r: Vec<A> = Vec::new();
    let mut i: usize = 0;
    while i < len
        invariant
            i <= len,
            len <= from@.len(),
            r@.len() == i,
            forall|k: int| 0 <= k < i ==> r@[k] == from@[k].0,
        decreases len - i,
    {
        r.push(from[i].0);
        i = i + 1;
    }
    r
}

/// The second components of the initial `len` pairs of a vector at least
/// that long.
pub fn snd_initial<A, B: Copy>(from: &Vec<(A, B)>, len: usize) -> (r: Vec<B>)
    requires
        len <= from@.len(),
    ensures
        r@.len() == len,
        forall|k: int| 0 <= k < len ==> r@[k] == from@[k].1,
{
    let mut r: Vec<B> = Vec::new();
    let mut i: usize = 0;
    while i < len
        invariant
            i <= len,
            len <= from@.len(),
            r@.len() == i,
            forall|k: int| 0 <= k < i ==> r@[k] == from@[k].1,
        decreases len - i,
    {
        r.push(from[i].1);
        i = i + 1;
    }
    r
}

} // verus!
