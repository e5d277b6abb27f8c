//! Decoding the same item a given number of times, one after the other.

use vstd::prelude::*;
use crate::binary::errors::{ParseError, SpecResult};

verus! {

/// The models of the items of `items`, in order.
pub open spec fn views<T: View>(items: Seq<T>) -> Seq<T::V> {
    Seq::new(items.len(), |i: int| items[i]@)
}

/// `n` items in a row, each decoded by `item` from what the one before it
/// left. The first failure is the failure of the whole.
pub open spec fn spec_count<T>(item: spec_fn(Seq<u8>) -> SpecResult<T>, s: Seq<u8>, n: nat)
    -> SpecResult<Seq<T>>
    decreases n,
{
    if n == 0 {
        Ok((s, Seq::<T>::empty()))
    } else {
        match item(s) {
            Err(e) => Err(e),
            Ok((rest, first)) => match spec_count(item, rest, (n - 1) as nat) {
                Err(e) => Err(e),
                Ok((rest, others)) => Ok((rest, seq![first] + others)),
            },
        }
    }
}

/// The outcome `r` with the items `done` in front of its own.
pub open spec fn after<T>(done: Seq<T>, r: SpecResult<Seq<T>>) -> SpecResult<Seq<T>> {
    match r {
        Err(e) => Err(e),
        Ok((rest, others)) => Ok((rest, done + others)),
    }
}

pub proof fn lemma_views_push<T: View>(items: Seq<T>, last: T)
    ensures
        views(items.push(last)) == views(items).push(last@),
{
    assert(views(items.push(last)) =~= views(items).push(last@));
}

pub proof fn lemma_views_empty<T: View>()
    ensures
        views(Seq::<T>::empty()) == Seq::<T::V>::empty(),
{
    assert(views(Seq::<T>::empty()) =~= Seq::<T::V>::empty());
}

/// Before any item is decoded, nothing stands in front.
pub proof fn lemma_count_start<T>(item: spec_fn(Seq<u8>) -> SpecResult<T>, s: Seq<u8>, n: nat)
    ensures
        spec_count(item, s, n) == after(Seq::<T>::empty(), spec_count(item, s, n)),
{
    match spec_count(item, s, n) {
        Err(e) => {},
        Ok((rest, others)) => {
            assert(Seq::<T>::empty() + others =~= others);
        },
    }
}

/// Decoding one more item moves it from the part still to decode to the part
/// that is done.
pub proof fn lemma_count_step<T>(
    item: spec_fn(Seq<u8>) -> SpecResult<T>,
    s: Seq<u8>,
    n: nat,
    done: Seq<T>,
)
    requires
        n > 0,
    ensures
        match item(s) {
            Err(e) => after(done, spec_count(item, s, n)) == Err::<(Seq<u8>, Seq<T>), _>(e),
            Ok((rest, first)) => after(done, spec_count(item, s, n)) == after(
                done.push(first),
                spec_count(item, rest, (n - 1) as nat),
            ),
        },
{
    match item(s) {
        Err(e) => {},
        Ok((rest, first)) => {
            match spec_count(item, rest, (n - 1) as nat) {
                Err(e) => {},
                Ok((rest2, others)) => {
                    assert(done + (seq![first] + others) =~= done.push(first) + others);
                },
            }
        },
    }
}

/// When no item is left to decode, the part that is done is the whole.
pub proof fn lemma_count_end<T>(item: spec_fn(Seq<u8>) -> SpecResult<T>, s: Seq<u8>, done: Seq<T>)
    ensures
        after(done, spec_count(item, s, 0)) == Ok::<(Seq<u8>, Seq<T>), ParseError>((s, done)),
{
    assert(done + Seq::<T>::empty() =~= done);
}

/// A successful run of `n` items yields exactly `n` items.
pub proof fn lemma_count_len<T>(item: spec_fn(Seq<u8>) -> SpecResult<T>, s: Seq<u8>, n: nat)
    ensures
        spec_count(item, s, n) matches Ok((_, items)) ==> items.len() == n,
    decreases n,
{
    if n > 0 {
        match item(s) {
            Err(e) => {},
            Ok((rest, first)) => {
                lemma_count_len(item, rest, (n - 1) as nat);
            },
        }
    }
}

} // verus!
