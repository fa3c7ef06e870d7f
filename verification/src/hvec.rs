//! Trusted boundary around `heapless::Vec`, the bounded byte buffer the
//! storage codec builds null-terminated names in.
//!
//! The buffer's contents are named by the uninterpreted [`hvec_bytes`];
//! each wrapper states, over that name, what the corresponding `heapless`
//! method does, as its source shows.

use vstd::prelude::*;

verus! {

/// Byte capacity of the codec's working buffer: a name or text payload,
/// null terminator included, must fit in this many bytes.
pub const NAME_BUFFER_CAPACITY: usize = 256;

#[verifier::external_type_specification]
#[verifier::external_body]
#[verifier::reject_recursive_types(T)]
pub struct ExHeaplessVec<T, const N: usize>(heapless::Vec<T, N>);

/// The initialized elements of a bounded byte buffer, in order.
pub uninterp spec fn hvec_bytes(v: heapless::Vec<u8, 256>) -> Seq<u8>;

/// Relies on heapless::Vec::new: a freshly constructed vector is empty.
#[verifier::external_body]
pub(crate) fn hvec_new() -> (r: heapless::Vec<u8, 256>)
    ensures
        hvec_bytes(r) == Seq::<u8>::empty(),
{
    heapless::Vec::new()
}

/// Relies on heapless::Vec::extend_from_slice: appends the whole slice
/// when it fits the remaining capacity, and otherwise returns an error
/// leaving the vector unchanged.
#[verifier::external_body]
pub(crate) fn hvec_extend_from_slice(v: &mut heapless::Vec<u8, 256>, other: &[u8]) -> (r: Result<
    (),
    (),
>)
    ensures
        r is Ok <==> hvec_bytes(*old(v)).len() + other@.len() <= NAME_BUFFER_CAPACITY,
        r is Ok ==> hvec_bytes(*final(v)) == hvec_bytes(*old(v)) + other@,
        r is Err ==> hvec_bytes(*final(v)) == hvec_bytes(*old(v)),
{
    v.extend_from_slice(other)
}

/// Relies on heapless::Vec::push: appends one item when the vector is
/// below capacity, and otherwise returns the item back unchanged.
#[verifier::external_body]
pub(crate) fn hvec_push(v: &mut heapless::Vec<u8, 256>, item: u8) -> (r: Result<(), u8>)
    ensures
        r is Ok <==> hvec_bytes(*old(v)).len() < NAME_BUFFER_CAPACITY,
        r is Ok ==> hvec_bytes(*final(v)) == hvec_bytes(*old(v)).push(item),
        r is Err ==> hvec_bytes(*final(v)) == hvec_bytes(*old(v)) && r->Err_0 == item,
{
    v.push(item)
}

/// Relies on heapless::Vec::as_slice: a view of the initialized elements.
#[verifier::external_body]
pub(crate) fn hvec_as_slice(v: &heapless::Vec<u8, 256>) -> (r: &[u8])
    ensures
        r@ == hvec_bytes(*v),
{
    v.as_slice()
}

} // verus!
