//! The boundary to the `ringbuf` crate.
//!
//! A ring is made once and then lives as two halves: a `Producer`, which
//! appends, and a `Consumer`, which removes. Nothing in this module is proved:
//! each function below hands one call to `ringbuf` and states what that call
//! does. The rest of the crate is verified against these statements.
//!
//! The halves of one ring may be at work in two threads. What a call does is
//! then decided by what the other half did meanwhile, and nothing is stated of
//! it. Where the caller holds the other half too and lends it for the call,
//! the other half is at rest, and the call is stated exactly.
use ringbuf::{Consumer, Producer, RingBuffer};
use vstd::prelude::*;

verus! {

/// The longest ring that can be asked for, in samples.
pub const MAX_FRAMES: usize = 0x0fff_ffff;

/// `ringbuf::Producer`, the half of a ring that appends.
#[verifier::external_type_specification]
#[verifier::external_body]
#[verifier::reject_recursive_types(T)]
pub struct ExProducer<T>(Producer<T>);

/// `ringbuf::Consumer`, the half of a ring that removes.
#[verifier::external_type_specification]
#[verifier::external_body]
#[verifier::reject_recursive_types(T)]
pub struct ExConsumer<T>(Consumer<T>);

/// `ringbuf::RingBuffer`, a ring before it is split into its halves.
#[verifier::external_type_specification]
#[verifier::external_body]
#[verifier::reject_recursive_types(T)]
pub struct ExRingBuffer<T>(RingBuffer<T>);

/// The samples that an unsplit ring holds, the oldest first.
pub uninterp spec fn buffer_items(rb: RingBuffer<u32>) -> Seq<u32>;

/// The number of samples that an unsplit ring was made for.
pub uninterp spec fn buffer_capacity(rb: RingBuffer<u32>) -> usize;

/// Whether `p` and `c` are the two halves of one ring, seen at one moment.
pub uninterp spec fn ring_paired(p: Producer<u32>, c: Consumer<u32>) -> bool;

/// The samples that wait in the ring of `p` and `c`, the oldest first.
pub uninterp spec fn ring_items(p: Producer<u32>, c: Consumer<u32>) -> Seq<u32>;

/// The number of samples that the ring of `p` was made for.
pub uninterp spec fn ring_capacity(p: Producer<u32>) -> usize;

/// The samples that have got into the ring through `p`, in the order in
/// which they got in, whether they still wait there or not.
pub uninterp spec fn ring_sent(p: Producer<u32>) -> Seq<u32>;

/// `RingBuffer::new`: an empty ring for `capacity` samples.
///
/// The ring allocates one slot more than `capacity`; the bound keeps that
/// size within what a `Vec` accepts.
#[verifier::external_body]
pub(crate) fn ring_new(capacity: usize) -> (rb: RingBuffer<u32>)
    requires
        capacity <= MAX_FRAMES,
    ensures
        buffer_capacity(rb) == capacity,
        buffer_items(rb) == Seq::<u32>::empty(),
{
    RingBuffer::new(capacity)
}

/// `RingBuffer::split`: the two halves of the ring, which holds what it held
/// and is as large as it was.
#[verifier::external_body]
pub(crate) fn ring_split(rb: RingBuffer<u32>) -> (r: (Producer<u32>, Consumer<u32>))
    ensures
        ring_paired(r.0, r.1),
        ring_capacity(r.0) == buffer_capacity(rb),
        ring_items(r.0, r.1) == buffer_items(rb),
{
    rb.split()
}

/// `Producer::push`: appends `x` unless the ring is full, and tells whether it
/// did. The capacity never changes, and what got in through this half is one
/// sample more, `x`, exactly when the call says that `x` got in.
///
/// With the other half lent in `reader`, nothing is removed during the call:
/// the sample gets in exactly when fewer samples wait than the ring was made
/// for, and then it waits behind all others.
#[verifier::external_body]
pub(crate) fn ring_push(p: &mut Producer<u32>, reader: Option<&Consumer<u32>>, x: u32) -> (ok:
    bool)
    ensures
        ring_capacity(*final(p)) == ring_capacity(*old(p)),
        ring_sent(*final(p)) == if ok {
            ring_sent(*old(p)).push(x)
        } else {
            ring_sent(*old(p))
        },
        match reader {
            Some(c) => ring_paired(*old(p), *c) ==> {
                &&& ring_paired(*final(p), *c)
                &&& ok == (ring_items(*old(p), *c).len() < ring_capacity(*old(p)))
                &&& ring_items(*final(p), *c) == if ok {
                    ring_items(*old(p), *c).push(x)
                } else {
                    ring_items(*old(p), *c)
                }
            },
            None => true,
        },
{
    let _ = reader;
    p.push(x).is_ok()
}

/// `Consumer::pop`: removes the oldest sample and returns it, or returns
/// `None` when the ring is empty.
///
/// With the other half lent in `writer`, nothing is appended during the call:
/// `None` comes back exactly when no sample waits, and otherwise the first of
/// those that wait, which then waits no more.
#[verifier::external_body]
pub(crate) fn ring_pop(c: &mut Consumer<u32>, writer: Option<&Producer<u32>>) -> (r: Option<u32>)
    ensures
        match writer {
            Some(p) => ring_paired(*p, *old(c)) ==> {
                &&& ring_paired(*p, *final(c))
                &&& r == if ring_items(*p, *old(c)).len() > 0 {
                    Some(ring_items(*p, *old(c))[0])
                } else {
                    None
                }
                &&& ring_items(*p, *final(c)) == if r is Some {
                    ring_items(*p, *old(c)).drop_first()
                } else {
                    ring_items(*p, *old(c))
                }
            },
            None => true,
        },
{
    let _ = writer;
    c.pop()
}

/// `Producer::len`, asked while the other half is lent and so at rest: the
/// number of samples that wait.
#[verifier::external_body]
pub(crate) fn ring_len(p: &Producer<u32>, reader: &Consumer<u32>) -> (n: usize)
    requires
        ring_paired(*p, *reader),
    ensures
        n == ring_items(*p, *reader).len(),
{
    let _ = reader;
    p.len()
}

/// `Producer::is_full`, asked while the other half is lent and so at rest:
/// whether as many samples wait as the ring was made for.
#[verifier::external_body]
pub(crate) fn ring_is_full(p: &Producer<u32>, reader: &Consumer<u32>) -> (full: bool)
    requires
        ring_paired(*p, *reader),
    ensures
        full == (ring_items(*p, *reader).len() == ring_capacity(*p)),
{
    let _ = reader;
    p.is_full()
}

} // verus!
