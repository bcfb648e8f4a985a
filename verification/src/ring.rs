//! A bounded queue of samples between the thread that decodes and the one that
//! feeds the audio device: the single-producer single-consumer ring of `rtrb`.
//!
//! Samples are 32-bit words: packed DSD frames as they are, and PCM samples as
//! the bit patterns of their floating-point values.
use vstd::prelude::*;

verus! {

#[verifier::external_type_specification]
#[verifier::external_body]
#[verifier::reject_recursive_types(T)]
pub struct ExProducer<T>(rtrb::Producer<T>);

#[verifier::external_type_specification]
#[verifier::external_body]
#[verifier::reject_recursive_types(T)]
pub struct ExConsumer<T>(rtrb::Consumer<T>);

/// All samples ever written through a producer, in order.
pub uninterp spec fn sent(p: rtrb::Producer<u32>) -> Seq<u32>;

/// How many samples a producer knows there to be room for: what its last look
/// at the ring found, less what it has written since, as
/// `rtrb::Producer::cached_slots` shows it. Only the producer itself puts samples
/// in, so there is room for at least these.
pub uninterp spec fn room(p: rtrb::Producer<u32>) -> nat;

/// All samples ever read through a consumer, in order.
pub uninterp spec fn taken(c: rtrb::Consumer<u32>) -> Seq<u32>;

/// The samples that a consumer knows to wait for it, in order: those that its
/// last look at the ring found, less those that it has read since. There are
/// `rtrb::Consumer::cached_slots` of them. Only the consumer itself takes samples
/// out, so they are there until it does.
pub uninterp spec fn at_hand(c: rtrb::Consumer<u32>) -> Seq<u32>;

/// Whether of the samples that waited none was lost on the way from `before` to
/// `after`: they are the first of those in `got`, in order, or still at hand.
pub open spec fn none_lost(before: rtrb::Consumer<u32>, got: Seq<u32>, after: rtrb::Consumer<u32>) -> bool {
    at_hand(before).is_prefix_of(got + at_hand(after))
}

/// The most samples a ring can have room for.
pub open spec fn fits_in_memory(capacity: int) -> bool {
    4 * capacity <= isize::MAX
}

/// `rtrb::RingBuffer::new` makes a ring with room for `capacity` samples and
/// hands out its two ends, through which nothing has passed yet: there is room
/// for all of them, and none waits. It allocates all of it at once, so the bytes
/// must not exceed what one allocation can hold.
#[verifier::external_body]
pub(crate) fn new_ring(capacity: usize) -> (r: (rtrb::Producer<u32>, rtrb::Consumer<u32>))
    requires
        fits_in_memory(capacity as int),
    ensures
        sent(r.0) == Seq::<u32>::empty(),
        room(r.0) == capacity,
        taken(r.1) == Seq::<u32>::empty(),
        at_hand(r.1) == Seq::<u32>::empty(),
{
    rtrb::RingBuffer::<u32>::new(capacity)
}

/// `rtrb::Producer::push_partial_slice` copies as many samples as there is room
/// for from the front of `samples` into the ring, and returns how many. It
/// writes all that the producer knows there to be room for, looks at the ring
/// once more where that is not enough, and leaves samples over only where no
/// room is left. How much room the other end has made meanwhile is left open.
#[verifier::external_body]
pub(crate) fn push_some(p: &mut rtrb::Producer<u32>, samples: &[u32]) -> (n: usize)
    ensures
        n <= samples@.len(),
        sent(*final(p)) == sent(*old(p)) + samples@.take(n as int),
        n < samples@.len() ==> room(*final(p)) == 0,
        room(*old(p)) <= n + room(*final(p)),
{
    p.push_partial_slice(samples).0.len()
}

/// `rtrb::Consumer::slots` looks how many samples wait to be read, and returns
/// that count. It takes none out; the consumer keeps the count, and the samples
/// that it knew of still come first. How many the other end has added meanwhile,
/// and which, is left open.
#[verifier::external_body]
pub(crate) fn waiting(c: &mut rtrb::Consumer<u32>) -> (n: usize)
    ensures
        n == at_hand(*final(c)).len(),
        at_hand(*old(c)).is_prefix_of(at_hand(*final(c))),
        taken(*final(c)) == taken(*old(c)),
{
    c.slots()
}

/// `rtrb::Consumer::read_chunk` gives access to the oldest `n` samples, and
/// `commit_all` takes them out of the ring. Where the consumer knows of `n`
/// samples this gives those and leaves it the rest of them; otherwise it looks at
/// the ring once more, and with fewer than `n` there it fails and takes nothing.
#[verifier::external_body]
pub(crate) fn take_chunk(c: &mut rtrb::Consumer<u32>, n: usize) -> (r: Option<Vec<u32>>)
    ensures
        match r {
            Some(v) => v@.len() == n && taken(*final(c)) == taken(*old(c)) + v@,
            None => taken(*final(c)) == taken(*old(c)) && at_hand(*old(c)).len() < n,
        },
        n <= at_hand(*old(c)).len() ==> {
            &&& r matches Some(v) && v@ == at_hand(*old(c)).take(n as int)
            &&& at_hand(*final(c)) == at_hand(*old(c)).skip(n as int)
        },
{
    match c.read_chunk(n) {
        Ok(chunk) => {
            let (first, second) = chunk.as_slices();
            let samples = [first, second].concat();
            chunk.commit_all();
            Some(samples)
        },
        Err(_) => None,
    }
}

} // verus!
