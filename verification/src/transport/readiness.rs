//! Readiness sets and polling options, as the reactor defines them.
//!
//! Both are bit sets of `mio`. The library asks only for their bits: which
//! flags a set reported by the reactor holds, and with which flags a
//! transport is to be registered.

use vstd::prelude::*;

verus! {

/// `mio::EventSet`, a set of readiness flags. Nothing is known of a value
/// but what the functions below say of its bits.
#[verifier::external_type_specification]
#[verifier::external_body]
pub struct ExEventSet(mio::EventSet);

/// `mio::PollOpt`, a set of polling flags. Nothing is known of a value but
/// what the functions below say of its bits.
#[verifier::external_type_specification]
#[verifier::external_body]
pub struct ExPollOpt(mio::PollOpt);

/// The flags of a readiness set, as one number: what `mio::EventSet::bits`
/// returns.
pub uninterp spec fn event_set_bits(events: mio::EventSet) -> usize;

/// The flags of a polling option, as one number: what `mio::PollOpt::bits`
/// returns.
pub uninterp spec fn poll_opt_bits(opt: mio::PollOpt) -> usize;

/// The flag of a transport that can be read from.
pub const READABLE: usize = 0x001;

/// The flag of a transport that can be written to.
pub const WRITABLE: usize = 0x002;

/// The flag of level-triggered polling.
pub const LEVEL: usize = 0x040;

/// `bits` holds every flag of `flags`.
pub open spec fn has_flags(bits: usize, flags: usize) -> bool {
    bits & flags == flags
}

/// The readable flag is among the bits.
pub open spec fn readable_in(bits: usize) -> bool {
    has_flags(bits, READABLE)
}

/// The writable flag is among the bits.
pub open spec fn writable_in(bits: usize) -> bool {
    has_flags(bits, WRITABLE)
}

/// `mio::EventSet::readable`: the set that holds the readable flag alone.
#[verifier::external_body]
pub(crate) fn readable() -> (events: mio::EventSet)
    ensures
        event_set_bits(events) == READABLE,
{
    mio::EventSet::readable()
}

/// `mio::EventSet::writable`: the set that holds the writable flag alone.
#[verifier::external_body]
pub(crate) fn writable() -> (events: mio::EventSet)
    ensures
        event_set_bits(events) == WRITABLE,
{
    mio::EventSet::writable()
}

/// `mio::EventSet::bitor`: the set that holds the flags of both sets.
#[verifier::external_body]
pub(crate) fn union(a: mio::EventSet, b: mio::EventSet) -> (events: mio::EventSet)
    ensures
        event_set_bits(events) == event_set_bits(a) | event_set_bits(b),
{
    a | b
}

/// `mio::EventSet::is_readable`: whether the set holds the readable flag.
#[verifier::external_body]
pub(crate) fn is_readable(events: &mio::EventSet) -> (yes: bool)
    ensures
        yes == readable_in(event_set_bits(*events)),
{
    events.is_readable()
}

/// `mio::EventSet::is_writable`: whether the set holds the writable flag.
#[verifier::external_body]
pub(crate) fn is_writable(events: &mio::EventSet) -> (yes: bool)
    ensures
        yes == writable_in(event_set_bits(*events)),
{
    events.is_writable()
}

/// `mio::PollOpt::level`: the option that holds the level flag alone.
#[verifier::external_body]
pub(crate) fn level() -> (opt: mio::PollOpt)
    ensures
        poll_opt_bits(opt) == LEVEL,
{
    mio::PollOpt::level()
}

/// The set that holds the readable and the writable flag.
pub fn readable_and_writable() -> (events: mio::EventSet)
    ensures
        event_set_bits(events) == READABLE | WRITABLE,
        event_set_bits(events) == 3,
        readable_in(event_set_bits(events)),
        writable_in(event_set_bits(events)),
{
    proof {
        lemma_flags();
    }
    assert(READABLE | WRITABLE == 3) by (bit_vector);
    union(readable(), writable())
}

/// Of the three sets that the library registers, which hold which flag.
pub proof fn lemma_flags()
    ensures
        readable_in(READABLE),
        !writable_in(READABLE),
        !readable_in(WRITABLE),
        writable_in(WRITABLE),
        readable_in(3),
        writable_in(3),
        !readable_in(0),
        !writable_in(0),
{
    assert(1usize & 1usize == 1usize) by (bit_vector);
    assert(1usize & 2usize != 2usize) by (bit_vector);
    assert(2usize & 1usize != 1usize) by (bit_vector);
    assert(2usize & 2usize == 2usize) by (bit_vector);
    assert(3usize & 1usize == 1usize) by (bit_vector);
    assert(3usize & 2usize == 2usize) by (bit_vector);
    assert(0usize & 1usize != 1usize) by (bit_vector);
    assert(0usize & 2usize != 2usize) by (bit_vector);
}

} // verus!
