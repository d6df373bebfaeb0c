//! The drop lottery: how often a node discards a fragment instead of
//! forwarding it.
use rand::Rng;
use vstd::prelude::*;

verus! {

/// Number of equally likely tickets in the drop lottery.
pub const LOTTERY_TICKETS: u32 = 8388608;

/// The probability that a fragment is dropped, as the number of losing
/// tickets among the [`LOTTERY_TICKETS`] of the lottery. Zero never drops;
/// [`LOTTERY_TICKETS`] or more always drops, so no rate stands for a
/// probability above one.
#[derive(Debug, Clone, Copy, PartialEq, Eq, Structural, Hash)]
pub struct DropRate {
    pub losing_tickets: u32,
}

impl DropRate {
    /// Whether a fragment that drew `ticket` is dropped.
    pub open spec fn drops(self, ticket: u32) -> bool {
        ticket < self.losing_tickets
    }

    /// The rate with `losing_tickets` losing tickets.
    pub fn new(losing_tickets: u32) -> (res: Self)
        ensures
            res.losing_tickets == losing_tickets,
    {
        DropRate { losing_tickets }
    }

    /// The rate that drops no fragment.
    pub fn never() -> (res: Self)
        ensures
            res.losing_tickets == 0,
            forall|ticket: u32| !res.drops(ticket),
    {
        DropRate { losing_tickets: 0 }
    }

    /// The rate that drops every fragment.
    pub fn always() -> (res: Self)
        ensures
            res.losing_tickets == LOTTERY_TICKETS,
            forall|ticket: u32| ticket < LOTTERY_TICKETS ==> res.drops(ticket),
    {
        DropRate { losing_tickets: LOTTERY_TICKETS }
    }

    /// Whether a fragment that drew `ticket` is dropped.
    pub fn is_dropped(&self, ticket: u32) -> (res: bool)
        ensures
            res == self.drops(ticket),
    {
        ticket < self.losing_tickets
    }
}

/// Calls `rand::thread_rng().gen_range(0..bound)`: a number drawn by the
/// thread's random generator. Of the result only the range is claimed, which
/// is the half-open range handed to `gen_range`; that call panics on an empty
/// range, hence the `requires`.
#[verifier::external_body]
pub(crate) fn random_below(bound: usize) -> (res: usize)
    requires
        bound > 0,
    ensures
        res < bound,
{
    rand::thread_rng().gen_range(0..bound)
}

/// Draws a number with which to pick one of several messages.
pub fn draw_pick() -> (pick: usize)
    ensures
        pick < usize::MAX,
{
    random_below(usize::MAX)
}

/// Draws a lottery ticket.
pub fn draw_ticket() -> (ticket: u32)
    ensures
        ticket < LOTTERY_TICKETS,
{
    let drawn: usize = random_below(LOTTERY_TICKETS as usize);
    drawn as u32
}

} // verus!
