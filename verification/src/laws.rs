use vstd::prelude::*;
use crate::records::{ReactionType, RecordV, TicketV, counter_of, with_counter};
use crate::social::{add_reaction_transition, remove_reaction_transition};
use crate::store::AcctV;
use crate::ticketing::buy_transition;

verus! {

/// A ticket record is created exactly once per (event, buyer) pair: after a
/// successful purchase the derived ticket address is allocated and the
/// available-ticket counter has decreased by exactly one. Because the same
/// (event, buyer) pair always derives the same address, a second purchase
/// attempt by the same buyer finds the address occupied and fails with an
/// address collision, not by explicit logic: see the `AddressInUse` clause
/// of `Store::buy`.
pub proof fn lemma_repeat_purchase_collides(
    pre: Map<Seq<u8>, AcctV>,
    min_balance: u64,
    event: Seq<u8>,
    ticket: Seq<u8>,
    buyer: Seq<u8>,
    post: Map<Seq<u8>, AcctV>,
)
    requires
        buy_transition(pre, min_balance, event, ticket, buyer, post),
    ensures
        post.contains_key(ticket),
        post[ticket].rec == RecordV::Ticket(TicketV { event, buyer }),
        post.contains_key(event),
        post[event].rec->Event_0.available_tickets == pre[event].rec->Event_0.available_tickets
            - 1,
{
    assert(event != ticket);
}

/// Round trip: adding a reaction and then removing it, by the same author on
/// the same content, returns the record space — the counters and every
/// record — to exactly its prior state, and in particular removes the
/// reaction record.
pub proof fn lemma_reaction_round_trip(
    pre: Map<Seq<u8>, AcctV>,
    min_balance: u64,
    tweet: Seq<u8>,
    reaction_addr: Seq<u8>,
    author: Seq<u8>,
    kind: ReactionType,
    mid: Map<Seq<u8>, AcctV>,
    post: Map<Seq<u8>, AcctV>,
)
    requires
        add_reaction_transition(pre, min_balance, tweet, reaction_addr, author, kind, mid),
        remove_reaction_transition(mid, tweet, reaction_addr, author, post),
    ensures
        post == pre,
        !post.contains_key(reaction_addr),
{
    assert(tweet != reaction_addr);
    let t0 = pre[tweet].rec->Tweet_0;
    let c0 = counter_of(t0, kind);
    assert(mid[reaction_addr].rec->Reaction_0.reaction == kind);
    assert(mid[tweet].rec->Tweet_0 == with_counter(t0, kind, (c0 + 1) as u64));
    assert(counter_of(with_counter(t0, kind, (c0 + 1) as u64), kind) == (c0 + 1) as u64);
    assert(with_counter(with_counter(t0, kind, (c0 + 1) as u64), kind, c0) == t0);
    assert(mid[tweet].balance == pre[tweet].balance);
    assert(post =~= pre);
}

} // verus!
