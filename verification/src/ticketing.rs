use vstd::prelude::*;
use crate::addr::{Address, derive_address, event_addr_of, event_seeds, ticket_addr_of, ticket_seeds};
use crate::auth::Authorization;
use crate::errors::CoreError;
use crate::records::{Event, EventV, Record, RecordV, Ticket, TicketV};
use crate::store::{AcctV, Store, distinct_addrs, lemma_map_of_update};

verus! {

/// How a successful ticket purchase moves the record space: the event's
/// available-ticket counter decreases by exactly one and a ticket record
/// keyed on (event, buyer) is created at a previously unallocated address,
/// funded with the custodial minimum.
pub open spec fn buy_transition(
    pre: Map<Seq<u8>, AcctV>,
    min_balance: u64,
    event: Seq<u8>,
    ticket: Seq<u8>,
    buyer: Seq<u8>,
    post: Map<Seq<u8>, AcctV>,
) -> bool {
    &&& pre.contains_key(event) && pre[event].rec is Event
    &&& pre[event].rec->Event_0.available_tickets > 0
    &&& !pre.contains_key(ticket)
    &&& post == pre.insert(
        event,
        AcctV {
            balance: pre[event].balance,
            rec: RecordV::Event(
                EventV {
                    available_tickets: (pre[event].rec->Event_0.available_tickets - 1) as u64,
                    ..pre[event].rec->Event_0
                },
            ),
        },
    ).insert(
        ticket,
        AcctV { balance: min_balance, rec: RecordV::Ticket(TicketV { event, buyer }) },
    )
}

/// Longest accepted event name, in bytes.
pub const MAX_NAME_LEN: usize = 32;

/// Longest accepted event description, in bytes.
pub const MAX_DESCRIPTION_LEN: usize = 200;

impl Store {
    /// Create a ticketed event. Name and description are bounded, the
    /// ticket count must be positive and the start date strictly in the
    /// future (`now` is the host clock reading for this step); the record
    /// lives at the address derived from the event tag, the name and the
    /// organizer, so one organizer creates at most one event per name.
    pub fn initialize(
        &mut self,
        organizer: &Address,
        name: Vec<u8>,
        description: Vec<u8>,
        ticket_price: u64,
        available_tickets: u64,
        start_date: i64,
        now: i64,
        payer_balance: u64,
    ) -> (r: Result<(Address, u64), CoreError>)
        requires
            old(self).wf(),
        ensures
            final(self).wf(),
            final(self).same_config(old(self)),
            (match r {
                Ok((ea, rest)) => {
                    &&& name@.len() <= MAX_NAME_LEN
                    &&& description@.len() <= MAX_DESCRIPTION_LEN
                    &&& available_tickets > 0
                    &&& start_date > now
                    &&& event_addr_of(old(self).program_id@, name@, organizer@) matches Some(d)
                        && d.0 == ea@
                    &&& !old(self)@.contains_key(ea@)
                    &&& payer_balance >= old(self).min_balance
                    &&& rest == payer_balance - old(self).min_balance
                    &&& final(self)@ == old(self)@.insert(
                        ea@,
                        AcctV {
                            balance: old(self).min_balance,
                            rec: RecordV::Event(
                                EventV {
                                    name: name@,
                                    description: description@,
                                    ticket_price,
                                    available_tickets,
                                    start_date,
                                    event_organizer: organizer@,
                                },
                            ),
                        },
                    )
                },
                Err(CoreError::NameTooLong) => {
                    &&& name@.len() > MAX_NAME_LEN
                    &&& *final(self) == *old(self)
                },
                Err(CoreError::DescriptionTooLong) => {
                    &&& name@.len() <= MAX_NAME_LEN
                    &&& description@.len() > MAX_DESCRIPTION_LEN
                    &&& *final(self) == *old(self)
                },
                Err(CoreError::AvailableTicketsTooLow) => {
                    &&& name@.len() <= MAX_NAME_LEN
                    &&& description@.len() <= MAX_DESCRIPTION_LEN
                    &&& available_tickets == 0
                    &&& *final(self) == *old(self)
                },
                Err(CoreError::StartDateInThePast) => {
                    &&& name@.len() <= MAX_NAME_LEN
                    &&& description@.len() <= MAX_DESCRIPTION_LEN
                    &&& available_tickets > 0
                    &&& start_date <= now
                    &&& *final(self) == *old(self)
                },
                Err(CoreError::DerivationFailed) => {
                    &&& event_addr_of(old(self).program_id@, name@, organizer@) is None
                    &&& *final(self) == *old(self)
                },
                Err(CoreError::AddressInUse) => {
                    &&& event_addr_of(old(self).program_id@, name@, organizer@) matches Some(d)
                        && old(self)@.contains_key(d.0)
                    &&& *final(self) == *old(self)
                },
                Err(CoreError::InsufficientBalance) => {
                    &&& event_addr_of(old(self).program_id@, name@, organizer@) matches Some(d)
                        && !old(self)@.contains_key(d.0)
                    &&& payer_balance < old(self).min_balance
                    &&& *final(self) == *old(self)
                },
                Err(_) => false,
            }),
    {
        if name.len() > MAX_NAME_LEN {
            return Err(CoreError::NameTooLong);
        }
        if description.len() > MAX_DESCRIPTION_LEN {
            return Err(CoreError::DescriptionTooLong);
        }
        if available_tickets == 0 {
            return Err(CoreError::AvailableTicketsTooLow);
        }
        if start_date <= now {
            return Err(CoreError::StartDateInThePast);
        }
        let seeds = event_seeds(&name, organizer);
        let (ea, _bump) = match derive_address(&self.program_id, &seeds) {
            Some(d) => d,
            None => {
                return Err(CoreError::DerivationFailed);
            },
        };
        let ea_ret = ea.clone_addr();
        let rec = Record::Event(
            Event {
                name,
                description,
                ticket_price,
                available_tickets,
                start_date,
                event_organizer: organizer.clone_addr(),
            },
        );
        match self.create(ea, rec, payer_balance) {
            Ok(rest) => Ok((ea_ret, rest)),
            Err(e) => Err(e),
        }
    }

    /// Buy one ticket for the event at `event`. Fails when the event is
    /// sold out; otherwise the available-ticket counter decreases by exactly
    /// one and a ticket record keyed on (event, buyer) is created — a repeat
    /// purchase by the same buyer collides at the derived address.
    pub fn buy(&mut self, event: &Address, buyer: &Address, payer_balance: u64) -> (r: Result<
        (Address, u64),
        CoreError,
    >)
        requires
            old(self).wf(),
            old(self)@.contains_key(event@),
            old(self)@[event@].rec is Event,
        ensures
            final(self).wf(),
            final(self).same_config(old(self)),
            (match r {
                Ok((ta, rest)) => {
                    &&& ticket_addr_of(old(self).program_id@, event@, buyer@) matches Some(d)
                        && d.0 == ta@
                    &&& payer_balance >= old(self).min_balance
                    &&& rest == payer_balance - old(self).min_balance
                    &&& buy_transition(
                        old(self)@,
                        old(self).min_balance,
                        event@,
                        ta@,
                        buyer@,
                        final(self)@,
                    )
                },
                Err(CoreError::AllTicketsSoldOut) => {
                    &&& old(self)@[event@].rec->Event_0.available_tickets == 0
                    &&& *final(self) == *old(self)
                },
                Err(CoreError::DerivationFailed) => {
                    &&& old(self)@[event@].rec->Event_0.available_tickets > 0
                    &&& ticket_addr_of(old(self).program_id@, event@, buyer@) is None
                    &&& *final(self) == *old(self)
                },
                Err(CoreError::AddressInUse) => {
                    &&& old(self)@[event@].rec->Event_0.available_tickets > 0
                    &&& ticket_addr_of(old(self).program_id@, event@, buyer@) matches Some(d)
                        && old(self)@.contains_key(d.0)
                    &&& *final(self) == *old(self)
                },
                Err(CoreError::InsufficientBalance) => {
                    &&& old(self)@[event@].rec->Event_0.available_tickets > 0
                    &&& ticket_addr_of(old(self).program_id@, event@, buyer@) matches Some(d)
                        && !old(self)@.contains_key(d.0)
                    &&& payer_balance < old(self).min_balance
                    &&& *final(self) == *old(self)
                },
                Err(_) => false,
            }),
    {
        let ei = self.find(event).unwrap();
        let avail = match &self.entries[ei].rec {
            Record::Event(ev) => ev.available_tickets,
            _ => {
                proof {
                    assert(false);
                }
                0
            },
        };
        if avail == 0 {
            return Err(CoreError::AllTicketsSoldOut);
        }
        let seeds = ticket_seeds(event, buyer);
        let (ta, _bump) = match derive_address(&self.program_id, &seeds) {
            Some(d) => d,
            None => {
                return Err(CoreError::DerivationFailed);
            },
        };
        let ta_ret = ta.clone_addr();
        let rec = Record::Ticket(Ticket { event: event.clone_addr(), buyer: buyer.clone_addr() });
        let rest = match self.create(ta, rec, payer_balance) {
            Ok(rest) => rest,
            Err(e) => {
                return Err(e);
            },
        };
        let ghost mid = self.entries@;
        let ei2 = self.find(event).unwrap();
        let mut e = self.entries.remove(ei2);
        match &mut e.rec {
            Record::Event(ev) => {
                ev.available_tickets = ev.available_tickets - 1;
            },
            _ => {
                proof {
                    assert(false);
                }
            },
        }
        self.entries.insert(ei2, e);
        proof {
            assert(self.entries@ =~= mid.update(ei2 as int, self.entries@[ei2 as int]));
            assert(distinct_addrs(self.entries@)) by {
                assert forall|i: int, j: int| 0 <= i < j < self.entries@.len() implies self.entries@[i].addr@
                    != self.entries@[j].addr@ by {
                    assert(self.entries@[i].addr@ == mid[i].addr@);
                    assert(self.entries@[j].addr@ == mid[j].addr@);
                }
            }
            lemma_map_of_update(mid, ei2 as int, self.entries@[ei2 as int]);
            assert(final(self)@ =~= old(self)@.insert(
                event@,
                AcctV {
                    balance: old(self)@[event@].balance,
                    rec: RecordV::Event(
                        EventV {
                            available_tickets: (old(
                                self,
                            )@[event@].rec->Event_0.available_tickets - 1) as u64,
                            ..old(self)@[event@].rec->Event_0
                        },
                    ),
                },
            ).insert(
                ta_ret@,
                AcctV {
                    balance: old(self).min_balance,
                    rec: RecordV::Ticket(TicketV { event: event@, buyer: buyer@ }),
                },
            ));
        }
        Ok((ta_ret, rest))
    }

    /// Withdraw `amount` of the event's custodial balance to its organizer;
    /// only the recorded organizer may do so, and the debit and credit are
    /// one atomic step.
    pub fn withdraw_event_funds(
        &mut self,
        event: &Address,
        auth: &Authorization,
        organizer_balance: u64,
        amount: u64,
    ) -> (r: Result<u64, CoreError>)
        requires
            old(self).wf(),
            old(self)@.contains_key(event@),
            old(self)@[event@].rec is Event,
            organizer_balance + amount <= u64::MAX,
        ensures
            final(self).wf(),
            final(self).same_config(old(self)),
            (match r {
                Ok(organizer_after) => {
                    &&& auth.identity() == old(self)@[event@].rec->Event_0.event_organizer
                    &&& old(self)@[event@].balance >= amount
                    &&& organizer_after == organizer_balance + amount
                    &&& final(self)@ == old(self)@.insert(
                        event@,
                        AcctV {
                            balance: (old(self)@[event@].balance - amount) as u64,
                            rec: old(self)@[event@].rec,
                        },
                    )
                },
                Err(CoreError::NotAuthority) => {
                    &&& auth.identity() != old(self)@[event@].rec->Event_0.event_organizer
                    &&& *final(self) == *old(self)
                },
                Err(CoreError::InsufficientBalance) => {
                    &&& auth.identity() == old(self)@[event@].rec->Event_0.event_organizer
                    &&& old(self)@[event@].balance < amount
                    &&& *final(self) == *old(self)
                },
                Err(_) => false,
            }),
    {
        let ei = self.find(event).unwrap();
        let organizer = match &self.entries[ei].rec {
            Record::Event(ev) => ev.event_organizer.clone_addr(),
            _ => {
                proof {
                    assert(false);
                }
                return Err(CoreError::NotAuthority);
            },
        };
        match auth.verify_authority(&organizer) {
            Ok(()) => {},
            Err(e) => {
                return Err(e);
            },
        }
        if self.entries[ei].balance < amount {
            return Err(CoreError::InsufficientBalance);
        }
        let ghost pre = self.entries@;
        let mut e = self.entries.remove(ei);
        e.balance = e.balance - amount;
        self.entries.insert(ei, e);
        proof {
            assert(self.entries@ =~= pre.update(ei as int, self.entries@[ei as int]));
            assert(distinct_addrs(self.entries@)) by {
                assert forall|i: int, j: int| 0 <= i < j < self.entries@.len() implies self.entries@[i].addr@
                    != self.entries@[j].addr@ by {
                    assert(self.entries@[i].addr@ == pre[i].addr@);
                    assert(self.entries@[j].addr@ == pre[j].addr@);
                }
            }
            lemma_map_of_update(pre, ei as int, self.entries@[ei as int]);
        }
        Ok(organizer_balance + amount)
    }
}

} // verus!
