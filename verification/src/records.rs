use vstd::prelude::*;
use crate::addr::Address;

verus! {

/// The kind of a reaction to a piece of content; a closed tagged union so
/// that every counter-mutation site matches exhaustively.
#[derive(Clone, Copy, Debug, PartialEq, Eq, Structural)]
pub enum ReactionType {
    Like,
    Dislike,
}

/// A vault holding value in custody for its authority; mutations are gated
/// on the `locked` flag.
#[derive(Debug)]
pub struct Vault {
    pub vault_authority: Address,
    pub locked: bool,
}

/// The mathematical value of a `Vault`: its authority's identity bytes and
/// its lock state.
pub struct VaultV {
    pub vault_authority: Seq<u8>,
    pub locked: bool,
}

impl View for Vault {
    type V = VaultV;

    open spec fn view(&self) -> VaultV {
        VaultV { vault_authority: self.vault_authority@, locked: self.locked }
    }
}

/// A ticketed offering.
#[derive(Debug)]
pub struct Event {
    pub name: Vec<u8>,
    pub description: Vec<u8>,
    pub ticket_price: u64,
    pub available_tickets: u64,
    pub start_date: i64,
    pub event_organizer: Address,
}

/// The mathematical value of an `Event`.
pub struct EventV {
    pub name: Seq<u8>,
    pub description: Seq<u8>,
    pub ticket_price: u64,
    pub available_tickets: u64,
    pub start_date: i64,
    pub event_organizer: Seq<u8>,
}

impl View for Event {
    type V = EventV;

    open spec fn view(&self) -> EventV {
        EventV {
            name: self.name@,
            description: self.description@,
            ticket_price: self.ticket_price,
            available_tickets: self.available_tickets,
            start_date: self.start_date,
            event_organizer: self.event_organizer@,
        }
    }
}

/// Proof of one purchased ticket; at most one exists per (event, buyer)
/// pair because its address is derived from both.
#[derive(Debug)]
pub struct Ticket {
    pub event: Address,
    pub buyer: Address,
}

/// The mathematical value of a `Ticket`.
pub struct TicketV {
    pub event: Seq<u8>,
    pub buyer: Seq<u8>,
}

impl View for Ticket {
    type V = TicketV;

    open spec fn view(&self) -> TicketV {
        TicketV { event: self.event@, buyer: self.buyer@ }
    }
}

/// One author's reaction to one piece of content; at most one exists per
/// (author, content) pair because its address is derived from both.
#[derive(Debug)]
pub struct Reaction {
    pub reaction_author: Address,
    pub parent_tweet: Address,
    pub reaction: ReactionType,
}

/// The mathematical value of a `Reaction`.
pub struct ReactionV {
    pub reaction_author: Seq<u8>,
    pub parent_tweet: Seq<u8>,
    pub reaction: ReactionType,
}

impl View for Reaction {
    type V = ReactionV;

    open spec fn view(&self) -> ReactionV {
        ReactionV {
            reaction_author: self.reaction_author@,
            parent_tweet: self.parent_tweet@,
            reaction: self.reaction,
        }
    }
}

/// A comment on a piece of content, closable only by its author.
#[derive(Debug)]
pub struct Comment {
    pub comment_author: Address,
    pub parent_tweet: Address,
}

/// The mathematical value of a `Comment`.
pub struct CommentV {
    pub comment_author: Seq<u8>,
    pub parent_tweet: Seq<u8>,
}

impl View for Comment {
    type V = CommentV;

    open spec fn view(&self) -> CommentV {
        CommentV { comment_author: self.comment_author@, parent_tweet: self.parent_tweet@ }
    }
}

/// A piece of content carrying like/dislike counters; every increment or
/// decrement is paired with creation or removal of exactly one `Reaction`.
#[derive(Debug)]
pub struct Tweet {
    pub likes: u64,
    pub dislikes: u64,
}

/// The counter on `t` that a reaction of kind `kind` maintains.
pub open spec fn counter_of(t: Tweet, kind: ReactionType) -> u64 {
    match kind {
        ReactionType::Like => t.likes,
        ReactionType::Dislike => t.dislikes,
    }
}

/// `t` with the counter for `kind` set to `v` and the other counter kept.
pub open spec fn with_counter(t: Tweet, kind: ReactionType, v: u64) -> Tweet {
    match kind {
        ReactionType::Like => Tweet { likes: v, dislikes: t.dislikes },
        ReactionType::Dislike => Tweet { likes: t.likes, dislikes: v },
    }
}

/// A typed record stored at a derived address.
#[derive(Debug)]
pub enum Record {
    Vault(Vault),
    Event(Event),
    Ticket(Ticket),
    Reaction(Reaction),
    Comment(Comment),
    Tweet(Tweet),
}

/// The mathematical value of a `Record`.
pub enum RecordV {
    Vault(VaultV),
    Event(EventV),
    Ticket(TicketV),
    Reaction(ReactionV),
    Comment(CommentV),
    Tweet(Tweet),
}

impl View for Record {
    type V = RecordV;

    open spec fn view(&self) -> RecordV {
        match self {
            Record::Vault(v) => RecordV::Vault(v@),
            Record::Event(e) => RecordV::Event(e@),
            Record::Ticket(t) => RecordV::Ticket(t@),
            Record::Reaction(r) => RecordV::Reaction(r@),
            Record::Comment(c) => RecordV::Comment(c@),
            Record::Tweet(t) => RecordV::Tweet(Tweet { likes: t.likes, dislikes: t.dislikes }),
        }
    }
}

} // verus!
