use vstd::prelude::*;
use crate::addr::{Address, addr_eq, derive_address, reaction_addr_of, reaction_seeds};
use crate::errors::CoreError;
use crate::records::{
    Reaction, ReactionType, ReactionV, Record, RecordV, counter_of, with_counter,
};
use crate::store::{
    AcctV, Store, distinct_addrs, lemma_distinct_remove, lemma_map_of_remove, lemma_map_of_update,
};

verus! {

/// How a successful reaction addition moves the record space: the matching
/// counter on the content increases by exactly one and a reaction record
/// keyed on (author, content) is created at a previously unallocated
/// address, funded with the custodial minimum.
pub open spec fn add_reaction_transition(
    pre: Map<Seq<u8>, AcctV>,
    min_balance: u64,
    tweet: Seq<u8>,
    reaction_addr: Seq<u8>,
    author: Seq<u8>,
    kind: ReactionType,
    post: Map<Seq<u8>, AcctV>,
) -> bool {
    &&& pre.contains_key(tweet) && pre[tweet].rec is Tweet
    &&& !pre.contains_key(reaction_addr)
    &&& counter_of(pre[tweet].rec->Tweet_0, kind) < u64::MAX
    &&& post == pre.insert(
        tweet,
        AcctV {
            balance: pre[tweet].balance,
            rec: RecordV::Tweet(
                with_counter(
                    pre[tweet].rec->Tweet_0,
                    kind,
                    (counter_of(pre[tweet].rec->Tweet_0, kind) + 1) as u64,
                ),
            ),
        },
    ).insert(
        reaction_addr,
        AcctV {
            balance: min_balance,
            rec: RecordV::Reaction(
                ReactionV { reaction_author: author, parent_tweet: tweet, reaction: kind },
            ),
        },
    )
}

/// How a successful reaction removal moves the record space: the recorded
/// author and parent match, the matching counter decreases by exactly one
/// and the reaction record is closed.
pub open spec fn remove_reaction_transition(
    pre: Map<Seq<u8>, AcctV>,
    tweet: Seq<u8>,
    reaction_addr: Seq<u8>,
    caller: Seq<u8>,
    post: Map<Seq<u8>, AcctV>,
) -> bool {
    &&& pre.contains_key(tweet) && pre[tweet].rec is Tweet
    &&& pre.contains_key(reaction_addr) && pre[reaction_addr].rec is Reaction
    &&& pre[reaction_addr].rec->Reaction_0.reaction_author == caller
    &&& pre[reaction_addr].rec->Reaction_0.parent_tweet == tweet
    &&& counter_of(
        pre[tweet].rec->Tweet_0,
        pre[reaction_addr].rec->Reaction_0.reaction,
    ) > 0
    &&& post == pre.insert(
        tweet,
        AcctV {
            balance: pre[tweet].balance,
            rec: RecordV::Tweet(
                with_counter(
                    pre[tweet].rec->Tweet_0,
                    pre[reaction_addr].rec->Reaction_0.reaction,
                    (counter_of(
                        pre[tweet].rec->Tweet_0,
                        pre[reaction_addr].rec->Reaction_0.reaction,
                    ) - 1) as u64,
                ),
            ),
        },
    ).remove(reaction_addr)
}

impl Store {
    /// Add the caller's reaction to the content at `tweet`: increments the
    /// matching counter, which saturates into an error at the maximum rather
    /// than wrapping, and creates a reaction record keyed on (author,
    /// content) — a repeat reaction by the same author collides at the
    /// derived address.
    pub fn add_reaction(
        &mut self,
        tweet: &Address,
        author: &Address,
        reaction: ReactionType,
        payer_balance: u64,
    ) -> (r: Result<(Address, u64), CoreError>)
        requires
            old(self).wf(),
            old(self)@.contains_key(tweet@),
            old(self)@[tweet@].rec is Tweet,
        ensures
            final(self).wf(),
            final(self).same_config(old(self)),
            (match r {
                Ok((ra, rest)) => {
                    &&& reaction_addr_of(old(self).program_id@, author@, tweet@) matches Some(d)
                        && d.0 == ra@
                    &&& payer_balance >= old(self).min_balance
                    &&& rest == payer_balance - old(self).min_balance
                    &&& add_reaction_transition(
                        old(self)@,
                        old(self).min_balance,
                        tweet@,
                        ra@,
                        author@,
                        reaction,
                        final(self)@,
                    )
                },
                Err(CoreError::MaxLikesReached) => {
                    &&& reaction is Like
                    &&& old(self)@[tweet@].rec->Tweet_0.likes == u64::MAX
                    &&& *final(self) == *old(self)
                },
                Err(CoreError::MaxDislikesReached) => {
                    &&& reaction is Dislike
                    &&& old(self)@[tweet@].rec->Tweet_0.dislikes == u64::MAX
                    &&& *final(self) == *old(self)
                },
                Err(CoreError::DerivationFailed) => {
                    &&& counter_of(old(self)@[tweet@].rec->Tweet_0, reaction) < u64::MAX
                    &&& reaction_addr_of(old(self).program_id@, author@, tweet@) is None
                    &&& *final(self) == *old(self)
                },
                Err(CoreError::AddressInUse) => {
                    &&& counter_of(old(self)@[tweet@].rec->Tweet_0, reaction) < u64::MAX
                    &&& reaction_addr_of(old(self).program_id@, author@, tweet@) matches Some(d)
                        && old(self)@.contains_key(d.0)
                    &&& *final(self) == *old(self)
                },
                Err(CoreError::InsufficientBalance) => {
                    &&& counter_of(old(self)@[tweet@].rec->Tweet_0, reaction) < u64::MAX
                    &&& reaction_addr_of(old(self).program_id@, author@, tweet@) matches Some(d)
                        && !old(self)@.contains_key(d.0)
                    &&& payer_balance < old(self).min_balance
                    &&& *final(self) == *old(self)
                },
                Err(_) => false,
            }),
    {
        let ti = self.find(tweet).unwrap();
        let (likes, dislikes) = match &self.entries[ti].rec {
            Record::Tweet(t) => (t.likes, t.dislikes),
            _ => {
                proof {
                    assert(false);
                }
                (0, 0)
            },
        };
        match reaction {
            ReactionType::Like => {
                if likes == u64::MAX {
                    return Err(CoreError::MaxLikesReached);
                }
            },
            ReactionType::Dislike => {
                if dislikes == u64::MAX {
                    return Err(CoreError::MaxDislikesReached);
                }
            },
        }
        let seeds = reaction_seeds(author, tweet);
        let (ra, _bump) = match derive_address(&self.program_id, &seeds) {
            Some(d) => d,
            None => {
                return Err(CoreError::DerivationFailed);
            },
        };
        let ra_ret = ra.clone_addr();
        let rec = Record::Reaction(
            Reaction {
                reaction_author: author.clone_addr(),
                parent_tweet: tweet.clone_addr(),
                reaction,
            },
        );
        let rest = match self.create(ra, rec, payer_balance) {
            Ok(rest) => rest,
            Err(e) => {
                return Err(e);
            },
        };
        let ghost mid = self.entries@;
        let ti2 = self.find(tweet).unwrap();
        let mut e = self.entries.remove(ti2);
        match &mut e.rec {
            Record::Tweet(t) => {
                match reaction {
                    ReactionType::Like => {
                        t.likes = t.likes + 1;
                    },
                    ReactionType::Dislike => {
                        t.dislikes = t.dislikes + 1;
                    },
                }
            },
            _ => {
                proof {
                    assert(false);
                }
            },
        }
        self.entries.insert(ti2, e);
        proof {
            assert(self.entries@ =~= mid.update(ti2 as int, self.entries@[ti2 as int]));
            assert(distinct_addrs(self.entries@)) by {
                assert forall|i: int, j: int| 0 <= i < j < self.entries@.len() implies self.entries@[i].addr@
                    != self.entries@[j].addr@ by {
                    assert(self.entries@[i].addr@ == mid[i].addr@);
                    assert(self.entries@[j].addr@ == mid[j].addr@);
                }
            }
            lemma_map_of_update(mid, ti2 as int, self.entries@[ti2 as int]);
            assert(final(self)@ =~= old(self)@.insert(
                tweet@,
                AcctV {
                    balance: old(self)@[tweet@].balance,
                    rec: RecordV::Tweet(
                        with_counter(
                            old(self)@[tweet@].rec->Tweet_0,
                            reaction,
                            (counter_of(old(self)@[tweet@].rec->Tweet_0, reaction) + 1) as u64,
                        ),
                    ),
                },
            ).insert(
                ra_ret@,
                AcctV {
                    balance: old(self).min_balance,
                    rec: RecordV::Reaction(
                        ReactionV { reaction_author: author@, parent_tweet: tweet@, reaction },
                    ),
                },
            ));
        }
        Ok((ra_ret, rest))
    }

    /// Remove the reaction at `reaction_addr` from the content at `tweet`:
    /// validates that the caller is the recorded author and the content the
    /// recorded parent, decrements the matching counter, which fails at zero
    /// rather than wrapping, closes the reaction record and refunds its
    /// custodial balance to the caller.
    pub fn remove_reaction(
        &mut self,
        tweet: &Address,
        reaction_addr: &Address,
        caller: &Address,
        caller_balance: u64,
    ) -> (r: Result<u64, CoreError>)
        requires
            old(self).wf(),
            old(self)@.contains_key(tweet@),
            old(self)@[tweet@].rec is Tweet,
            old(self)@.contains_key(reaction_addr@),
            old(self)@[reaction_addr@].rec is Reaction,
            caller_balance + old(self)@[reaction_addr@].balance <= u64::MAX,
        ensures
            final(self).wf(),
            final(self).same_config(old(self)),
            (match r {
                Ok(refunded) => {
                    &&& refunded == caller_balance + old(self)@[reaction_addr@].balance
                    &&& remove_reaction_transition(
                        old(self)@,
                        tweet@,
                        reaction_addr@,
                        caller@,
                        final(self)@,
                    )
                },
                Err(CoreError::InvalidReactionAuthor) => {
                    &&& (old(self)@[reaction_addr@].rec->Reaction_0.reaction_author != caller@
                        || old(self)@[reaction_addr@].rec->Reaction_0.parent_tweet != tweet@)
                    &&& *final(self) == *old(self)
                },
                Err(CoreError::MinLikesReached) => {
                    &&& old(self)@[reaction_addr@].rec->Reaction_0.reaction_author == caller@
                    &&& old(self)@[reaction_addr@].rec->Reaction_0.parent_tweet == tweet@
                    &&& old(self)@[reaction_addr@].rec->Reaction_0.reaction is Like
                    &&& old(self)@[tweet@].rec->Tweet_0.likes == 0
                    &&& *final(self) == *old(self)
                },
                Err(CoreError::MinDislikesReached) => {
                    &&& old(self)@[reaction_addr@].rec->Reaction_0.reaction_author == caller@
                    &&& old(self)@[reaction_addr@].rec->Reaction_0.parent_tweet == tweet@
                    &&& old(self)@[reaction_addr@].rec->Reaction_0.reaction is Dislike
                    &&& old(self)@[tweet@].rec->Tweet_0.dislikes == 0
                    &&& *final(self) == *old(self)
                },
                Err(_) => false,
            }),
    {
        proof {
            assert(tweet@ != reaction_addr@);
        }
        let ri = self.find(reaction_addr).unwrap();
        let (author_ok, parent_ok, kind) = match &self.entries[ri].rec {
            Record::Reaction(rx) => (
                addr_eq(&rx.reaction_author, caller),
                addr_eq(&rx.parent_tweet, tweet),
                rx.reaction,
            ),
            _ => {
                proof {
                    assert(false);
                }
                (false, false, ReactionType::Like)
            },
        };
        if !author_ok || !parent_ok {
            return Err(CoreError::InvalidReactionAuthor);
        }
        let ti = self.find(tweet).unwrap();
        let (likes, dislikes) = match &self.entries[ti].rec {
            Record::Tweet(t) => (t.likes, t.dislikes),
            _ => {
                proof {
                    assert(false);
                }
                (0, 0)
            },
        };
        match kind {
            ReactionType::Like => {
                if likes == 0 {
                    return Err(CoreError::MinLikesReached);
                }
            },
            ReactionType::Dislike => {
                if dislikes == 0 {
                    return Err(CoreError::MinDislikesReached);
                }
            },
        }
        let ghost pre = self.entries@;
        let mut e = self.entries.remove(ti);
        match &mut e.rec {
            Record::Tweet(t) => {
                match kind {
                    ReactionType::Like => {
                        t.likes = t.likes - 1;
                    },
                    ReactionType::Dislike => {
                        t.dislikes = t.dislikes - 1;
                    },
                }
            },
            _ => {
                proof {
                    assert(false);
                }
            },
        }
        self.entries.insert(ti, e);
        proof {
            assert(self.entries@ =~= pre.update(ti as int, self.entries@[ti as int]));
            assert(distinct_addrs(self.entries@)) by {
                assert forall|i: int, j: int| 0 <= i < j < self.entries@.len() implies self.entries@[i].addr@
                    != self.entries@[j].addr@ by {
                    assert(self.entries@[i].addr@ == pre[i].addr@);
                    assert(self.entries@[j].addr@ == pre[j].addr@);
                }
            }
            lemma_map_of_update(pre, ti as int, self.entries@[ti as int]);
        }
        let ghost mid = self.entries@;
        let ri2 = self.find(reaction_addr).unwrap();
        let closed = self.entries.remove(ri2);
        proof {
            lemma_distinct_remove(mid, ri2 as int);
            lemma_map_of_remove(mid, ri2 as int);
        }
        Ok(caller_balance + closed.balance)
    }

    /// Close the comment at `comment_addr` and refund its custodial balance
    /// to the caller; only the comment's recorded author may do so.
    pub fn remove_comment(
        &mut self,
        comment_addr: &Address,
        caller: &Address,
        caller_balance: u64,
    ) -> (r: Result<u64, CoreError>)
        requires
            old(self).wf(),
            old(self)@.contains_key(comment_addr@),
            old(self)@[comment_addr@].rec is Comment,
            caller_balance + old(self)@[comment_addr@].balance <= u64::MAX,
        ensures
            final(self).wf(),
            final(self).same_config(old(self)),
            (match r {
                Ok(refunded) => {
                    &&& old(self)@[comment_addr@].rec->Comment_0.comment_author == caller@
                    &&& refunded == caller_balance + old(self)@[comment_addr@].balance
                    &&& final(self)@ == old(self)@.remove(comment_addr@)
                },
                Err(CoreError::NotAuthority) => {
                    &&& old(self)@[comment_addr@].rec->Comment_0.comment_author != caller@
                    &&& *final(self) == *old(self)
                },
                Err(_) => false,
            }),
    {
        let ci = self.find(comment_addr).unwrap();
        let author_ok = match &self.entries[ci].rec {
            Record::Comment(c) => addr_eq(&c.comment_author, caller),
            _ => {
                proof {
                    assert(false);
                }
                false
            },
        };
        if !author_ok {
            return Err(CoreError::NotAuthority);
        }
        let ghost pre = self.entries@;
        let closed = self.entries.remove(ci);
        proof {
            lemma_distinct_remove(pre, ci as int);
            lemma_map_of_remove(pre, ci as int);
        }
        Ok(caller_balance + closed.balance)
    }
}

} // verus!
