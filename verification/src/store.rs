use vstd::prelude::*;
use crate::addr::{Address, addr_eq};
use crate::errors::CoreError;
use crate::records::{Record, RecordV};

verus! {

/// The state the host keeps for one record: its custodial balance and the
/// typed record itself.
pub struct AcctV {
    pub balance: u64,
    pub rec: RecordV,
}

/// One allocated record: its derived address, its custodial balance and its
/// typed contents.
pub struct Entry {
    pub addr: Address,
    pub balance: u64,
    pub rec: Record,
}

impl Entry {
    /// The mathematical value of this entry's account state.
    pub open spec fn acct(&self) -> AcctV {
        AcctV { balance: self.balance, rec: self.rec@ }
    }
}

/// The record space as a map from address bytes to account state; a later
/// entry with the same address would shadow an earlier one, which
/// well-formedness rules out.
pub open spec fn map_of(s: Seq<Entry>) -> Map<Seq<u8>, AcctV>
    decreases s.len(),
{
    if s.len() == 0 {
        Map::empty()
    } else {
        map_of(s.drop_last()).insert(s.last().addr@, s.last().acct())
    }
}

/// No two entries live at the same address.
pub open spec fn distinct_addrs(s: Seq<Entry>) -> bool {
    forall|i: int, j: int| 0 <= i < j < s.len() ==> s[i].addr@ != s[j].addr@
}

pub proof fn lemma_map_of_contains(s: Seq<Entry>, a: Seq<u8>)
    ensures
        map_of(s).contains_key(a) <==> exists|i: int| 0 <= i < s.len() && s[i].addr@ == a,
    decreases s.len(),
{
    if s.len() > 0 {
        lemma_map_of_contains(s.drop_last(), a);
        if map_of(s).contains_key(a) {
            if s.last().addr@ == a {
                assert(s[s.len() - 1].addr@ == a);
            } else {
                let i = choose|i: int| 0 <= i < s.drop_last().len() && s.drop_last()[i].addr@ == a;
                assert(s[i].addr@ == a);
            }
        }
        if exists|i: int| 0 <= i < s.len() && s[i].addr@ == a {
            let i = choose|i: int| 0 <= i < s.len() && s[i].addr@ == a;
            if i < s.len() - 1 {
                assert(s.drop_last()[i].addr@ == a);
            }
        }
    }
}

pub proof fn lemma_map_of_index(s: Seq<Entry>, i: int)
    requires
        distinct_addrs(s),
        0 <= i < s.len(),
    ensures
        map_of(s).contains_key(s[i].addr@),
        map_of(s)[s[i].addr@] == s[i].acct(),
    decreases s.len(),
{
    if i < s.len() - 1 {
        lemma_map_of_index(s.drop_last(), i);
        assert(s.drop_last()[i] == s[i]);
        assert(s.last().addr@ != s[i].addr@);
    }
}

pub proof fn lemma_map_of_push(s: Seq<Entry>, e: Entry)
    ensures
        map_of(s.push(e)) == map_of(s).insert(e.addr@, e.acct()),
{
    assert(s.push(e).drop_last() =~= s);
    assert(s.push(e).last() == e);
}

pub proof fn lemma_map_of_update(s: Seq<Entry>, i: int, e: Entry)
    requires
        distinct_addrs(s),
        0 <= i < s.len(),
        e.addr@ == s[i].addr@,
    ensures
        map_of(s.update(i, e)) == map_of(s).insert(e.addr@, e.acct()),
    decreases s.len(),
{
    if i == s.len() - 1 {
        assert(s.update(i, e).drop_last() =~= s.drop_last());
        assert(s.update(i, e).last() == e);
        assert(map_of(s.update(i, e)) == map_of(s.drop_last()).insert(e.addr@, e.acct()));
        assert(map_of(s.drop_last()).insert(s.last().addr@, s.last().acct()).insert(e.addr@, e.acct())
            =~= map_of(s.drop_last()).insert(e.addr@, e.acct()));
    } else {
        lemma_map_of_update(s.drop_last(), i, e);
        assert(s.update(i, e).drop_last() =~= s.drop_last().update(i, e));
        assert(s.update(i, e).last() == s.last());
        assert(s.last().addr@ != e.addr@);
        assert(map_of(s.drop_last()).insert(e.addr@, e.acct()).insert(s.last().addr@, s.last().acct())
            =~= map_of(s.drop_last()).insert(s.last().addr@, s.last().acct()).insert(e.addr@, e.acct()));
    }
}

pub proof fn lemma_map_of_remove(s: Seq<Entry>, i: int)
    requires
        distinct_addrs(s),
        0 <= i < s.len(),
    ensures
        map_of(s.remove(i)) == map_of(s).remove(s[i].addr@),
    decreases s.len(),
{
    if i == s.len() - 1 {
        assert(s.remove(i) =~= s.drop_last());
        lemma_map_of_contains(s.drop_last(), s[i].addr@);
        assert(!map_of(s.drop_last()).contains_key(s[i].addr@));
        assert(map_of(s.drop_last()).insert(s.last().addr@, s.last().acct()).remove(s[i].addr@)
            =~= map_of(s.drop_last()));
    } else {
        lemma_map_of_remove(s.drop_last(), i);
        assert(s.remove(i).drop_last() =~= s.drop_last().remove(i));
        assert(s.remove(i).last() == s.last());
        assert(s.last().addr@ != s[i].addr@);
        assert(map_of(s.drop_last()).remove(s[i].addr@).insert(s.last().addr@, s.last().acct())
            =~= map_of(s.drop_last()).insert(s.last().addr@, s.last().acct()).remove(s[i].addr@));
    }
}

pub proof fn lemma_distinct_remove(s: Seq<Entry>, i: int)
    requires
        distinct_addrs(s),
        0 <= i < s.len(),
    ensures
        distinct_addrs(s.remove(i)),
{
    assert forall|x: int, y: int| 0 <= x < y < s.remove(i).len() implies s.remove(i)[x].addr@
        != s.remove(i)[y].addr@ by {
        let x0: int = if x < i { x } else { x + 1 };
        let y0: int = if y < i { y } else { y + 1 };
        assert(s.remove(i)[x] == s[x0]);
        assert(s.remove(i)[y] == s[y0]);
    }
}

/// The record store of one module instance: typed, versioned records at
/// derived addresses, each holding at least the custodial minimum balance at
/// creation. The owning module's identity and the custodial minimum are
/// configuration injected at startup.
pub struct Store {
    pub program_id: Address,
    pub min_balance: u64,
    pub entries: Vec<Entry>,
}

impl View for Store {
    type V = Map<Seq<u8>, AcctV>;

    open spec fn view(&self) -> Map<Seq<u8>, AcctV> {
        map_of(self.entries@)
    }
}

impl Store {
    /// Well-formedness: no two records share an address, and the module
    /// identity is a real 32-byte address.
    pub open spec fn wf(&self) -> bool {
        &&& distinct_addrs(self.entries@)
        &&& self.program_id@.len() == 32
    }

    /// Configuration (module identity, custodial minimum) is never changed
    /// by an operation.
    pub open spec fn same_config(&self, other: &Store) -> bool {
        &&& self.program_id@ == other.program_id@
        &&& self.min_balance == other.min_balance
    }

    /// An empty record space for the module `program_id`.
    pub fn new(program_id: Address, min_balance: u64) -> (s: Store)
        requires
            program_id@.len() == 32,
        ensures
            s.wf(),
            s@ == Map::<Seq<u8>, AcctV>::empty(),
            s.min_balance == min_balance,
            s.program_id@ == program_id@,
    {
        Store { program_id, min_balance, entries: Vec::new() }
    }

    /// Read by exact derived address: the index of the record at `a`, if one
    /// is allocated there.
    pub fn find(&self, a: &Address) -> (r: Option<usize>)
        requires
            self.wf(),
        ensures
            (match r {
                Some(i) => {
                    &&& i < self.entries@.len()
                    &&& self.entries@[i as int].addr@ == a@
                    &&& self@.contains_key(a@)
                    &&& self@[a@] == self.entries@[i as int].acct()
                },
                None => !self@.contains_key(a@),
            }),
    {
        let mut k: usize = 0;
        while k < self.entries.len()
            invariant
                self.wf(),
                k <= self.entries@.len(),
                forall|j: int| 0 <= j < k ==> self.entries@[j].addr@ != a@,
            decreases self.entries@.len() - k,
        {
            if addr_eq(&self.entries[k].addr, a) {
                proof {
                    lemma_map_of_index(self.entries@, k as int);
                }
                return Some(k);
            }
            k = k + 1;
        }
        proof {
            lemma_map_of_contains(self.entries@, a@);
        }
        None
    }

    /// Whether a record is allocated at `a`.
    pub fn contains(&self, a: &Address) -> (b: bool)
        requires
            self.wf(),
        ensures
            b == self@.contains_key(a@),
    {
        self.find(a).is_some()
    }

    /// The custodial balance of the record at `a`, if one is allocated.
    pub fn balance_of(&self, a: &Address) -> (r: Option<u64>)
        requires
            self.wf(),
        ensures
            (match r {
                Some(b) => self@.contains_key(a@) && self@[a@].balance == b,
                None => !self@.contains_key(a@),
            }),
    {
        match self.find(a) {
            Some(i) => Some(self.entries[i].balance),
            None => None,
        }
    }

    /// Create a record at a derived address. The creator funds the record's
    /// custodial minimum balance out of `payer_balance`; a repeat creation
    /// at an occupied address fails rather than overwriting.
    pub fn create(&mut self, addr: Address, rec: Record, payer_balance: u64) -> (r: Result<
        u64,
        CoreError,
    >)
        requires
            old(self).wf(),
        ensures
            final(self).wf(),
            final(self).same_config(old(self)),
            (match r {
                Ok(rest) => {
                    &&& !old(self)@.contains_key(addr@)
                    &&& payer_balance >= old(self).min_balance
                    &&& rest == payer_balance - old(self).min_balance
                    &&& final(self)@ == old(self)@.insert(
                        addr@,
                        AcctV { balance: old(self).min_balance, rec: rec@ },
                    )
                },
                Err(CoreError::AddressInUse) => {
                    &&& old(self)@.contains_key(addr@)
                    &&& *final(self) == *old(self)
                },
                Err(CoreError::InsufficientBalance) => {
                    &&& !old(self)@.contains_key(addr@)
                    &&& payer_balance < old(self).min_balance
                    &&& *final(self) == *old(self)
                },
                Err(_) => false,
            }),
    {
        if self.contains(&addr) {
            return Err(CoreError::AddressInUse);
        }
        if payer_balance < self.min_balance {
            return Err(CoreError::InsufficientBalance);
        }
        let rest = payer_balance - self.min_balance;
        let entry = Entry { addr, balance: self.min_balance, rec };
        proof {
            lemma_map_of_contains(self.entries@, entry.addr@);
            lemma_map_of_push(self.entries@, entry);
            assert forall|i: int, j: int|
                0 <= i < j < self.entries@.push(entry).len() implies self.entries@.push(entry)[i].addr@
                != self.entries@.push(entry)[j].addr@ by {
                if j < self.entries@.len() {
                    assert(self.entries@[i].addr@ != self.entries@[j].addr@);
                } else {
                    assert(self.entries@[i].addr@ != entry.addr@);
                }
            }
        }
        self.entries.push(entry);
        Ok(rest)
    }
}

} // verus!
