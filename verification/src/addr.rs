use vstd::prelude::*;

verus! {

/// An identity on the ledger host: 32 bytes, either a signable key or a
/// derived sub-record address (which has no corresponding private key).
#[derive(Debug)]
pub struct Address {
    pub bytes: Vec<u8>,
}

impl View for Address {
    type V = Seq<u8>;

    open spec fn view(&self) -> Seq<u8> {
        self.bytes@
    }
}

/// A byte-for-byte copy of `v`.
pub fn copy_bytes(v: &Vec<u8>) -> (r: Vec<u8>)
    ensures
        r@ == v@,
{
    let mut bytes: Vec<u8> = Vec::new();
    let mut k: usize = 0;
    while k < v.len()
        invariant
            k <= v@.len(),
            bytes@ == v@.take(k as int),
        decreases v@.len() - k,
    {
        bytes.push(v[k]);
        k = k + 1;
    }
    proof {
        assert(bytes@ =~= v@);
    }
    bytes
}

impl Address {
    /// A well-formed address is exactly 32 bytes long.
    pub open spec fn wf(&self) -> bool {
        self@.len() == 32
    }

    pub fn clone_addr(&self) -> (r: Address)
        ensures
            r@ == self@,
    {
        Address { bytes: copy_bytes(&self.bytes) }
    }
}

/// Byte-for-byte equality of two addresses.
pub fn addr_eq(x: &Address, y: &Address) -> (r: bool)
    ensures
        r == (x@ == y@),
{
    if x.bytes.len() != y.bytes.len() {
        return false;
    }
    let mut k: usize = 0;
    while k < x.bytes.len()
        invariant
            k <= x.bytes@.len(),
            x.bytes@.len() == y.bytes@.len(),
            forall|j: int| 0 <= j < k ==> x.bytes@[j] == y.bytes@[j],
        decreases x.bytes@.len() - k,
    {
        if x.bytes[k] != y.bytes[k] {
            return false;
        }
        k = k + 1;
    }
    proof {
        assert(x@ =~= y@);
    }
    true
}

/// What the host's program-derived-address search returns for a program
/// identity and an ordered seed list: the derived address and its
/// disambiguation byte, or nothing when the seeds exceed the host's limits
/// or no viable derivation exists. The result is a function of the
/// arguments alone, so the same seeds always yield the same address.
pub uninterp spec fn pda_of(program: Seq<u8>, seeds: Seq<Seq<u8>>) -> Option<(Seq<u8>, u8)>;

/// Relies on anchor_lang's `Pubkey::try_find_program_address`: a
/// deterministic search for an off-curve address derived from the program
/// identity and the seed list plus one disambiguation byte; a returned
/// address is always 32 bytes.
#[verifier::external_body]
fn host_find_program_address(seeds: &Vec<Vec<u8>>, program: &Address) -> (r: Option<(Vec<u8>, u8)>)
    requires
        program@.len() == 32,
    ensures
        (match r {
            Some(p) => pda_of(program@, seeds.deep_view()) == Some((p.0@, p.1)) && p.0@.len() == 32,
            None => pda_of(program@, seeds.deep_view()) is None,
        }),
{
    let mut id = [0u8; 32];
    id.copy_from_slice(&program.bytes);
    let pk = anchor_lang::prelude::Pubkey::new_from_array(id);
    let seed_slices: Vec<&[u8]> = seeds.iter().map(|s| s.as_slice()).collect();
    anchor_lang::prelude::Pubkey::try_find_program_address(&seed_slices, &pk)
        .map(|(a, bump)| (a.to_bytes().to_vec(), bump))
}

/// The seed tag of vault records: the bytes of "vault".
pub open spec fn vault_tag() -> Seq<u8> {
    seq![118u8, 97u8, 117u8, 108u8, 116u8]
}

/// The seed tag of event records: the bytes of "event".
pub open spec fn event_tag() -> Seq<u8> {
    seq![101u8, 118u8, 101u8, 110u8, 116u8]
}

/// The seed tag of ticket records: the bytes of "ticket".
pub open spec fn ticket_tag() -> Seq<u8> {
    seq![116u8, 105u8, 99u8, 107u8, 101u8, 116u8]
}

/// The seed tag of reaction records: the bytes of "reaction".
pub open spec fn reaction_tag() -> Seq<u8> {
    seq![114u8, 101u8, 97u8, 99u8, 116u8, 105u8, 111u8, 110u8]
}

/// The derivation a vault record lives at: tag plus the authority identity,
/// so each authority owns at most one vault.
pub open spec fn vault_addr_of(program: Seq<u8>, authority: Seq<u8>) -> Option<(Seq<u8>, u8)> {
    pda_of(program, seq![vault_tag(), authority])
}

/// The derivation an event record lives at: tag, event name and organizer,
/// so one organizer creates at most one event per name.
pub open spec fn event_addr_of(program: Seq<u8>, name: Seq<u8>, organizer: Seq<u8>) -> Option<
    (Seq<u8>, u8),
> {
    pda_of(program, seq![event_tag(), name, organizer])
}

/// The derivation a ticket record lives at: tag, event address and buyer,
/// which keys a ticket uniquely on the (event, buyer) pair.
pub open spec fn ticket_addr_of(program: Seq<u8>, event: Seq<u8>, buyer: Seq<u8>) -> Option<
    (Seq<u8>, u8),
> {
    pda_of(program, seq![ticket_tag(), event, buyer])
}

/// The derivation a reaction record lives at: tag, author and content
/// address, which keys a reaction uniquely on the (author, content) pair.
pub open spec fn reaction_addr_of(program: Seq<u8>, author: Seq<u8>, tweet: Seq<u8>) -> Option<
    (Seq<u8>, u8),
> {
    pda_of(program, seq![reaction_tag(), author, tweet])
}

fn vault_tag_bytes() -> (v: Vec<u8>)
    ensures
        v@ == vault_tag(),
{
    let mut v: Vec<u8> = Vec::new();
    v.push(118);
    v.push(97);
    v.push(117);
    v.push(108);
    v.push(116);
    proof {
        assert(v@ =~= vault_tag());
    }
    v
}

fn event_tag_bytes() -> (v: Vec<u8>)
    ensures
        v@ == event_tag(),
{
    let mut v: Vec<u8> = Vec::new();
    v.push(101);
    v.push(118);
    v.push(101);
    v.push(110);
    v.push(116);
    proof {
        assert(v@ =~= event_tag());
    }
    v
}

fn ticket_tag_bytes() -> (v: Vec<u8>)
    ensures
        v@ == ticket_tag(),
{
    let mut v: Vec<u8> = Vec::new();
    v.push(116);
    v.push(105);
    v.push(99);
    v.push(107);
    v.push(101);
    v.push(116);
    proof {
        assert(v@ =~= ticket_tag());
    }
    v
}

fn reaction_tag_bytes() -> (v: Vec<u8>)
    ensures
        v@ == reaction_tag(),
{
    let mut v: Vec<u8> = Vec::new();
    v.push(114);
    v.push(101);
    v.push(97);
    v.push(99);
    v.push(116);
    v.push(105);
    v.push(111);
    v.push(110);
    proof {
        assert(v@ =~= reaction_tag());
    }
    v
}

/// The seed list of a vault record.
pub fn vault_seeds(authority: &Address) -> (s: Vec<Vec<u8>>)
    ensures
        s.deep_view() == seq![vault_tag(), authority@],
{
    let mut s: Vec<Vec<u8>> = Vec::new();
    s.push(vault_tag_bytes());
    s.push(authority.clone_addr().bytes);
    proof {
        assert(s.deep_view() =~~= seq![vault_tag(), authority@]);
    }
    s
}

/// The seed list of an event record.
pub fn event_seeds(name: &Vec<u8>, organizer: &Address) -> (s: Vec<Vec<u8>>)
    ensures
        s.deep_view() == seq![event_tag(), name@, organizer@],
{
    let name_copy = copy_bytes(name);
    let mut s: Vec<Vec<u8>> = Vec::new();
    s.push(event_tag_bytes());
    s.push(name_copy);
    s.push(organizer.clone_addr().bytes);
    proof {
        assert(s.deep_view() =~~= seq![event_tag(), name@, organizer@]);
    }
    s
}

/// The seed list of a ticket record.
pub fn ticket_seeds(event: &Address, buyer: &Address) -> (s: Vec<Vec<u8>>)
    ensures
        s.deep_view() == seq![ticket_tag(), event@, buyer@],
{
    let mut s: Vec<Vec<u8>> = Vec::new();
    s.push(ticket_tag_bytes());
    s.push(event.clone_addr().bytes);
    s.push(buyer.clone_addr().bytes);
    proof {
        assert(s.deep_view() =~~= seq![ticket_tag(), event@, buyer@]);
    }
    s
}

/// The seed list of a reaction record.
pub fn reaction_seeds(author: &Address, tweet: &Address) -> (s: Vec<Vec<u8>>)
    ensures
        s.deep_view() == seq![reaction_tag(), author@, tweet@],
{
    let mut s: Vec<Vec<u8>> = Vec::new();
    s.push(reaction_tag_bytes());
    s.push(author.clone_addr().bytes);
    s.push(tweet.clone_addr().bytes);
    proof {
        assert(s.deep_view() =~~= seq![reaction_tag(), author@, tweet@]);
    }
    s
}

/// Deterministic sub-record address derivation: owning-module identity plus
/// an ordered list of seed byte-sequences, yielding the derived address and
/// its disambiguation byte.
pub fn derive_address(program: &Address, seeds: &Vec<Vec<u8>>) -> (r: Option<(Address, u8)>)
    requires
        program@.len() == 32,
    ensures
        (match r {
            Some(p) => pda_of(program@, seeds.deep_view()) == Some((p.0@, p.1)) && p.0.wf(),
            None => pda_of(program@, seeds.deep_view()) is None,
        }),
{
    match host_find_program_address(seeds, program) {
        Some((bytes, bump)) => Some((Address { bytes }, bump)),
        None => None,
    }
}

} // verus!
