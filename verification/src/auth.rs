use vstd::prelude::*;
use crate::addr::{Address, addr_eq, copy_bytes, derive_address, pda_of};
use crate::errors::CoreError;

verus! {

enum AuthKind {
    Direct { signer: Address },
    Delegated { owner_program: Address, seeds: Vec<Vec<u8>>, bump: u8, derived: Address },
}

/// A caller's credential: either a direct signature the host has already
/// verified, or delegated authority over one derived address, established
/// by reconstructing its exact seed list and disambiguation byte. The
/// variants are sealed: a delegated value comes only from
/// [`Authorization::delegate`], which performs the derivation itself, so no
/// module can fabricate authority for seeds it does not own.
pub struct Authorization {
    kind: AuthKind,
}

impl Authorization {
    /// A delegated credential carries exactly the derivation it claims.
    pub closed spec fn wf(&self) -> bool {
        match self.kind {
            AuthKind::Direct { .. } => true,
            AuthKind::Delegated { owner_program, seeds, bump, derived } => pda_of(
                owner_program@,
                seeds.deep_view(),
            ) == Some((derived@, bump)),
        }
    }

    pub closed spec fn is_direct(&self) -> bool {
        self.kind is Direct
    }

    pub closed spec fn is_delegated(&self) -> bool {
        self.kind is Delegated
    }

    /// The single identity this credential stands for.
    pub closed spec fn identity(&self) -> Seq<u8> {
        match self.kind {
            AuthKind::Direct { signer } => signer@,
            AuthKind::Delegated { derived, .. } => derived@,
        }
    }

    /// The owning module of a delegated credential.
    pub closed spec fn delegated_program(&self) -> Seq<u8> {
        match self.kind {
            AuthKind::Direct { .. } => Seq::empty(),
            AuthKind::Delegated { owner_program, .. } => owner_program@,
        }
    }

    /// The exact seed list of a delegated credential.
    pub closed spec fn delegated_seeds(&self) -> Seq<Seq<u8>> {
        match self.kind {
            AuthKind::Direct { .. } => Seq::empty(),
            AuthKind::Delegated { seeds, .. } => seeds.deep_view(),
        }
    }

    /// The disambiguation byte of a delegated credential.
    pub closed spec fn delegated_bump(&self) -> u8 {
        match self.kind {
            AuthKind::Direct { .. } => 0,
            AuthKind::Delegated { bump, .. } => bump,
        }
    }

    /// A direct credential: the host has already verified this signature.
    pub fn direct(signer: Address) -> (a: Authorization)
        ensures
            a.wf(),
            a.is_direct(),
            a.identity() == signer@,
    {
        Authorization { kind: AuthKind::Direct { signer } }
    }

    /// Delegated authority over one derived address, established by the
    /// owning module presenting the exact seed list; the credential extends
    /// to that address and to no other.
    pub fn delegate(owner_program: &Address, seeds: Vec<Vec<u8>>) -> (r: Result<
        Authorization,
        CoreError,
    >)
        requires
            owner_program@.len() == 32,
        ensures
            (match r {
                Ok(a) => {
                    &&& a.wf()
                    &&& a.is_delegated()
                    &&& a.delegated_program() == owner_program@
                    &&& a.delegated_seeds() == seeds.deep_view()
                    &&& pda_of(owner_program@, seeds.deep_view()) == Some(
                        (a.identity(), a.delegated_bump()),
                    )
                },
                Err(e) => e == CoreError::DerivationFailed && pda_of(
                    owner_program@,
                    seeds.deep_view(),
                ) is None,
            }),
    {
        match derive_address(owner_program, &seeds) {
            Some((derived, bump)) => Ok(
                Authorization {
                    kind: AuthKind::Delegated {
                        owner_program: owner_program.clone_addr(),
                        seeds,
                        bump,
                        derived,
                    },
                },
            ),
            None => Err(CoreError::DerivationFailed),
        }
    }

    /// Authority verification fails closed: it accepts exactly when the
    /// presented identity equals the identity recorded on the target.
    pub fn verify_authority(&self, required: &Address) -> (r: Result<(), CoreError>)
        ensures
            r is Ok <==> self.identity() == required@,
            r is Err ==> r == Err::<(), CoreError>(CoreError::NotAuthority),
    {
        let id = match &self.kind {
            AuthKind::Direct { signer } => signer,
            AuthKind::Delegated { derived, .. } => derived,
        };
        if addr_eq(id, required) {
            Ok(())
        } else {
            Err(CoreError::NotAuthority)
        }
    }

    /// The exact seed list and disambiguation byte to hand to the host's
    /// delegated invocation path; a direct signature carries none, and must
    /// use the direct path instead.
    pub fn delegation_proof(&self) -> (r: Option<(&Vec<Vec<u8>>, u8)>)
        ensures
            (match r {
                Some(p) => {
                    &&& self.is_delegated()
                    &&& p.0.deep_view() == self.delegated_seeds()
                    &&& p.1 == self.delegated_bump()
                },
                None => self.is_direct(),
            }),
    {
        match &self.kind {
            AuthKind::Delegated { seeds, bump, .. } => Some((seeds, *bump)),
            AuthKind::Direct { .. } => None,
        }
    }

    /// The full seed list for the host's signed-invocation path: the exact
    /// seeds, then the disambiguation byte as one trailing single-byte seed.
    /// A direct signature carries none and must use the direct path.
    pub fn signer_seed_list(&self) -> (r: Option<Vec<Vec<u8>>>)
        ensures
            (match r {
                Some(s) => {
                    &&& self.is_delegated()
                    &&& s.deep_view() == self.delegated_seeds().push(
                        seq![self.delegated_bump()],
                    )
                },
                None => self.is_direct(),
            }),
    {
        match &self.kind {
            AuthKind::Delegated { seeds, bump, .. } => {
                let mut s = copy_seed_list(seeds);
                let mut bump_seed: Vec<u8> = Vec::new();
                bump_seed.push(*bump);
                let ghost before = s.deep_view();
                s.push(bump_seed);
                proof {
                    let target = self.delegated_seeds().push(seq![self.delegated_bump()]);
                    assert(bump_seed@ =~= seq![self.delegated_bump()]);
                    assert forall|i: int| 0 <= i < s@.len() implies s.deep_view()[i]
                        == target[i] by {
                        if i < s@.len() - 1 {
                            assert(s.deep_view()[i] == before[i]);
                        } else {
                            assert(s.deep_view()[i] == bump_seed.deep_view());
                            assert(bump_seed.deep_view() =~= bump_seed@);
                        }
                    }
                    assert(s.deep_view() =~= target);
                }
                Some(s)
            },
            AuthKind::Direct { .. } => None,
        }
    }
}

/// A deep copy of a seed list.
fn copy_seed_list(v: &Vec<Vec<u8>>) -> (r: Vec<Vec<u8>>)
    ensures
        r.deep_view() == v.deep_view(),
{
    let mut r: Vec<Vec<u8>> = Vec::new();
    let mut k: usize = 0;
    while k < v.len()
        invariant
            k <= v@.len(),
            r@.len() == k,
            forall|i: int| 0 <= i < k ==> #[trigger] r@[i]@ == v@[i]@,
        decreases v@.len() - k,
    {
        r.push(copy_bytes(&v[k]));
        k = k + 1;
    }
    proof {
        assert forall|i: int| 0 <= i < v@.len() implies r.deep_view()[i] == v.deep_view()[i] by {
            assert(r@[i]@ == v@[i]@);
            assert(r.deep_view()[i] =~= r@[i]@);
            assert(v.deep_view()[i] =~= v@[i]@);
        }
        assert(r.deep_view() =~= v.deep_view());
    }
    r
}

/// A credential authorizes at most one identity: whatever two identities it
/// is accepted for are the same one.
pub proof fn lemma_authorizes_single_identity(a: Authorization, x: Seq<u8>, y: Seq<u8>)
    requires
        a.identity() == x,
        a.identity() == y,
    ensures
        x == y,
{
}

/// A delegated credential stands for exactly the address derived from the
/// module identity and seed list it carries: delegation propagates no
/// authority beyond that single derived address.
pub proof fn lemma_delegation_matches_derivation(a: Authorization)
    requires
        a.wf(),
        a.is_delegated(),
    ensures
        pda_of(a.delegated_program(), a.delegated_seeds()) == Some(
            (a.identity(), a.delegated_bump()),
        ),
{
}

} // verus!
