//! Composed proofs: one sub-proof per statement, bound by a single
//! Fiat-Shamir challenge over the shared transcript, with witness equality
//! enforced by injecting one shared blinding per equality class and checked
//! at verification by comparing the exposed responses.

use vstd::prelude::*;

use crate::errors::BBSPlusError;
use crate::g1::G1El;
use crate::keys::PublicKeyG2;
use crate::params::SignatureParamsG1;
use crate::pok_sig::{lemma_unrevealed_sorted, unrevealed, PoKOfSignatureG1Protocol};
use crate::proof_spec::{class_refs, ProofSpec};
use crate::scalar::{fr_challenge, fr_of_transcript, fr_random, Scalar};
use crate::schnorr::{schnorr_verify, spec_schnorr_verifies, SchnorrCommitment};
use crate::sig::SignatureG1;
use crate::statements::{base_els, clone_g1s, lookup_indexed, resolve_bases, revealed_contains,
    spec_revealed_contains, MetaStatement, SetupParams, Statement, Witness};
use crate::transcript::{append_ped_contrib, append_stmt, contribs_upto, stmt_commitment_repr,
    stmts_bytes_upto, sub_contrib, transcript_bytes, StatementProof};
use ark_std::rand::rngs::StdRng;

verus! {

/// Whether one sub-proof is of its statement's kind and passes that
/// statement's own verification under the given challenge.
pub open spec fn sub_verifies(
    stmt: Statement,
    setup: Seq<SetupParams>,
    sub: StatementProof,
    challenge: Seq<u8>,
) -> bool {
    match stmt {
        Statement::PoKBBSPlusSignature { params, public_key, revealed } => match sub {
            StatementProof::PoKBBSPlusSignature(pf) => pf.spec_verifies(
                revealed@,
                challenge,
                public_key,
                params,
            ),
            _ => false,
        },
        _ => match sub {
            StatementProof::PedersenCommitment { t, responses } => {
                &&& responses@.len() == base_els(stmt, setup).len()
                &&& spec_schnorr_verifies(
                    crate::g1::g1_reprs(base_els(stmt, setup)),
                    stmt_commitment_repr(stmt),
                    t@,
                    challenge,
                    crate::scalar::scalar_reprs(responses@),
                )
            },
            _ => false,
        },
    }
}

/// Whether every sub-proof matches and verifies.
pub open spec fn subs_all_verify(ps: ProofSpec, subs: Seq<StatementProof>, challenge: Seq<u8>) -> bool {
    &&& subs.len() == ps.statements@.len()
    &&& forall|i: int|
        0 <= i < subs.len() ==> sub_verifies(
            ps.statements@[i],
            ps.setup_params@,
            #[trigger] subs[i],
            challenge,
        )
}

/// Whether a sub-proof is of its statement's kind and carries the response
/// counts that statement's verifier expects.
pub open spec fn sub_shape_ok(stmt: Statement, setup: Seq<SetupParams>, sub: StatementProof) -> bool {
    match stmt {
        Statement::PoKBBSPlusSignature { params, revealed, .. } => match sub {
            StatementProof::PoKBBSPlusSignature(pf) => {
                let u = unrevealed(
                    params.h@.len() as int,
                    revealed@.map_values(|p: (usize, Scalar)| p.0),
                );
                pf.resp1@.len() == 2 && pf.resp2@.len() == 2 + u.len()
            },
            _ => false,
        },
        _ => match sub {
            StatementProof::PedersenCommitment { responses, .. } => responses@.len() == base_els(
                stmt,
                setup,
            ).len(),
            _ => false,
        },
    }
}

/// Whether witness slot `j` of one statement's sub-proof exposes the
/// response value `v`.
pub open spec fn resp_is1(stmt: Statement, sub: StatementProof, j: usize, v: Seq<u8>) -> bool {
    match stmt {
        Statement::PoKBBSPlusSignature { params, revealed, .. } => match sub {
            StatementProof::PoKBBSPlusSignature(pf) => {
                let u = unrevealed(
                    params.h@.len() as int,
                    revealed@.map_values(|p: (usize, Scalar)| p.0),
                );
                exists|k: int|
                    0 <= k < u.len() && u[k] == j && 2 + k < pf.resp2@.len() && (
                    #[trigger] pf.resp2@[2 + k])@ == v
            },
            _ => false,
        },
        _ => match sub {
            StatementProof::PedersenCommitment { responses, .. } => j < responses@.len()
                && responses@[j as int]@ == v,
            _ => false,
        },
    }
}

/// A slot exposes at most one response value.
pub proof fn lemma_resp_unique(
    stmt: Statement,
    sub: StatementProof,
    j: usize,
    v1: Seq<u8>,
    v2: Seq<u8>,
)
    requires
        resp_is1(stmt, sub, j, v1),
        resp_is1(stmt, sub, j, v2),
    ensures
        v1 == v2,
{
    match stmt {
        Statement::PoKBBSPlusSignature { params, revealed, .. } => match sub {
            StatementProof::PoKBBSPlusSignature(pf) => {
                let ridx = revealed@.map_values(|p: (usize, Scalar)| p.0);
                assert(params.h@.len() <= usize::MAX) by {
                    broadcast use vstd::std_specs::vec::axiom_spec_len;

                    assert(params.h@.len() == params.h.len());
                }
                let l = params.h@.len() as int;
                let u = unrevealed(l, ridx);
                lemma_unrevealed_sorted(l, ridx);
                let k1 = choose|k: int|
                    0 <= k < u.len() && u[k] == j && 2 + k < pf.resp2@.len() && (
                    #[trigger] pf.resp2@[2 + k])@ == v1;
                let k2 = choose|k: int|
                    0 <= k < u.len() && u[k] == j && 2 + k < pf.resp2@.len() && (
                    #[trigger] pf.resp2@[2 + k])@ == v2;
                if k1 < k2 {
                    assert(u[k1] < u[k2]);
                } else if k2 < k1 {
                    assert(u[k2] < u[k1]);
                }
                assert(k1 == k2);
            },
            _ => {},
        },
        _ => {},
    }
}

/// Whether every slot an equality class references exposes the response
/// value `v`.
pub open spec fn class_agrees_with(
    stmts: Seq<Statement>,
    subs: Seq<StatementProof>,
    m: MetaStatement,
    v: Seq<u8>,
) -> bool {
    forall|t: int|
        0 <= t < class_refs(m).len() ==> {
            let rf = #[trigger] class_refs(m)[t];
            rf.0 < stmts.len() && rf.0 < subs.len() && resp_is1(
                stmts[rf.0 as int],
                subs[rf.0 as int],
                rf.1,
                v,
            )
        }
}

/// Whether every slot an equality class references exposes one common
/// response value.
pub open spec fn class_agrees(
    stmts: Seq<Statement>,
    subs: Seq<StatementProof>,
    m: MetaStatement,
) -> bool {
    exists|v: Seq<u8>| class_agrees_with(stmts, subs, m, v)
}

/// Whether every equality class of the specification agrees.
pub open spec fn all_classes_agree(ps: ProofSpec, subs: Seq<StatementProof>) -> bool {
    forall|c: int|
        0 <= c < ps.meta_statements@.len() ==> class_agrees(
            ps.statements@,
            subs,
            #[trigger] ps.meta_statements@[c],
        )
}

/// The challenge a transcript yields.
pub open spec fn spec_challenge(
    ps: ProofSpec,
    subs: Seq<StatementProof>,
    nonce: Option<Vec<u8>>,
) -> Seq<u8> {
    fr_of_transcript(transcript_bytes(ps, subs, nonce))
}

/// Whether one witness payload fits its statement: the right kind, a full
/// opening for a Pedersen statement, and a value for every undisclosed
/// message of a BBS+ statement.
pub open spec fn witness_matches1(stmt: Statement, setup: Seq<SetupParams>, w: Witness) -> bool {
    match stmt {
        Statement::PoKBBSPlusSignature { params, revealed, .. } => match w {
            Witness::PoKBBSPlusSignature { unrevealed_messages, .. } => forall|j: usize|
                j < params.h@.len() ==> (#[trigger] spec_revealed_contains(revealed@, j))
                    || spec_revealed_contains(unrevealed_messages@, j),
            _ => false,
        },
        _ => match w {
            Witness::PedersenCommitment(s) => s@.len() == base_els(stmt, setup).len(),
            _ => false,
        },
    }
}

/// Whether the witness bundle fits the statements one for one.
pub open spec fn witnesses_match(ps: ProofSpec, wits: Seq<Witness>) -> bool {
    &&& wits.len() == ps.statements@.len()
    &&& forall|i: int|
        0 <= i < wits.len() ==> witness_matches1(
            ps.statements@[i],
            ps.setup_params@,
            #[trigger] wits[i],
        )
}

/// Checks one witness payload against its statement.
fn check_witness(stmt: &Statement, setup: &Vec<SetupParams>, w: &Witness) -> (r: bool)
    ensures
        r == witness_matches1(*stmt, setup@, *w),
{
    match stmt {
        Statement::PoKBBSPlusSignature { params, revealed, .. } => match w {
            Witness::PoKBBSPlusSignature { unrevealed_messages, .. } => {
                let l = params.supported_message_count();
                let mut j: usize = 0;
                while j < l
                    invariant
                        j <= l,
                        l == params.h@.len(),
                        (*stmt matches Statement::PoKBBSPlusSignature { params: pp, revealed: rr, .. }
                            && rr@ == revealed@ && pp.h@.len() == l),
                        (*w matches Witness::PoKBBSPlusSignature { unrevealed_messages: uu, .. }
                            && uu@ == unrevealed_messages@),
                        forall|k: usize|
                            k < j ==> (#[trigger] spec_revealed_contains(revealed@, k))
                                || spec_revealed_contains(unrevealed_messages@, k),
                    decreases l - j,
                {
                    if !revealed_contains(revealed, j) {
                        match lookup_indexed(unrevealed_messages, j) {
                            Some(_) => {},
                            None => {
                                return false;
                            },
                        }
                    }
                    j += 1;
                }
                true
            },
            _ => false,
        },
        Statement::PedersenCommitment { bases, .. } => match w {
            Witness::PedersenCommitment(s) => s.len() == bases.len(),
            _ => false,
        },
        Statement::PedersenCommitmentFromSetupParams { key_ref, .. } => match w {
            Witness::PedersenCommitment(s) => {
                if *key_ref < setup.len() {
                    match &setup[*key_ref] {
                        SetupParams::PedersenCommitmentKey(b) => s.len() == b.len(),
                    }
                } else {
                    s.len() == 0
                }
            },
            _ => false,
        },
    }
}

/// Finds the blinding of the first equality class that claims slot
/// `(i, j)`, if any.
fn find_beta(
    metas: &Vec<MetaStatement>,
    betas: &Vec<Scalar>,
    i: usize,
    j: usize,
) -> (r: Option<Scalar>)
    requires
        betas@.len() == metas@.len(),
{
    let nm = metas.len();
    let mut c: usize = 0;
    while c < nm
        invariant
            c <= nm,
            nm == metas@.len() == betas@.len(),
        decreases nm - c,
    {
        match &metas[c] {
            MetaStatement::WitnessEquality(e) => {
                let nt = e.0.len();
                let mut t: usize = 0;
                while t < nt
                    invariant
                        t <= nt,
                        nt == e.0@.len(),
                        c < nm,
                        nm == metas@.len() == betas@.len(),
                    decreases nt - t,
                {
                    let (si, sj) = e.0[t];
                    if si == i && sj == j {
                        return Some(betas[c]);
                    }
                    t += 1;
                }
            },
        }
        c += 1;
    }
    None
}

/// Per-statement prover state.
enum ProtoState {
    Ped { bases: Vec<G1El>, commitment: G1El, sc: SchnorrCommitment, wits: Vec<Scalar> },
    Bbs { proto: PoKOfSignatureG1Protocol },
}

/// The bookkeeping every prover state keeps: it is of its statement's kind
/// and its witness vectors fit its blindings and its statement's slots.
spec fn proto_matches(stmt: Statement, setup: Seq<SetupParams>, p: ProtoState) -> bool {
    match stmt {
        Statement::PoKBBSPlusSignature { params, revealed, .. } => match p {
            ProtoState::Bbs { proto } => {
                let u = unrevealed(
                    params.h@.len() as int,
                    revealed@.map_values(|q: (usize, Scalar)| q.0),
                );
                &&& proto.witnesses1@.len() == proto.sc1.blindings@.len()
                &&& proto.witnesses2@.len() == proto.sc2.blindings@.len()
                &&& proto.witnesses1@.len() == 2
                &&& proto.witnesses2@.len() == 2 + u.len()
            },
            _ => false,
        },
        _ => match p {
            ProtoState::Ped { bases, sc, wits, .. } => {
                &&& sc.blindings@.len() == wits@.len()
                &&& bases@.len() == wits@.len()
                &&& wits@.len() == base_els(stmt, setup).len()
            },
            _ => false,
        },
    }
}

/// A composed proof: one sub-proof per statement. The challenge is not
/// stored; the verifier recomputes it from the transcript.
#[derive(Clone, Debug)]
pub struct Proof(pub Vec<StatementProof>);

impl Proof {
    /// Builds a composed proof: validates the specification, checks the
    /// witness bundle, samples one blinding per equality class and injects
    /// it into every referenced slot, commits every sub-protocol, derives
    /// the shared challenge from the transcript and the nonce, and answers
    /// it. On a valid specification with a matching witness bundle the
    /// result is the proof, or `ProofVerificationFailed` in the negligible
    /// event that a sampled randomizer was zero on every attempt; no other
    /// outcome is possible there.
    pub fn new(
        rng: &mut StdRng,
        proof_spec: &ProofSpec,
        witnesses: &Vec<Witness>,
        nonce: &Option<Vec<u8>>,
    ) -> (r: Result<Proof, BBSPlusError>)
        ensures
            !proof_spec.spec_valid() ==> r == Err::<Proof, BBSPlusError>(
                BBSPlusError::ProofSpecInvalid,
            ),
            proof_spec.spec_valid() && !witnesses_match(*proof_spec, witnesses@) ==> r == Err::<
                Proof,
                BBSPlusError,
            >(BBSPlusError::WitnessKindMismatch),
            proof_spec.spec_valid() && witnesses_match(*proof_spec, witnesses@) ==> (r is Ok || r
                == Err::<Proof, BBSPlusError>(BBSPlusError::ProofVerificationFailed)),
            r matches Ok(p) ==> proof_spec.spec_valid() && witnesses_match(*proof_spec, witnesses@)
                && p.0@.len() == proof_spec.statements@.len() && (forall|i: int|
                0 <= i < p.0@.len() ==> sub_shape_ok(
                    proof_spec.statements@[i],
                    proof_spec.setup_params@,
                    #[trigger] p.0@[i],
                )),
    {
        match proof_spec.validate() {
            Ok(_) => {},
            Err(_) => {
                return Err(BBSPlusError::ProofSpecInvalid);
            },
        }
        let n = proof_spec.statements.len();
        if witnesses.len() != n {
            return Err(BBSPlusError::WitnessKindMismatch);
        }
        let mut i: usize = 0;
        while i < n
            invariant
                i <= n,
                n == proof_spec.statements@.len() == witnesses@.len(),
                proof_spec.spec_valid(),
                forall|k: int|
                    0 <= k < i ==> witness_matches1(
                        proof_spec.statements@[k],
                        proof_spec.setup_params@,
                        #[trigger] witnesses@[k],
                    ),
            decreases n - i,
        {
            if !check_witness(&proof_spec.statements[i], &proof_spec.setup_params, &witnesses[i]) {
                proof {
                    assert(!witness_matches1(
                        proof_spec.statements@[i as int],
                        proof_spec.setup_params@,
                        witnesses@[i as int],
                    ));
                }
                return Err(BBSPlusError::WitnessKindMismatch);
            }
            i += 1;
        }

        // One blinding per equality class.
        let nm = proof_spec.meta_statements.len();
        let mut betas: Vec<Scalar> = Vec::new();
        let mut c: usize = 0;
        while c < nm
            invariant
                c <= nm,
                betas@.len() == c,
            decreases nm - c,
        {
            betas.push(fr_random(rng));
            c += 1;
        }

        // Commitment phase.
        let mut protos: Vec<ProtoState> = Vec::new();
        let mut i: usize = 0;
        while i < n
            invariant
                i <= n,
                n == proof_spec.statements@.len() == witnesses@.len(),
                betas@.len() == proof_spec.meta_statements@.len(),
                proof_spec.spec_valid(),
                witnesses_match(*proof_spec, witnesses@),
                protos@.len() == i,
                forall|k: int|
                    0 <= k < i ==> proto_matches(
                        proof_spec.statements@[k],
                        proof_spec.setup_params@,
                        #[trigger] protos@[k],
                    ),
            decreases n - i,
        {
            assert(witness_matches1(
                proof_spec.statements@[i as int],
                proof_spec.setup_params@,
                witnesses@[i as int],
            ));
            match (&proof_spec.statements[i], &witnesses[i]) {
                (
                    Statement::PoKBBSPlusSignature { params, revealed, .. },
                    Witness::PoKBBSPlusSignature { signature, unrevealed_messages },
                ) => {
                    let l = params.supported_message_count();
                    let mut messages: Vec<Scalar> = Vec::new();
                    let mut rev_idx: Vec<usize> = Vec::new();
                    let mut msg_blindings: Vec<Option<Scalar>> = Vec::new();
                    let mut j: usize = 0;
                    while j < l
                        invariant
                            j <= l,
                            l == params.h@.len(),
                            betas@.len() == proof_spec.meta_statements@.len(),
                            messages@.len() == j,
                            msg_blindings@.len() == j,
                            forall|k: usize|
                                k < params.h@.len() ==> (#[trigger] spec_revealed_contains(
                                    revealed@,
                                    k,
                                )) || spec_revealed_contains(unrevealed_messages@, k),
                        decreases l - j,
                    {
                        match lookup_indexed(revealed, j) {
                            Some(v) => {
                                messages.push(v);
                            },
                            None => {
                                match lookup_indexed(unrevealed_messages, j) {
                                    Some(v) => {
                                        messages.push(v);
                                    },
                                    None => {
                                        proof {
                                            assert(false);
                                        }
                                        return Err(BBSPlusError::WitnessKindMismatch);
                                    },
                                }
                            },
                        }
                        msg_blindings.push(find_beta(&proof_spec.meta_statements, &betas, i, j));
                        j += 1;
                    }
                    let nr = revealed.len();
                    let mut k2: usize = 0;
                    while k2 < nr
                        invariant
                            k2 <= nr,
                            nr == revealed@.len(),
                            rev_idx@.len() == k2,
                            forall|k3: int|
                                0 <= k3 < k2 ==> (#[trigger] rev_idx@[k3]) == revealed@[k3].0,
                        decreases nr - k2,
                    {
                        let (idx, _) = revealed[k2];
                        rev_idx.push(idx);
                        k2 += 1;
                    }
                    proof {
                        assert(rev_idx@ =~= revealed@.map_values(|q: (usize, Scalar)| q.0));
                    }
                    match PoKOfSignatureG1Protocol::init(
                        rng,
                        signature,
                        params,
                        &messages,
                        &rev_idx,
                        &msg_blindings,
                    ) {
                        Some(proto) => {
                            protos.push(ProtoState::Bbs { proto });
                        },
                        None => {
                            return Err(BBSPlusError::ProofVerificationFailed);
                        },
                    }
                },
                (stmt, Witness::PedersenCommitment(scalars)) => {
                    let bases = match resolve_bases(stmt, &proof_spec.setup_params) {
                        Some(b) => b,
                        None => {
                            proof {
                                assert(false);
                            }
                            return Err(BBSPlusError::WitnessKindMismatch);
                        },
                    };
                    let nb = bases.len();
                    let mut blindings: Vec<Scalar> = Vec::new();
                    let mut j: usize = 0;
                    while j < nb
                        invariant
                            j <= nb,
                            blindings@.len() == j,
                            betas@.len() == proof_spec.meta_statements@.len(),
                        decreases nb - j,
                    {
                        match find_beta(&proof_spec.meta_statements, &betas, i, j) {
                            Some(b) => blindings.push(b),
                            None => blindings.push(fr_random(rng)),
                        }
                        j += 1;
                    }
                    let sc = SchnorrCommitment::init(&bases, blindings);
                    let commitment = match stmt {
                        Statement::PedersenCommitment { commitment, .. } => *commitment,
                        Statement::PedersenCommitmentFromSetupParams { commitment, .. } => {
                            *commitment
                        },
                        Statement::PoKBBSPlusSignature { .. } => {
                            proof {
                                assert(false);
                            }
                            return Err(BBSPlusError::WitnessKindMismatch);
                        },
                    };
                    let wits = crate::pok_sig::clone_scalars(scalars);
                    protos.push(ProtoState::Ped { bases, commitment, sc, wits });
                },
                _ => {
                    proof {
                        assert(false);
                    }
                    return Err(BBSPlusError::WitnessKindMismatch);
                },
            }
            i += 1;
        }

        // Shared challenge over the transcript.
        let mut tbytes: Vec<u8> = Vec::new();
        match &proof_spec.context {
            Some(ctx) => crate::bytes_util::append_bytes(&mut tbytes, ctx),
            None => {},
        }
        let mut i: usize = 0;
        while i < n
            invariant
                i <= n,
                n == proof_spec.statements@.len(),
                proof_spec.spec_valid(),
            decreases n - i,
        {
            append_stmt(&mut tbytes, &proof_spec.statements[i], &proof_spec.setup_params);
            i += 1;
        }
        let mut i: usize = 0;
        while i < n
            invariant
                i <= n,
                n == proof_spec.statements@.len(),
                protos@.len() == n,
                forall|k: int|
                    0 <= k < n ==> proto_matches(
                        proof_spec.statements@[k],
                        proof_spec.setup_params@,
                        #[trigger] protos@[k],
                    ),
            decreases n - i,
        {
            match (&proof_spec.statements[i], &protos[i]) {
                (
                    Statement::PoKBBSPlusSignature { params, public_key, revealed },
                    ProtoState::Bbs { proto },
                ) => {
                    proto.challenge_contribution(revealed, public_key, params, &mut tbytes);
                },
                (_, ProtoState::Ped { bases, commitment, sc, .. }) => {
                    append_ped_contrib(&mut tbytes, bases, commitment, &sc.t);
                },
                _ => {},
            }
            i += 1;
        }
        match nonce {
            Some(nb) => crate::bytes_util::append_bytes(&mut tbytes, nb),
            None => {},
        }
        let challenge = fr_challenge(&tbytes);

        // Response phase.
        let mut subs: Vec<StatementProof> = Vec::new();
        let mut i: usize = 0;
        while i < n
            invariant
                i <= n,
                n == proof_spec.statements@.len(),
                protos@.len() == n,
                subs@.len() == i,
                forall|k: int|
                    0 <= k < n ==> proto_matches(
                        proof_spec.statements@[k],
                        proof_spec.setup_params@,
                        #[trigger] protos@[k],
                    ),
                forall|k: int|
                    0 <= k < i ==> sub_shape_ok(
                        proof_spec.statements@[k],
                        proof_spec.setup_params@,
                        #[trigger] subs@[k],
                    ),
            decreases n - i,
        {
            match &protos[i] {
                ProtoState::Bbs { proto } => {
                    subs.push(StatementProof::PoKBBSPlusSignature(proto.gen_proof(&challenge)));
                },
                ProtoState::Ped { sc, wits, .. } => {
                    let responses = sc.responses(wits, &challenge);
                    subs.push(StatementProof::PedersenCommitment { t: sc.t, responses });
                },
            }
            i += 1;
        }
        Ok(Proof(subs))
    }

    /// Verifies a composed proof: validates the specification, recomputes
    /// the shared challenge from the received sub-proofs, verifies each
    /// sub-proof, and checks that the responses inside every equality class
    /// agree.
    pub fn verify(&self, proof_spec: &ProofSpec, nonce: &Option<Vec<u8>>) -> (r: Result<
        (),
        BBSPlusError,
    >)
        ensures
            r is Ok <==> proof_spec.spec_valid() && subs_all_verify(
                *proof_spec,
                self.0@,
                spec_challenge(*proof_spec, self.0@, *nonce),
            ) && all_classes_agree(*proof_spec, self.0@),
            !proof_spec.spec_valid() ==> r == Err::<(), BBSPlusError>(
                BBSPlusError::ProofSpecInvalid,
            ),
            proof_spec.spec_valid() && !subs_all_verify(
                *proof_spec,
                self.0@,
                spec_challenge(*proof_spec, self.0@, *nonce),
            ) ==> r == Err::<(), BBSPlusError>(BBSPlusError::ProofVerificationFailed),
            proof_spec.spec_valid() && subs_all_verify(
                *proof_spec,
                self.0@,
                spec_challenge(*proof_spec, self.0@, *nonce),
            ) && !all_classes_agree(*proof_spec, self.0@) ==> r == Err::<(), BBSPlusError>(
                BBSPlusError::WitnessEqualityViolation,
            ),
    {
        match proof_spec.validate() {
            Ok(_) => {},
            Err(_) => {
                return Err(BBSPlusError::ProofSpecInvalid);
            },
        }
        let n = proof_spec.statements.len();
        if self.0.len() != n {
            return Err(BBSPlusError::ProofVerificationFailed);
        }

        // Rebuild the transcript and challenge.
        let mut tbytes: Vec<u8> = Vec::new();
        match &proof_spec.context {
            Some(ctx) => crate::bytes_util::append_bytes(&mut tbytes, ctx),
            None => {},
        }
        let ghost ctxpart = crate::transcript::opt_bytes(proof_spec.context);
        assert(tbytes@ == ctxpart);
        let mut i: usize = 0;
        while i < n
            invariant
                i <= n,
                n == proof_spec.statements@.len(),
                proof_spec.spec_valid(),
                tbytes@ == ctxpart + stmts_bytes_upto(
                    proof_spec.statements@,
                    proof_spec.setup_params@,
                    i as int,
                ),
            decreases n - i,
        {
            append_stmt(&mut tbytes, &proof_spec.statements[i], &proof_spec.setup_params);
            i += 1;
        }
        let ghost stmtpart = stmts_bytes_upto(
            proof_spec.statements@,
            proof_spec.setup_params@,
            n as int,
        );
        let mut i: usize = 0;
        while i < n
            invariant
                i <= n,
                n == proof_spec.statements@.len() == self.0@.len(),
                proof_spec.spec_valid(),
                tbytes@ == ctxpart + stmtpart + contribs_upto(
                    proof_spec.statements@,
                    proof_spec.setup_params@,
                    self.0@,
                    i as int,
                ),
            decreases n - i,
        {
            match (&proof_spec.statements[i], &self.0[i]) {
                (
                    Statement::PoKBBSPlusSignature { params, public_key, revealed },
                    StatementProof::PoKBBSPlusSignature(pf),
                ) => {
                    pf.challenge_contribution(revealed, public_key, params, &mut tbytes);
                },
                (stmt, StatementProof::PedersenCommitment { t, .. }) => {
                    match stmt {
                        Statement::PoKBBSPlusSignature { .. } => {
                            // A kind mismatch contributes nothing; the
                            // sub-proof check below rejects it.
                        },
                        _ => {
                            let bases = match resolve_bases(stmt, &proof_spec.setup_params) {
                                Some(b) => b,
                                None => {
                                    proof {
                                        assert(false);
                                    }
                                    return Err(BBSPlusError::ProofVerificationFailed);
                                },
                            };
                            let commitment = match stmt {
                                Statement::PedersenCommitment { commitment, .. } => *commitment,
                                Statement::PedersenCommitmentFromSetupParams {
                                    commitment,
                                    ..
                                } => *commitment,
                                Statement::PoKBBSPlusSignature { .. } => {
                                    proof {
                                        assert(false);
                                    }
                                    return Err(BBSPlusError::ProofVerificationFailed);
                                },
                            };
                            append_ped_contrib(&mut tbytes, &bases, &commitment, t);
                        },
                    }
                },
                _ => {
                    // A kind mismatch contributes nothing; the sub-proof
                    // check below rejects it.
                },
            }
            i += 1;
        }
        match nonce {
            Some(nb) => crate::bytes_util::append_bytes(&mut tbytes, nb),
            None => {},
        }
        proof {
            assert(tbytes@ =~= transcript_bytes(*proof_spec, self.0@, *nonce));
        }
        let challenge = fr_challenge(&tbytes);
        let ghost chal = spec_challenge(*proof_spec, self.0@, *nonce);
        assert(challenge@ == chal);

        // Verify each sub-proof.
        let mut i: usize = 0;
        while i < n
            invariant
                i <= n,
                n == proof_spec.statements@.len() == self.0@.len(),
                proof_spec.spec_valid(),
                challenge@ == chal,
                chal == spec_challenge(*proof_spec, self.0@, *nonce),
                forall|k: int|
                    0 <= k < i ==> sub_verifies(
                        proof_spec.statements@[k],
                        proof_spec.setup_params@,
                        #[trigger] self.0@[k],
                        chal,
                    ),
            decreases n - i,
        {
            match (&proof_spec.statements[i], &self.0[i]) {
                (
                    Statement::PoKBBSPlusSignature { params, public_key, revealed },
                    StatementProof::PoKBBSPlusSignature(pf),
                ) => {
                    match pf.verify(revealed, &challenge, public_key, params) {
                        Ok(_) => {},
                        Err(_) => {
                            proof {
                                assert(!sub_verifies(
                                    proof_spec.statements@[i as int],
                                    proof_spec.setup_params@,
                                    self.0@[i as int],
                                    chal,
                                ));
                            }
                            return Err(BBSPlusError::ProofVerificationFailed);
                        },
                    }
                },
                (stmt, StatementProof::PedersenCommitment { t, responses }) => {
                    match stmt {
                        Statement::PoKBBSPlusSignature { .. } => {
                            proof {
                                assert(!sub_verifies(
                                    proof_spec.statements@[i as int],
                                    proof_spec.setup_params@,
                                    self.0@[i as int],
                                    chal,
                                ));
                            }
                            return Err(BBSPlusError::ProofVerificationFailed);
                        },
                        _ => {
                            let bases = match resolve_bases(stmt, &proof_spec.setup_params) {
                                Some(b) => b,
                                None => {
                                    proof {
                                        assert(false);
                                    }
                                    return Err(BBSPlusError::ProofVerificationFailed);
                                },
                            };
                            if responses.len() != bases.len() {
                                proof {
                                    assert(!sub_verifies(
                                        proof_spec.statements@[i as int],
                                        proof_spec.setup_params@,
                                        self.0@[i as int],
                                        chal,
                                    ));
                                }
                                return Err(BBSPlusError::ProofVerificationFailed);
                            }
                            let commitment = match stmt {
                                Statement::PedersenCommitment { commitment, .. } => *commitment,
                                Statement::PedersenCommitmentFromSetupParams {
                                    commitment,
                                    ..
                                } => *commitment,
                                Statement::PoKBBSPlusSignature { .. } => {
                                    proof {
                                        assert(false);
                                    }
                                    return Err(BBSPlusError::ProofVerificationFailed);
                                },
                            };
                            if !schnorr_verify(&bases, &commitment, t, &challenge, responses) {
                                proof {
                                    assert(!sub_verifies(
                                        proof_spec.statements@[i as int],
                                        proof_spec.setup_params@,
                                        self.0@[i as int],
                                        chal,
                                    ));
                                }
                                return Err(BBSPlusError::ProofVerificationFailed);
                            }
                        },
                    }
                },
                _ => {
                    proof {
                        assert(!sub_verifies(
                            proof_spec.statements@[i as int],
                            proof_spec.setup_params@,
                            self.0@[i as int],
                            chal,
                        ));
                    }
                    return Err(BBSPlusError::ProofVerificationFailed);
                },
            }
            i += 1;
        }
        proof {
            assert(subs_all_verify(*proof_spec, self.0@, chal));
        }

        // Check witness equalities via the exposed responses.
        let nm = proof_spec.meta_statements.len();
        let mut c: usize = 0;
        while c < nm
            invariant
                c <= nm,
                nm == proof_spec.meta_statements@.len(),
                n == proof_spec.statements@.len() == self.0@.len(),
                proof_spec.spec_valid(),
                subs_all_verify(*proof_spec, self.0@, chal),
                chal == spec_challenge(*proof_spec, self.0@, *nonce),
                forall|k: int|
                    0 <= k < c ==> class_agrees(
                        proof_spec.statements@,
                        self.0@,
                        #[trigger] proof_spec.meta_statements@[k],
                    ),
            decreases nm - c,
        {
            match &proof_spec.meta_statements[c] {
                MetaStatement::WitnessEquality(e) => {
                    proof {
                        assert(crate::proof_spec::class_ok(
                            proof_spec.statements@,
                            proof_spec.setup_params@,
                            proof_spec.meta_statements@[c as int],
                        ));
                    }
                    let (i0, j0) = e.0[0];
                    proof {
                        assert(crate::proof_spec::slot_ok(
                            proof_spec.statements@,
                            proof_spec.setup_params@,
                            e.0@[0],
                        ));
                    }
                    let v0 = match resp_at(&proof_spec.statements[i0], &self.0[i0], j0) {
                        Some(s) => s,
                        None => {
                            proof {
                                lemma_no_first_resp_no_agreement(
                                    proof_spec.statements@,
                                    self.0@,
                                    proof_spec.meta_statements@[c as int],
                                );
                            }
                            return Err(BBSPlusError::WitnessEqualityViolation);
                        },
                    };
                    let nt = e.0.len();
                    let mut t: usize = 1;
                    while t < nt
                        invariant
                            1 <= t <= nt,
                            nt == e.0@.len(),
                            c < nm,
                            nm == proof_spec.meta_statements@.len(),
                            n == proof_spec.statements@.len() == self.0@.len(),
                            proof_spec.spec_valid(),
                            subs_all_verify(*proof_spec, self.0@, chal),
                            chal == spec_challenge(*proof_spec, self.0@, *nonce),
                            e.0@ == class_refs(proof_spec.meta_statements@[c as int]),
                            e.0@[0] == (i0, j0),
                            i0 < n,
                            resp_is1(
                                proof_spec.statements@[i0 as int],
                                self.0@[i0 as int],
                                j0,
                                v0@,
                            ),
                            forall|k: int|
                                1 <= k < t ==> {
                                    let rf = #[trigger] e.0@[k];
                                    rf.0 < n && resp_is1(
                                        proof_spec.statements@[rf.0 as int],
                                        self.0@[rf.0 as int],
                                        rf.1,
                                        v0@,
                                    )
                                },
                        decreases nt - t,
                    {
                        proof {
                            assert(crate::proof_spec::class_ok(
                                proof_spec.statements@,
                                proof_spec.setup_params@,
                                proof_spec.meta_statements@[c as int],
                            ));
                            assert(crate::proof_spec::slot_ok(
                                proof_spec.statements@,
                                proof_spec.setup_params@,
                                e.0@[t as int],
                            ));
                        }
                        let (i1, j1) = e.0[t];
                        match resp_at(&proof_spec.statements[i1], &self.0[i1], j1) {
                            Some(s) => {
                                if !(s == v0) {
                                    proof {
                                        lemma_mismatch_no_agreement(
                                            proof_spec.statements@,
                                            self.0@,
                                            proof_spec.meta_statements@[c as int],
                                            0,
                                            t as int,
                                            v0@,
                                            s@,
                                        );
                                    }
                                    return Err(BBSPlusError::WitnessEqualityViolation);
                                }
                            },
                            None => {
                                proof {
                                    let m = proof_spec.meta_statements@[c as int];
                                    assert forall|v: Seq<u8>|
                                        !class_agrees_with(
                                            proof_spec.statements@,
                                            self.0@,
                                            m,
                                            v,
                                        ) by {
                                        if class_agrees_with(
                                            proof_spec.statements@,
                                            self.0@,
                                            m,
                                            v,
                                        ) {
                                            assert(class_refs(m)[t as int] == (i1, j1));
                                            assert(resp_is1(
                                                proof_spec.statements@[i1 as int],
                                                self.0@[i1 as int],
                                                j1,
                                                v,
                                            ));
                                        }
                                    }
                                }
                                return Err(BBSPlusError::WitnessEqualityViolation);
                            },
                        }
                        t += 1;
                    }
                    proof {
                        let m = proof_spec.meta_statements@[c as int];
                        assert(class_agrees_with(proof_spec.statements@, self.0@, m, v0@));
                        assert(class_agrees(proof_spec.statements@, self.0@, m));
                    }
                },
            }
            c += 1;
        }
        Ok(())
    }
}

/// If the first referenced slot exposes no response, the class cannot
/// agree.
proof fn lemma_no_first_resp_no_agreement(
    stmts: Seq<Statement>,
    subs: Seq<StatementProof>,
    m: MetaStatement,
)
    requires
        class_refs(m).len() >= 1,
        class_refs(m)[0].0 < stmts.len(),
        class_refs(m)[0].0 < subs.len(),
        forall|v: Seq<u8>|
            !resp_is1(
                stmts[class_refs(m)[0].0 as int],
                subs[class_refs(m)[0].0 as int],
                class_refs(m)[0].1,
                v,
            ),
    ensures
        !class_agrees(stmts, subs, m),
{
    assert forall|v: Seq<u8>| !class_agrees_with(stmts, subs, m, v) by {
        if class_agrees_with(stmts, subs, m, v) {
            let rf = class_refs(m)[0];
            assert(resp_is1(stmts[rf.0 as int], subs[rf.0 as int], rf.1, v));
        }
    }
}

/// If two referenced slots expose different responses, the class cannot
/// agree.
proof fn lemma_mismatch_no_agreement(
    stmts: Seq<Statement>,
    subs: Seq<StatementProof>,
    m: MetaStatement,
    ta: int,
    tb: int,
    va: Seq<u8>,
    vb: Seq<u8>,
)
    requires
        0 <= ta < class_refs(m).len(),
        0 <= tb < class_refs(m).len(),
        class_refs(m)[ta].0 < stmts.len(),
        class_refs(m)[ta].0 < subs.len(),
        class_refs(m)[tb].0 < stmts.len(),
        class_refs(m)[tb].0 < subs.len(),
        resp_is1(stmts[class_refs(m)[ta].0 as int], subs[class_refs(m)[ta].0 as int], class_refs(m)[ta].1, va),
        resp_is1(stmts[class_refs(m)[tb].0 as int], subs[class_refs(m)[tb].0 as int], class_refs(m)[tb].1, vb),
        va != vb,
    ensures
        !class_agrees(stmts, subs, m),
{
    assert forall|v: Seq<u8>| !class_agrees_with(stmts, subs, m, v) by {
        if class_agrees_with(stmts, subs, m, v) {
            let rfa = class_refs(m)[ta];
            let rfb = class_refs(m)[tb];
            assert(resp_is1(stmts[rfa.0 as int], subs[rfa.0 as int], rfa.1, v));
            assert(resp_is1(stmts[rfb.0 as int], subs[rfb.0 as int], rfb.1, v));
            lemma_resp_unique(stmts[rfa.0 as int], subs[rfa.0 as int], rfa.1, va, v);
            lemma_resp_unique(stmts[rfb.0 as int], subs[rfb.0 as int], rfb.1, vb, v);
            assert(false);
        }
    }
}

/// The response a sub-proof exposes for witness slot `j`, if any.
fn resp_at(stmt: &Statement, sub: &StatementProof, j: usize) -> (r: Option<Scalar>)
    ensures
        r matches Some(s) ==> resp_is1(*stmt, *sub, j, s@),
        r is None ==> forall|v: Seq<u8>| !resp_is1(*stmt, *sub, j, v),
{
    match (stmt, sub) {
        (
            Statement::PoKBBSPlusSignature { params, revealed, .. },
            StatementProof::PoKBBSPlusSignature(pf),
        ) => {
            let nr = revealed.len();
            let mut rev_idx: Vec<usize> = Vec::new();
            let mut k: usize = 0;
            while k < nr
                invariant
                    k <= nr,
                    nr == revealed@.len(),
                    rev_idx@.len() == k,
                    forall|k2: int| 0 <= k2 < k ==> (#[trigger] rev_idx@[k2]) == revealed@[k2].0,
                decreases nr - k,
            {
                let (idx, _) = revealed[k];
                rev_idx.push(idx);
                k += 1;
            }
            proof {
                assert(rev_idx@ =~= revealed@.map_values(|p: (usize, Scalar)| p.0));
            }
            pf.get_resp_for_message(params.supported_message_count(), &rev_idx, j)
        },
        (Statement::PedersenCommitment { .. }, StatementProof::PedersenCommitment {
            responses,
            ..
        }) => {
            if j < responses.len() {
                Some(responses[j])
            } else {
                None
            }
        },
        (
            Statement::PedersenCommitmentFromSetupParams { .. },
            StatementProof::PedersenCommitment { responses, .. },
        ) => {
            if j < responses.len() {
                Some(responses[j])
            } else {
                None
            }
        },
        _ => None,
    }
}

} // verus!
