//! The Fiat-Shamir transcript of a composed proof: the optional context,
//! the serialized public part of every statement, every sub-protocol's
//! commitment contribution, and the caller's nonce, in that order.

use vstd::prelude::*;

use crate::g1::{g1_append, G1El};
use crate::g2::g2_append;
use crate::pok_sig::{append_params as spk_append_params, append_revealed, h_bytes, params_bytes,
    revealed_bytes, spk_contrib, PoKOfSignatureG1Proof};
use crate::proof_spec::{stmt_ok, ProofSpec};
use crate::scalar::Scalar;
use crate::statements::{base_els, SetupParams, Statement};

verus! {

/// The bytes an optional byte string contributes.
pub open spec fn opt_bytes(o: Option<Vec<u8>>) -> Seq<u8> {
    match o {
        Some(v) => v@,
        None => Seq::empty(),
    }
}

/// The serialized public part of one statement: a kind tag, then its
/// resolved bases and commitment, or its parameters, public key and
/// disclosed pairs.
pub open spec fn stmt_bytes(stmt: Statement, setup: Seq<SetupParams>) -> Seq<u8> {
    match stmt {
        Statement::PedersenCommitment { commitment, .. } => seq![0u8] + h_bytes(
            base_els(stmt, setup),
        ) + commitment@,
        Statement::PedersenCommitmentFromSetupParams { commitment, .. } => seq![0u8] + h_bytes(
            base_els(stmt, setup),
        ) + commitment@,
        Statement::PoKBBSPlusSignature { params, public_key, revealed } => seq![1u8]
            + params_bytes(params) + public_key.0@ + revealed_bytes(revealed@),
    }
}

/// The serialized statements up to index `n`.
pub open spec fn stmts_bytes_upto(stmts: Seq<Statement>, setup: Seq<SetupParams>, n: int) -> Seq<
    u8,
>
    decreases n,
{
    if n <= 0 {
        Seq::empty()
    } else {
        stmts_bytes_upto(stmts, setup, n - 1) + stmt_bytes(stmts[n - 1], setup)
    }
}

/// Appends a tag, bases and commitment to `out`.
fn append_ped_stmt(out: &mut Vec<u8>, bases: &Vec<G1El>, commitment: &G1El)
    ensures
        final(out)@ == old(out)@ + seq![0u8] + h_bytes(bases@) + commitment@,
{
    out.push(0u8);
    let n = bases.len();
    let mut i: usize = 0;
    while i < n
        invariant
            i <= n,
            n == bases@.len(),
            out@ == old(out)@ + seq![0u8] + h_bytes(bases@.take(i as int)),
        decreases n - i,
    {
        g1_append(out, &bases[i]);
        proof {
            assert(bases@.take(i + 1).drop_last() =~= bases@.take(i as int));
            assert(bases@.take(i + 1).last() == bases@[i as int]);
        }
        i += 1;
    }
    assert(bases@.take(n as int) =~= bases@);
    g1_append(out, commitment);
}

/// Appends one statement's serialized public part to `out`.
pub fn append_stmt(out: &mut Vec<u8>, stmt: &Statement, setup: &Vec<SetupParams>)
    requires
        stmt_ok(*stmt, setup@),
    ensures
        final(out)@ == old(out)@ + stmt_bytes(*stmt, setup@),
{
    match stmt {
        Statement::PoKBBSPlusSignature { params, public_key, revealed } => {
            out.push(1u8);
            spk_append_params(out, params);
            g2_append(out, &public_key.0);
            append_revealed(out, revealed);
            assert(out@ =~= old(out)@ + stmt_bytes(*stmt, setup@));
        },
        Statement::PedersenCommitment { bases, commitment } => {
            append_ped_stmt(out, bases, commitment);
            assert(out@ =~= old(out)@ + stmt_bytes(*stmt, setup@));
        },
        Statement::PedersenCommitmentFromSetupParams { key_ref, commitment } => {
            match &setup[*key_ref] {
                SetupParams::PedersenCommitmentKey(b) => {
                    append_ped_stmt(out, b, commitment);
                },
            }
            assert(out@ =~= old(out)@ + stmt_bytes(*stmt, setup@));
        },
    }
}

/// One finished sub-proof, matching its statement's kind.
#[derive(Clone, Debug)]
pub enum StatementProof {
    PedersenCommitment { t: G1El, responses: Vec<Scalar> },
    PoKBBSPlusSignature(PoKOfSignatureG1Proof),
}

/// The commitment contribution of one sub-proof: for a Pedersen statement
/// its bases, commitment and `T`; for a BBS+ statement the signature
/// protocol's full contribution.
pub open spec fn sub_contrib(stmt: Statement, setup: Seq<SetupParams>, sub: StatementProof) -> Seq<
    u8,
> {
    match stmt {
        Statement::PoKBBSPlusSignature { params, public_key, revealed } => match sub {
            StatementProof::PoKBBSPlusSignature(pf) => spk_contrib(
                pf.a_prime@,
                pf.a_bar@,
                pf.d@,
                pf.t1@,
                pf.t2@,
                revealed@,
                public_key,
                params,
            ),
            _ => Seq::empty(),
        },
        _ => match sub {
            StatementProof::PedersenCommitment { t, .. } => h_bytes(base_els(stmt, setup))
                + stmt_commitment_repr(stmt) + t@,
            _ => Seq::empty(),
        },
    }
}

/// The commitment a Pedersen statement claims an opening of.
pub open spec fn stmt_commitment_repr(stmt: Statement) -> Seq<u8> {
    match stmt {
        Statement::PedersenCommitment { commitment, .. } => commitment@,
        Statement::PedersenCommitmentFromSetupParams { commitment, .. } => commitment@,
        Statement::PoKBBSPlusSignature { .. } => Seq::empty(),
    }
}

/// The sub-proof contributions up to index `n`.
pub open spec fn contribs_upto(
    stmts: Seq<Statement>,
    setup: Seq<SetupParams>,
    subs: Seq<StatementProof>,
    n: int,
) -> Seq<u8>
    decreases n,
{
    if n <= 0 {
        Seq::empty()
    } else {
        contribs_upto(stmts, setup, subs, n - 1) + sub_contrib(stmts[n - 1], setup, subs[n - 1])
    }
}

/// Appends a Pedersen sub-proof's contribution (bases, commitment, `T`) to
/// `out`.
pub fn append_ped_contrib(out: &mut Vec<u8>, bases: &Vec<G1El>, commitment: &G1El, t: &G1El)
    ensures
        final(out)@ == old(out)@ + h_bytes(bases@) + commitment@ + t@,
{
    let n = bases.len();
    let mut i: usize = 0;
    while i < n
        invariant
            i <= n,
            n == bases@.len(),
            out@ == old(out)@ + h_bytes(bases@.take(i as int)),
        decreases n - i,
    {
        g1_append(out, &bases[i]);
        proof {
            assert(bases@.take(i + 1).drop_last() =~= bases@.take(i as int));
            assert(bases@.take(i + 1).last() == bases@[i as int]);
        }
        i += 1;
    }
    assert(bases@.take(n as int) =~= bases@);
    g1_append(out, commitment);
    g1_append(out, t);
}

/// The whole transcript of a composed proof.
pub open spec fn transcript_bytes(
    ps: ProofSpec,
    subs: Seq<StatementProof>,
    nonce: Option<Vec<u8>>,
) -> Seq<u8> {
    opt_bytes(ps.context) + stmts_bytes_upto(ps.statements@, ps.setup_params@, ps.statements@.len() as int)
        + contribs_upto(ps.statements@, ps.setup_params@, subs, subs.len() as int) + opt_bytes(
        nonce,
    )
}

} // verus!
