//! Statements, meta-statements and witnesses of the composition layer: what
//! is to be proved (Pedersen commitment openings, BBS+ signature
//! possession), which witness slots are asserted equal across statements,
//! and the prover's secret payloads.

use vstd::prelude::*;

use crate::g1::G1El;
use crate::keys::PublicKeyG2;
use crate::params::SignatureParamsG1;
use crate::scalar::Scalar;
use crate::sig::SignatureG1;

verus! {

/// A shared setup entry that statements may reference by index instead of
/// inlining.
#[derive(Clone, Debug)]
pub enum SetupParams {
    /// A commitment key: the bases of a Pedersen commitment.
    PedersenCommitmentKey(Vec<G1El>),
}

/// One sub-proof to be composed.
#[derive(Clone, Debug)]
pub enum Statement {
    /// Knowledge of the opening of `commitment` under the inline `bases`.
    PedersenCommitment { bases: Vec<G1El>, commitment: G1El },
    /// Knowledge of the opening of `commitment` under the commitment key at
    /// index `key_ref` of the shared setup parameters.
    PedersenCommitmentFromSetupParams { key_ref: usize, commitment: G1El },
    /// Knowledge of a BBS+ signature under `params` and `public_key`, with
    /// the `revealed` messages disclosed in the clear.
    PoKBBSPlusSignature {
        params: SignatureParamsG1,
        public_key: PublicKeyG2,
        revealed: Vec<(usize, Scalar)>,
    },
}

/// A reference to one witness slot: `(statement index, witness index)`.
pub type WitnessRef = (usize, usize);

/// The assertion that all referenced witness slots carry the same scalar.
#[derive(Clone, Debug)]
pub struct EqualWitnesses(pub Vec<WitnessRef>);

/// A meta-statement relates witnesses of several statements.
#[derive(Clone, Debug)]
pub enum MetaStatement {
    WitnessEquality(EqualWitnesses),
}

/// The prover's secret payload for one statement.
#[derive(Clone, Debug)]
pub enum Witness {
    /// The opening scalars of a Pedersen commitment.
    PedersenCommitment(Vec<Scalar>),
    /// A BBS+ signature and the signed messages not disclosed by the
    /// statement, each with its index.
    PoKBBSPlusSignature { signature: SignatureG1, unrevealed_messages: Vec<(usize, Scalar)> },
}

/// Whether a disclosed-message list carries index `j`.
pub open spec fn spec_revealed_contains(revealed: Seq<(usize, Scalar)>, j: usize) -> bool {
    exists|k: int| 0 <= k < revealed.len() && (#[trigger] revealed[k]).0 == j
}

/// Scans a disclosed-message list for index `j`.
pub fn revealed_contains(revealed: &Vec<(usize, Scalar)>, j: usize) -> (r: bool)
    ensures
        r == spec_revealed_contains(revealed@, j),
{
    let n = revealed.len();
    let mut i: usize = 0;
    while i < n
        invariant
            i <= n,
            n == revealed@.len(),
            forall|k: int| 0 <= k < i ==> (#[trigger] revealed@[k]).0 != j,
        decreases n - i,
    {
        let (idx, _) = revealed[i];
        if idx == j {
            return true;
        }
        i += 1;
    }
    false
}

/// Looks up the value stored for index `j` in an indexed scalar list,
/// returning the first match.
pub fn lookup_indexed(list: &Vec<(usize, Scalar)>, j: usize) -> (r: Option<Scalar>)
    ensures
        r is Some <==> spec_revealed_contains(list@, j),
        r matches Some(v) ==> exists|k: int|
            0 <= k < list@.len() && (#[trigger] list@[k]).0 == j && v@ == list@[k].1@,
{
    let n = list.len();
    let mut i: usize = 0;
    while i < n
        invariant
            i <= n,
            n == list@.len(),
            forall|k: int| 0 <= k < i ==> (#[trigger] list@[k]).0 != j,
        decreases n - i,
    {
        let (idx, v) = list[i];
        if idx == j {
            return Some(v);
        }
        i += 1;
    }
    None
}

/// The Pedersen bases a statement uses, inline or resolved through the
/// setup parameters; empty for other statement kinds.
pub open spec fn base_els(stmt: Statement, setup: Seq<SetupParams>) -> Seq<G1El> {
    match stmt {
        Statement::PedersenCommitment { bases, .. } => bases@,
        Statement::PedersenCommitmentFromSetupParams { key_ref, .. } => {
            if key_ref < setup.len() {
                match setup[key_ref as int] {
                    SetupParams::PedersenCommitmentKey(b) => b@,
                }
            } else {
                Seq::empty()
            }
        },
        Statement::PoKBBSPlusSignature { .. } => Seq::empty(),
    }
}

/// Copies a vector of points.
pub fn clone_g1s(v: &Vec<G1El>) -> (r: Vec<G1El>)
    ensures
        r@ == v@,
{
    let n = v.len();
    let mut out: Vec<G1El> = Vec::new();
    let mut i: usize = 0;
    while i < n
        invariant
            i <= n,
            n == v@.len(),
            out@ == v@.take(i as int),
        decreases n - i,
    {
        out.push(v[i]);
        i += 1;
    }
    assert(v@.take(n as int) =~= v@);
    out
}

/// Resolves the Pedersen bases a statement uses, inline or from the setup
/// parameters.
pub fn resolve_bases(stmt: &Statement, setup: &Vec<SetupParams>) -> (r: Option<Vec<G1El>>)
    ensures
        r matches Some(b) ==> b@ == base_els(*stmt, setup@),
        r is Some <==> match *stmt {
            Statement::PedersenCommitment { .. } => true,
            Statement::PedersenCommitmentFromSetupParams { key_ref, .. } => key_ref < setup@.len(),
            Statement::PoKBBSPlusSignature { .. } => false,
        },
{
    match stmt {
        Statement::PedersenCommitment { bases, .. } => Some(clone_g1s(bases)),
        Statement::PedersenCommitmentFromSetupParams { key_ref, .. } => {
            if *key_ref < setup.len() {
                match &setup[*key_ref] {
                    SetupParams::PedersenCommitmentKey(b) => Some(clone_g1s(b)),
                }
            } else {
                None
            }
        },
        Statement::PoKBBSPlusSignature { .. } => None,
    }
}

} // verus!
