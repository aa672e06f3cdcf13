//! The proof specification: the statements to prove, the witness-equality
//! meta-statements, shared setup parameters and an optional context.
//! `validate` checks that every setup reference resolves, every equality
//! class has at least two members, every referenced slot exists and is not a
//! disclosed message, and no slot is claimed by two classes.

use vstd::prelude::*;

use crate::errors::BBSPlusError;
use crate::statements::{spec_revealed_contains, revealed_contains, MetaStatement, SetupParams,
    Statement, Witness, WitnessRef};

verus! {

/// Whether a statement's own references resolve: setup indices in range and
/// disclosed-message indices below the message count.
pub open spec fn stmt_ok(stmt: Statement, setup: Seq<SetupParams>) -> bool {
    match stmt {
        Statement::PedersenCommitment { .. } => true,
        Statement::PedersenCommitmentFromSetupParams { key_ref, .. } => key_ref < setup.len(),
        Statement::PoKBBSPlusSignature { params, revealed, .. } => forall|k: int|
            0 <= k < revealed@.len() ==> (#[trigger] revealed@[k]).0 < params.h@.len(),
    }
}

/// Whether a witness reference names an existing slot of the right kind: for
/// a Pedersen statement an opening-scalar position, for a BBS+ statement an
/// undisclosed message index.
pub open spec fn slot_ok(stmts: Seq<Statement>, setup: Seq<SetupParams>, rf: WitnessRef) -> bool {
    &&& rf.0 < stmts.len()
    &&& match stmts[rf.0 as int] {
        Statement::PedersenCommitment { bases, .. } => rf.1 < bases@.len(),
        Statement::PedersenCommitmentFromSetupParams { key_ref, .. } => key_ref < setup.len()
            && match setup[key_ref as int] {
            SetupParams::PedersenCommitmentKey(b) => rf.1 < b@.len(),
        },
        Statement::PoKBBSPlusSignature { params, revealed, .. } => rf.1 < params.h@.len()
            && !spec_revealed_contains(revealed@, rf.1),
    }
}

/// The witness references of one meta-statement.
pub open spec fn class_refs(m: MetaStatement) -> Seq<WitnessRef> {
    match m {
        MetaStatement::WitnessEquality(e) => e.0@,
    }
}

/// Whether an equality class is well-formed: at least two members, each a
/// valid slot.
pub open spec fn class_ok(stmts: Seq<Statement>, setup: Seq<SetupParams>, m: MetaStatement) -> bool {
    &&& class_refs(m).len() >= 2
    &&& forall|t: int|
        0 <= t < class_refs(m).len() ==> slot_ok(stmts, setup, #[trigger] class_refs(m)[t])
}

/// All witness references of all meta-statements, in order.
pub open spec fn flat_refs(metas: Seq<MetaStatement>) -> Seq<WitnessRef>
    decreases metas.len(),
{
    if metas.len() == 0 {
        Seq::empty()
    } else {
        flat_refs(metas.drop_last()) + class_refs(metas.last())
    }
}

/// Whether no witness reference is claimed twice, within or across classes.
pub open spec fn refs_distinct(metas: Seq<MetaStatement>) -> bool {
    forall|p: int, q: int|
        0 <= p < q < flat_refs(metas).len() ==> flat_refs(metas)[p] != flat_refs(metas)[q]
}

/// The proof specification shared by prover and verifier.
#[derive(Clone, Debug)]
pub struct ProofSpec {
    pub statements: Vec<Statement>,
    pub meta_statements: Vec<MetaStatement>,
    pub setup_params: Vec<SetupParams>,
    pub context: Option<Vec<u8>>,
}

impl ProofSpec {
    /// Bundles the parts of a specification; `validate` checks them.
    pub fn new(
        statements: Vec<Statement>,
        meta_statements: Vec<MetaStatement>,
        setup_params: Vec<SetupParams>,
        context: Option<Vec<u8>>,
    ) -> (r: Self)
        ensures
            r.statements == statements,
            r.meta_statements == meta_statements,
            r.setup_params == setup_params,
            r.context == context,
    {
        ProofSpec { statements, meta_statements, setup_params, context }
    }

    /// Whether the specification is well-formed.
    pub open spec fn spec_valid(self) -> bool {
        &&& forall|i: int|
            0 <= i < self.statements@.len() ==> stmt_ok(
                #[trigger] self.statements@[i],
                self.setup_params@,
            )
        &&& forall|c: int|
            0 <= c < self.meta_statements@.len() ==> class_ok(
                self.statements@,
                self.setup_params@,
                #[trigger] self.meta_statements@[c],
            )
        &&& refs_distinct(self.meta_statements@)
    }

    /// Validates the specification; `Ok` exactly on well-formed ones.
    pub fn validate(&self) -> (r: Result<(), BBSPlusError>)
        ensures
            r is Ok <==> self.spec_valid(),
            r matches Err(e) ==> e == BBSPlusError::ProofSpecInvalid,
    {
        let ns = self.statements.len();
        let mut i: usize = 0;
        while i < ns
            invariant
                i <= ns,
                ns == self.statements@.len(),
                forall|k: int|
                    0 <= k < i ==> stmt_ok(#[trigger] self.statements@[k], self.setup_params@),
            decreases ns - i,
        {
            if !self.check_stmt(i) {
                return Err(BBSPlusError::ProofSpecInvalid);
            }
            i += 1;
        }

        let nm = self.meta_statements.len();
        let mut c: usize = 0;
        while c < nm
            invariant
                c <= nm,
                nm == self.meta_statements@.len(),
                forall|k: int|
                    0 <= k < c ==> class_ok(
                        self.statements@,
                        self.setup_params@,
                        #[trigger] self.meta_statements@[k],
                    ),
            decreases nm - c,
        {
            if !self.check_class(c) {
                return Err(BBSPlusError::ProofSpecInvalid);
            }
            c += 1;
        }

        let flat = self.build_flat_refs();
        let m = flat.len();
        let mut p: usize = 0;
        while p < m
            invariant
                p <= m,
                m == flat@.len(),
                flat@ == flat_refs(self.meta_statements@),
                forall|x: int, y: int| 0 <= x < y < m && x < p ==> flat@[x] != flat@[y],
            decreases m - p,
        {
            let (a0, a1) = flat[p];
            let mut q: usize = p + 1;
            while q < m
                invariant
                    p < q <= m,
                    m == flat@.len(),
                    flat@ == flat_refs(self.meta_statements@),
                    (a0, a1) == flat@[p as int],
                    forall|y: int| p < y < q ==> flat@[p as int] != flat@[y],
                decreases m - q,
            {
                let (b0, b1) = flat[q];
                if a0 == b0 && a1 == b1 {
                    proof {
                        assert(flat_refs(self.meta_statements@)[p as int] == flat_refs(
                            self.meta_statements@,
                        )[q as int]);
                        assert(!refs_distinct(self.meta_statements@));
                    }
                    return Err(BBSPlusError::ProofSpecInvalid);
                }
                q += 1;
            }
            p += 1;
        }
        Ok(())
    }

    /// Checks one statement's own references.
    fn check_stmt(&self, i: usize) -> (r: bool)
        requires
            i < self.statements@.len(),
        ensures
            r == stmt_ok(self.statements@[i as int], self.setup_params@),
    {
        match &self.statements[i] {
            Statement::PedersenCommitment { .. } => true,
            Statement::PedersenCommitmentFromSetupParams { key_ref, .. } => {
                *key_ref < self.setup_params.len()
            },
            Statement::PoKBBSPlusSignature { params, revealed, .. } => {
                let nr = revealed.len();
                let l = params.supported_message_count();
                let mut k: usize = 0;
                while k < nr
                    invariant
                        k <= nr,
                        nr == revealed@.len(),
                        l == params.h@.len(),
                        i < self.statements@.len(),
                        (self.statements@[i as int] matches Statement::PoKBBSPlusSignature {
                            params: pp,
                            revealed: rr,
                            ..
                        } && rr@ == revealed@ && pp.h@.len() == l),
                        forall|t: int| 0 <= t < k ==> (#[trigger] revealed@[t]).0 < l,
                    decreases nr - k,
                {
                    let (idx, _) = revealed[k];
                    if idx >= l {
                        return false;
                    }
                    k += 1;
                }
                true
            },
        }
    }

    /// Checks one witness reference.
    fn check_slot(&self, rf: (usize, usize)) -> (r: bool)
        ensures
            r == slot_ok(self.statements@, self.setup_params@, rf),
    {
        let (i, j) = rf;
        if i >= self.statements.len() {
            return false;
        }
        match &self.statements[i] {
            Statement::PedersenCommitment { bases, .. } => j < bases.len(),
            Statement::PedersenCommitmentFromSetupParams { key_ref, .. } => {
                if *key_ref < self.setup_params.len() {
                    match &self.setup_params[*key_ref] {
                        SetupParams::PedersenCommitmentKey(b) => j < b.len(),
                    }
                } else {
                    false
                }
            },
            Statement::PoKBBSPlusSignature { params, revealed, .. } => {
                j < params.supported_message_count() && !revealed_contains(revealed, j)
            },
        }
    }

    /// Checks one equality class.
    fn check_class(&self, c: usize) -> (r: bool)
        requires
            c < self.meta_statements@.len(),
        ensures
            r == class_ok(self.statements@, self.setup_params@, self.meta_statements@[c as int]),
    {
        match &self.meta_statements[c] {
            MetaStatement::WitnessEquality(e) => {
                if e.0.len() < 2 {
                    return false;
                }
                let nt = e.0.len();
                let mut t: usize = 0;
                while t < nt
                    invariant
                        t <= nt,
                        nt == e.0@.len(),
                        e.0@ == class_refs(self.meta_statements@[c as int]),
                        forall|k: int|
                            0 <= k < t ==> slot_ok(
                                self.statements@,
                                self.setup_params@,
                                #[trigger] e.0@[k],
                            ),
                    decreases nt - t,
                {
                    let (i, j) = e.0[t];
                    if !self.check_slot((i, j)) {
                        return false;
                    }
                    t += 1;
                }
                true
            },
        }
    }

    /// Builds the flat list of all witness references of all classes.
    pub fn build_flat_refs(&self) -> (r: Vec<(usize, usize)>)
        ensures
            r@ == flat_refs(self.meta_statements@),
    {
        let nm = self.meta_statements.len();
        let mut out: Vec<(usize, usize)> = Vec::new();
        let mut c: usize = 0;
        while c < nm
            invariant
                c <= nm,
                nm == self.meta_statements@.len(),
                out@ == flat_refs(self.meta_statements@.take(c as int)),
            decreases nm - c,
        {
            match &self.meta_statements[c] {
                MetaStatement::WitnessEquality(e) => {
                    let nt = e.0.len();
                    let mut t: usize = 0;
                    while t < nt
                        invariant
                            t <= nt,
                            nt == e.0@.len(),
                            c < nm,
                            nm == self.meta_statements@.len(),
                            e.0@ == class_refs(self.meta_statements@[c as int]),
                            out@ == flat_refs(self.meta_statements@.take(c as int)) + e.0@.take(
                                t as int,
                            ),
                        decreases nt - t,
                    {
                        let (i, j) = e.0[t];
                        out.push((i, j));
                        t += 1;
                        assert(e.0@.take(t as int) =~= e.0@.take(t - 1).push(e.0@[t - 1]));
                        assert(out@ =~= flat_refs(self.meta_statements@.take(c as int))
                            + e.0@.take(t as int));
                    }
                },
            }
            c += 1;
            proof {
                let mc = self.meta_statements@.take(c as int);
                assert(mc.drop_last() =~= self.meta_statements@.take(c - 1));
                assert(mc.last() == self.meta_statements@[c - 1]);
                assert(class_refs(self.meta_statements@[c - 1]) == flat_refs(mc).subrange(
                    flat_refs(mc.drop_last()).len() as int,
                    flat_refs(mc).len() as int,
                ));
                assert(out@ =~= flat_refs(mc));
            }
        }
        assert(self.meta_statements@.take(nm as int) =~= self.meta_statements@);
        out
    }
}

} // verus!
