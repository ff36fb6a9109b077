//! The verifier: six checks on a proof. The structure check comes first and,
//! where it fails, ends the run.

use vstd::prelude::*;
use vstd::string::*;
use crate::constraints::{constraint_modulus, modulus_at, within_modulus};
use crate::crypto::{challenge_for, generate_challenge, is_digest, is_hex_digest};
use crate::text::{decimal_string, decimal_text, same_text};
use crate::types::{texts, Proof, ProofView, VerificationResult, VerificationResultView};

verus! {

/// Largest number of fold layers that the verifier accepts.
pub const MAX_FOLD_LAYERS: usize = 10;

/// The structure check, which comes first: no required field is empty.
pub open spec fn structure_ok(p: ProofView) -> bool {
    &&& p.version.len() > 0
    &&& p.computation.len() > 0
    &&& p.trace_commitment.len() > 0
    &&& p.constraint_evaluations.len() > 0
    &&& p.challenge.len() > 0
    &&& p.fri_layers.len() > 0
}

/// Second check: the commitment has the shape of a digest. Its form is all
/// that is looked at; no trace is at hand to hash again.
pub open spec fn commitment_ok(p: ProofView) -> bool {
    is_hex_digest(p.trace_commitment)
}

/// Third check: there are constraint values and each lies below the
/// modulus of the verifier's level.
pub open spec fn constraints_ok(p: ProofView, level: u32) -> bool {
    &&& p.constraint_evaluations.len() > 0
    &&& within_modulus(p.constraint_evaluations, level)
}

/// Fourth check: between one and `MAX_FOLD_LAYERS` layers, each with the
/// shape of a digest.
pub open spec fn layers_ok(p: ProofView) -> bool {
    &&& 1 <= p.fri_layers.len() <= MAX_FOLD_LAYERS
    &&& forall|i: int| 0 <= i < p.fri_layers.len() ==> is_hex_digest(#[trigger] p.fri_layers[i])
}

/// Fifth check: the challenge is the expected one.
pub open spec fn challenge_ok(p: ProofView, expected: Seq<char>) -> bool {
    p.challenge == expected
}

/// Sixth check: the proof's level reaches the verifier's.
pub open spec fn level_ok(p: ProofView, level: u32) -> bool {
    p.security_bits >= level
}

/// The entry of the sixth check where it passes.
pub open spec fn level_adequate_text(bits: u32) -> Seq<char> {
    "Security level adequate ("@ + decimal_text(bits as nat) + " bits)"@
}

/// The entry of the sixth check where it fails.
pub open spec fn level_insufficient_text(bits: u32) -> Seq<char> {
    "Insufficient security level ("@ + decimal_text(bits as nat) + " bits)"@
}

/// `text` alone where `cond` holds, nothing otherwise.
pub open spec fn entry_if(cond: bool, text: Seq<char>) -> Seq<Seq<char>> {
    if cond {
        seq![text]
    } else {
        Seq::<Seq<char>>::empty()
    }
}

/// The entries of the checks that pass on a proof whose structure is in
/// order, in the order of the checks.
pub open spec fn passed_checks(p: ProofView, level: u32, expected: Seq<char>) -> Seq<Seq<char>> {
    seq!["Proof structure is valid"@] + entry_if(commitment_ok(p), "Trace commitment verified"@)
        + entry_if(constraints_ok(p, level), "Constraint evaluations verified"@) + entry_if(
        layers_ok(p),
        "FRI proof layers verified"@,
    ) + entry_if(challenge_ok(p, expected), "Challenge generation verified"@) + entry_if(
        level_ok(p, level),
        level_adequate_text(p.security_bits),
    )
}

/// The entries of the checks that fail on a proof whose structure is in
/// order, in the order of the checks.
pub open spec fn failed_checks(p: ProofView, level: u32, expected: Seq<char>) -> Seq<Seq<char>> {
    entry_if(!commitment_ok(p), "Trace commitment verification failed"@) + entry_if(
        !constraints_ok(p, level),
        "Constraint evaluation verification failed"@,
    ) + entry_if(!layers_ok(p), "FRI proof layer verification failed"@) + entry_if(
        !challenge_ok(p, expected),
        "Challenge verification failed"@,
    ) + entry_if(!level_ok(p, level), level_insufficient_text(p.security_bits))
}

/// What verifying `p` at `level` yields when `expected` is the challenge
/// that the fifth check asks for.
pub open spec fn verdict_with(p: ProofView, level: u32, expected: Seq<char>)
    -> VerificationResultView {
    if !structure_ok(p) {
        VerificationResultView {
            valid: false,
            message: "Proof is INVALID"@,
            checks_passed: Seq::<Seq<char>>::empty(),
            checks_failed: seq!["Invalid proof structure"@],
        }
    } else {
        let failed = failed_checks(p, level, expected);
        VerificationResultView {
            valid: failed.len() == 0,
            message: if failed.len() == 0 {
                "Proof is VALID"@
            } else {
                "Proof is INVALID"@
            },
            checks_passed: passed_checks(p, level, expected),
            checks_failed: failed,
        }
    }
}

/// What verifying `p` at `level` yields: the fifth check asks for the
/// challenge that belongs to the proof's own commitment and level.
pub open spec fn verdict(p: ProofView, level: u32) -> VerificationResultView {
    verdict_with(p, level, challenge_for(p.trace_commitment, p.security_bits))
}

/// All six checks pass.
pub open spec fn all_checks_pass(p: ProofView, level: u32, expected: Seq<char>) -> bool {
    &&& structure_ok(p)
    &&& commitment_ok(p)
    &&& constraints_ok(p, level)
    &&& layers_ok(p)
    &&& challenge_ok(p, expected)
    &&& level_ok(p, level)
}

fn record(
    passed: &mut Vec<String>,
    failed: &mut Vec<String>,
    ok: bool,
    pass_text: &str,
    fail_text: &str,
)
    ensures
        texts(final(passed)@) == texts(old(passed)@) + entry_if(ok, pass_text@),
        texts(final(failed)@) == texts(old(failed)@) + entry_if(!ok, fail_text@),
{
    if ok {
        passed.push(String::from_str(pass_text));
        assert(texts(passed@) =~= texts(old(passed)@) + entry_if(ok, pass_text@));
        assert(texts(failed@) =~= texts(old(failed)@) + entry_if(!ok, fail_text@));
    } else {
        failed.push(String::from_str(fail_text));
        assert(texts(passed@) =~= texts(old(passed)@) + entry_if(ok, pass_text@));
        assert(texts(failed@) =~= texts(old(failed)@) + entry_if(!ok, fail_text@));
    }
}

fn bits_text(prefix: &str, bits: u32) -> (r: String)
    ensures
        r@ == prefix@ + decimal_text(bits as nat) + " bits)"@,
{
    let mut s = String::from_str(prefix);
    let digits = decimal_string(bits as u64);
    s.append(digits.as_str());
    s.append(" bits)");
    s
}

/// A verifier with a minimum acceptable security level.
pub struct STARKVerifier {
    security_level: u32,
}

impl STARKVerifier {
    /// The level that this verifier asks for, in bits.
    pub closed spec fn level(&self) -> u32 {
        self.security_level
    }

    /// A verifier that asks for at least `security_level` bits.
    pub fn new(security_level: u32) -> (r: Self)
        ensures
            r.level() == security_level,
    {
        STARKVerifier { security_level }
    }

    /// Runs the six checks on `proof`. Where the structure check fails the
    /// result holds that one failure and nothing else; otherwise each of the
    /// other five checks is recorded, passed or failed, in order.
    pub fn verify(&self, proof: &Proof) -> (r: VerificationResult)
        ensures
            r@ == verdict(proof@, self.level()),
    {
        let expected = generate_challenge(proof.trace_commitment.as_str(), proof.security_bits);
        self.verify_with_challenge(proof, expected.as_str())
    }

    /// Runs the six checks on `proof`, the fifth against `expected` as the
    /// challenge that the proof must carry.
    pub fn verify_with_challenge(&self, proof: &Proof, expected: &str) -> (r: VerificationResult)
        ensures
            r@ == verdict_with(proof@, self.level(), expected@),
    {
        let mut checks_passed: Vec<String> = Vec::new();
        let mut checks_failed: Vec<String> = Vec::new();
        assert(texts(checks_passed@) =~= Seq::<Seq<char>>::empty());
        assert(texts(checks_failed@) =~= Seq::<Seq<char>>::empty());

        if self.check_proof_structure(proof) {
            checks_passed.push(String::from_str("Proof structure is valid"));
            assert(texts(checks_passed@) =~= seq!["Proof structure is valid"@]);
        } else {
            checks_failed.push(String::from_str("Invalid proof structure"));
            assert(texts(checks_failed@) =~= seq!["Invalid proof structure"@]);
            return VerificationResult::invalid("Proof is INVALID", checks_failed);
        }

        let commitment_good = self.verify_trace_commitment(proof);
        record(
            &mut checks_passed,
            &mut checks_failed,
            commitment_good,
            "Trace commitment verified",
            "Trace commitment verification failed",
        );
        assert(texts(checks_failed@) =~= entry_if(
            !commitment_ok(proof@),
            "Trace commitment verification failed"@,
        ));

        let constraints_good = self.verify_constraints(proof);
        record(
            &mut checks_passed,
            &mut checks_failed,
            constraints_good,
            "Constraint evaluations verified",
            "Constraint evaluation verification failed",
        );

        let layers_good = self.verify_fri_layers(proof);
        record(
            &mut checks_passed,
            &mut checks_failed,
            layers_good,
            "FRI proof layers verified",
            "FRI proof layer verification failed",
        );

        let challenge_good = same_text(proof.challenge.as_str(), expected);
        record(
            &mut checks_passed,
            &mut checks_failed,
            challenge_good,
            "Challenge generation verified",
            "Challenge verification failed",
        );

        let adequate = bits_text("Security level adequate (", proof.security_bits);
        let insufficient = bits_text("Insufficient security level (", proof.security_bits);
        record(
            &mut checks_passed,
            &mut checks_failed,
            proof.security_bits >= self.security_level,
            adequate.as_str(),
            insufficient.as_str(),
        );

        if checks_failed.len() == 0 {
            assert(texts(checks_failed@) =~= Seq::<Seq<char>>::empty());
            VerificationResult::valid("Proof is VALID", checks_passed)
        } else {
            VerificationResult {
                valid: false,
                message: String::from_str("Proof is INVALID"),
                checks_passed,
                checks_failed,
            }
        }
    }

    /// The structure check.
    pub fn check_proof_structure(&self, proof: &Proof) -> (ok: bool)
        ensures
            ok == structure_ok(proof@),
    {
        !proof.version.as_str().is_empty() && !proof.computation.as_str().is_empty()
            && !proof.trace_commitment.as_str().is_empty() && proof.constraint_evaluations.len()
            != 0 && !proof.challenge.as_str().is_empty() && proof.fri_layers.len() != 0
    }

    /// The commitment-shape check.
    pub fn verify_trace_commitment(&self, proof: &Proof) -> (ok: bool)
        ensures
            ok == commitment_ok(proof@),
    {
        is_digest(proof.trace_commitment.as_str())
    }

    /// The constraint-range check, against this verifier's level.
    pub fn verify_constraints(&self, proof: &Proof) -> (ok: bool)
        ensures
            ok == constraints_ok(proof@, self.level()),
    {
        let n = proof.constraint_evaluations.len();
        if n == 0 {
            return false;
        }
        let max_val = modulus_at(self.security_level);
        let mut i: usize = 0;
        while i < n
            invariant
                0 <= i <= n,
                n == proof.constraint_evaluations@.len(),
                max_val as nat == constraint_modulus(self.level()),
                forall|j: int|
                    0 <= j < i ==> (#[trigger] proof.constraint_evaluations@[j] as nat)
                        < constraint_modulus(self.level()),
            decreases n - i,
        {
            if proof.constraint_evaluations[i] >= max_val {
                return false;
            }
            i = i + 1;
        }
        true
    }

    /// The fold-layer check.
    pub fn verify_fri_layers(&self, proof: &Proof) -> (ok: bool)
        ensures
            ok == layers_ok(proof@),
    {
        let n = proof.fri_layers.len();
        if n == 0 || n > MAX_FOLD_LAYERS {
            return false;
        }
        let mut i: usize = 0;
        while i < n
            invariant
                0 <= i <= n,
                n == proof.fri_layers@.len(),
                forall|j: int| 0 <= j < i ==> is_hex_digest(#[trigger] proof@.fri_layers[j]),
            decreases n - i,
        {
            if !is_digest(proof.fri_layers[i].as_str()) {
                assert(!is_hex_digest(proof@.fri_layers[i as int]));
                return false;
            }
            i = i + 1;
        }
        true
    }

    /// The challenge check: the one check that ties commitment, declared
    /// level and challenge together.
    pub fn verify_challenge_consistency(&self, proof: &Proof) -> (ok: bool)
        ensures
            ok == challenge_ok(proof@, challenge_for(proof@.trace_commitment, proof@.security_bits)),
    {
        crate::crypto::verify_challenge(
            proof.trace_commitment.as_str(),
            proof.security_bits,
            proof.challenge.as_str(),
        )
    }
}

} // verus!
