//! What holds of the prover and the verifier together.

use vstd::prelude::*;
use vstd::string::*;
use crate::constraints::{constraint_modulus, within_modulus, MAX_MODULUS_BITS};
use crate::crypto::challenge_for;
use crate::prover::{
    constraint_values,
    digests_shaped,
    lemma_constraint_values_in_range,
    lemma_fold_layer_bound,
    proof_of,
    trace_commitment,
};
use crate::encoding::trace_text;
use crate::types::{
    lemma_sorted_entries_unique,
    same_content,
    ProofTraceView,
    ProofView,
    TraceStepView,
};
use crate::verification::{
    all_checks_pass,
    challenge_ok,
    commitment_ok,
    constraints_ok,
    entry_if,
    failed_checks,
    layers_ok,
    level_insufficient_text,
    structure_ok,
    verdict,
};

verus! {

/// Determinism: two proofs for the same trace at the same level agree on
/// the commitment, the constraint values, the challenge and the fold
/// layers, whatever their names, results and timestamps.
pub proof fn lemma_prove_deterministic(
    t: ProofTraceView,
    level: u32,
    name_a: Seq<char>,
    result_a: u64,
    time_a: u64,
    name_b: Seq<char>,
    result_b: u64,
    time_b: u64,
)
    ensures
        ({
            let a = proof_of(name_a, result_a, t, level, time_a);
            let b = proof_of(name_b, result_b, t, level, time_b);
            &&& a.trace_commitment == b.trace_commitment
            &&& a.constraint_evaluations == b.constraint_evaluations
            &&& a.challenge == b.challenge
            &&& a.fri_layers == b.fri_layers
        }),
{
}

/// One commitment for one content: two traces with the same steps and, as
/// mappings, the same inputs and outputs have the same canonical text and
/// the same commitment, given that each keeps its names in order, as every
/// trace built through `ProofTrace` does.
pub proof fn lemma_commitment_of_equal_content(a: ProofTraceView, b: ProofTraceView)
    requires
        a.names_in_order(),
        b.names_in_order(),
        same_content(a, b),
    ensures
        a == b,
        trace_text(a) == trace_text(b),
        trace_commitment(a) == trace_commitment(b),
{
    lemma_sorted_entries_unique(a.inputs, b.inputs);
    lemma_sorted_entries_unique(a.outputs, b.outputs);
}

/// Constraint values made at one level pass the range check at another
/// level that is no higher, where the two levels are equal or the lower one
/// reaches the cap of the modulus.
pub proof fn lemma_values_fit_lower_level(steps: Seq<TraceStepView>, issued: u32, asked: u32)
    requires
        asked <= issued,
        asked == issued || asked >= MAX_MODULUS_BITS,
    ensures
        within_modulus(constraint_values(steps, issued), asked),
{
    lemma_constraint_values_in_range(steps, issued);
    assert(constraint_modulus(asked) == constraint_modulus(issued));
    assert forall|i: int| 0 <= i < constraint_values(steps, issued).len() implies (
    #[trigger] constraint_values(steps, issued)[i] as nat) < constraint_modulus(asked) by {}
}

/// Round trip: the proof for a named computation with at least one step,
/// issued at a level that reaches the verifier's, passes all six checks,
/// given that its digests have the shape that the hash primitive gives
/// them and that its constraint values lie below the verifier's modulus.
pub proof fn lemma_round_trip(
    computation: Seq<char>,
    result: u64,
    t: ProofTraceView,
    issued: u32,
    asked: u32,
    timestamp: u64,
)
    requires
        asked <= issued,
        computation.len() > 0,
        t.steps.len() > 0,
        digests_shaped(proof_of(computation, result, t, issued, timestamp)),
        within_modulus(constraint_values(t.steps, issued), asked),
    ensures
        ({
            let p = proof_of(computation, result, t, issued, timestamp);
            let expected = challenge_for(p.trace_commitment, p.security_bits);
            &&& all_checks_pass(p, asked, expected)
            &&& verdict(p, asked).valid
            &&& verdict(p, asked).message == "Proof is VALID"@
            &&& verdict(p, asked).checks_failed.len() == 0
            &&& verdict(p, asked).checks_passed.len() == 6
        }),
{
    let p = proof_of(computation, result, t, issued, timestamp);
    let expected = challenge_for(p.trace_commitment, p.security_bits);
    reveal_strlit("1.0");
    lemma_fold_layer_bound(p.constraint_evaluations, p.challenge);
    lemma_all_pass_is_valid(p, asked);
}

/// A proof on which all six checks pass is valid, with six entries passed
/// and none failed; a proof that is valid passes all six.
pub proof fn lemma_all_pass_is_valid(p: ProofView, asked: u32)
    ensures
        all_checks_pass(p, asked, challenge_for(p.trace_commitment, p.security_bits)) <==> verdict(
            p,
            asked,
        ).valid,
        verdict(p, asked).valid ==> verdict(p, asked).checks_passed.len() == 6 && verdict(
            p,
            asked,
        ).checks_failed.len() == 0,
        verdict(p, asked).valid == (verdict(p, asked).checks_failed.len() == 0),
{
}

/// The message is one of two fixed texts, and validity alone says which.
pub proof fn lemma_message_by_validity(p: ProofView, asked: u32)
    ensures
        verdict(p, asked).message == if verdict(p, asked).valid {
            "Proof is VALID"@
        } else {
            "Proof is INVALID"@
        },
{
}

/// Short circuit: on a proof with a required field empty the result holds
/// the one structure failure, and no check is recorded as passed.
pub proof fn lemma_structure_failure_short_circuits(p: ProofView, asked: u32)
    requires
        !structure_ok(p),
    ensures
        !verdict(p, asked).valid,
        verdict(p, asked).checks_failed == seq!["Invalid proof structure"@],
        verdict(p, asked).checks_failed.len() == 1,
        verdict(p, asked).checks_passed.len() == 0,
{
}

/// Putting another commitment into a proof leaves the structure check
/// passing as long as the new commitment is not empty, and makes the
/// challenge check fail, and with it the proof, whenever the challenge that
/// belongs to the new commitment differs from the one in the proof.
pub proof fn lemma_changed_commitment(p: ProofView, commitment: Seq<char>, asked: u32)
    requires
        structure_ok(p),
        commitment.len() > 0,
        challenge_for(commitment, p.security_bits) != p.challenge,
    ensures
        ({
            let q = ProofView { trace_commitment: commitment, ..p };
            &&& structure_ok(q)
            &&& !challenge_ok(q, challenge_for(q.trace_commitment, q.security_bits))
            &&& !verdict(q, asked).valid
            &&& verdict(q, asked).checks_failed.contains("Challenge verification failed"@)
            &&& verdict(q, asked).checks_passed[0] == "Proof structure is valid"@
        }),
{
    let q = ProofView { trace_commitment: commitment, ..p };
    let expected = challenge_for(q.trace_commitment, q.security_bits);
    let failed = failed_checks(q, asked, expected);
    let before = entry_if(
        !commitment_ok(q),
        "Trace commitment verification failed"@,
    ) + entry_if(
        !constraints_ok(q, asked),
        "Constraint evaluation verification failed"@,
    ) + entry_if(
        !layers_ok(q),
        "FRI proof layer verification failed"@,
    );
    assert(failed[before.len() as int] == "Challenge verification failed"@);
}

/// A proof whose level lies below the verifier's fails the level check
/// whatever else holds of it, and fails that check alone where the other
/// five pass.
pub proof fn lemma_low_level_fails(p: ProofView, asked: u32)
    requires
        p.security_bits < asked,
        structure_ok(p),
    ensures
        !verdict(p, asked).valid,
        ({
            let expected = challenge_for(p.trace_commitment, p.security_bits);
            commitment_ok(p) && constraints_ok(p, asked)
                && layers_ok(p) && challenge_ok(p, expected) ==> {
                &&& verdict(p, asked).checks_failed == seq![
                    level_insufficient_text(p.security_bits),
                ]
                &&& verdict(p, asked).checks_passed.len() == 5
            }
        }),
{
    let expected = challenge_for(p.trace_commitment, p.security_bits);
    if commitment_ok(p) && constraints_ok(p, asked)
        && layers_ok(p) && challenge_ok(p, expected) {
        assert(verdict(p, asked).checks_failed =~= seq![
            level_insufficient_text(p.security_bits),
        ]);
    }
}

/// The declared result is bound by no check: two proofs that differ in it
/// alone get the same verdict.
pub proof fn lemma_result_is_unbound(p: ProofView, result: u64, asked: u32)
    ensures
        verdict(ProofView { result, ..p }, asked) == verdict(p, asked),
{
}

} // verus!
