//! The prover: commit to the trace, evaluate the constraints, derive the
//! challenge, fold the constraint values into digest layers.

use vstd::prelude::*;
use vstd::string::*;
use crate::constraints::{constraint_modulus, lemma_modulus_bounds, modulus_at, within_modulus};
use crate::crypto::{
    challenge_for,
    generate_challenge,
    hash_string,
    is_lower_hex_digest,
    text_digest,
    CHALLENGE_LEN,
};
use crate::encoding::{encode_trace, joined, lemma_joined_step, trace_text};
use crate::text::{decimal_string, decimal_text};
use crate::laws::{lemma_commitment_of_equal_content, lemma_round_trip};
use crate::types::{
    epoch_seconds,
    same_content,
    texts,
    Proof,
    ProofTrace,
    ProofTraceView,
    ProofView,
    TraceStepView,
};
use crate::verification::verdict;

verus! {

/// Largest number of fold layers that a proof is given.
pub const FOLD_LAYERS: usize = 3;

/// Number of leading values that enter a layer's digest.
pub const LAYER_SAMPLE: usize = 5;

/// The commitment to a trace: the digest of its canonical text.
pub open spec fn trace_commitment(t: ProofTraceView) -> Seq<char> {
    text_digest(trace_text(t))
}

/// The constraint value of each step, in step order: the step's output
/// reduced by the modulus of the level.
pub open spec fn constraint_values(steps: Seq<TraceStepView>, level: u32) -> Seq<u64> {
    Seq::new(steps.len(), |i: int| (steps[i].output as nat % constraint_modulus(level)) as u64)
}

/// Every second value, starting with the first.
pub open spec fn downsample(values: Seq<u64>) -> Seq<u64> {
    Seq::new(((values.len() + 1) / 2) as nat, |k: int| values[2 * k])
}

/// The decimal texts of the values, in order.
pub open spec fn decimal_texts(values: Seq<u64>) -> Seq<Seq<char>> {
    Seq::new(values.len(), |i: int| decimal_text(values[i] as nat))
}

/// The first `LAYER_SAMPLE` values, or all of them where there are fewer.
pub open spec fn layer_sample(values: Seq<u64>) -> Seq<u64> {
    if values.len() <= LAYER_SAMPLE {
        values
    } else {
        values.take(LAYER_SAMPLE as int)
    }
}

/// The text that a layer's digest is taken over: the sampled values in
/// decimal with commas between them, the challenge, and the layer's index.
pub open spec fn layer_input(values: Seq<u64>, challenge: Seq<char>, index: nat) -> Seq<char> {
    joined(decimal_texts(layer_sample(values)), ","@) + challenge + decimal_text(index)
}

/// The digests of the layers from `index` on, `current` being the values
/// that layer `index` starts from. Folding stops after `FOLD_LAYERS`
/// layers, or earlier where no value is left.
pub open spec fn fold_layers(current: Seq<u64>, challenge: Seq<char>, index: nat) -> Seq<
    Seq<char>,
>
    decreases FOLD_LAYERS - index,
{
    if index >= FOLD_LAYERS || current.len() == 0 {
        Seq::<Seq<char>>::empty()
    } else {
        seq![text_digest(layer_input(current, challenge, index))] + fold_layers(
            downsample(current),
            challenge,
            index + 1,
        )
    }
}

/// The proof that belongs to a computation's name, declared result and
/// trace at a security level, with the given timestamp.
pub open spec fn proof_of(
    computation: Seq<char>,
    result: u64,
    t: ProofTraceView,
    level: u32,
    timestamp: u64,
) -> ProofView {
    let commitment = trace_commitment(t);
    let values = constraint_values(t.steps, level);
    let challenge = challenge_for(commitment, level);
    ProofView {
        version: "1.0"@,
        computation,
        result,
        trace_commitment: commitment,
        constraint_evaluations: values,
        challenge,
        fri_layers: fold_layers(values, challenge, 0),
        timestamp,
        security_bits: level,
    }
}

/// The digests in a proof are as the hash primitive writes them, and the
/// challenge has its full length.
pub open spec fn digests_shaped(p: ProofView) -> bool {
    &&& is_lower_hex_digest(p.trace_commitment)
    &&& p.challenge.len() == CHALLENGE_LEN
    &&& forall|i: int| 0 <= i < p.fri_layers.len() ==> is_lower_hex_digest(#[trigger] p.fri_layers[i])
}

/// The verifier accepts the proof, all six checks passed, at every level
/// up to the proof's own whose modulus the constraint values stay below.
pub open spec fn accepted_where_in_range(p: ProofView) -> bool {
    forall|asked: u32|
        asked <= p.security_bits && within_modulus(p.constraint_evaluations, asked) ==> (
        #[trigger] verdict(p, asked)).valid && verdict(p, asked).checks_passed.len() == 6
}

/// A sequence with values folds into one to `FOLD_LAYERS` layers, in fact
/// into exactly that many; one without values folds into none.
pub proof fn lemma_fold_layer_bound(values: Seq<u64>, challenge: Seq<char>)
    ensures
        values.len() == 0 ==> fold_layers(values, challenge, 0).len() == 0,
        values.len() > 0 ==> 1 <= fold_layers(values, challenge, 0).len() <= FOLD_LAYERS,
        values.len() > 0 ==> fold_layers(values, challenge, 0).len() == FOLD_LAYERS,
{
    reveal_with_fuel(fold_layers, 4);
    if values.len() > 0 {
        let second = downsample(values);
        let third = downsample(second);
        assert(second.len() > 0);
        assert(third.len() > 0);
    }
}

/// Constraint values at a level lie below that level's modulus.
pub proof fn lemma_constraint_values_in_range(steps: Seq<TraceStepView>, level: u32)
    ensures
        constraint_values(steps, level).len() == steps.len(),
        within_modulus(constraint_values(steps, level), level),
{
    lemma_modulus_bounds(level);
    let m = constraint_modulus(level);
    assert forall|i: int| 0 <= i < steps.len() implies (#[trigger] constraint_values(
        steps,
        level,
    )[i] as nat) < m by {
        let x = steps[i].output as nat;
        assert(x % m < m) by (nonlinear_arith)
            requires
                m > 0,
        ;
    }
}

/// Writes the text that the digest of layer `layer_idx` is taken over.
pub fn fri_layer_input(values: &[u64], challenge: &str, layer_idx: usize) -> (r: String)
    ensures
        r@ == layer_input(values@, challenge@, layer_idx as nat),
{
    let count: usize = if values.len() <= LAYER_SAMPLE {
        values.len()
    } else {
        LAYER_SAMPLE
    };
    let ghost parts = decimal_texts(layer_sample(values@));
    let mut body = String::new();
    let mut i: usize = 0;
    assert(parts.take(0) =~= Seq::<Seq<char>>::empty());
    while i < count
        invariant
            0 <= i <= count,
            count <= values.len(),
            count == parts.len(),
            parts == decimal_texts(layer_sample(values@)),
            body@ == joined(parts.take(i as int), ","@),
        decreases count - i,
    {
        let part = decimal_string(values[i]);
        proof {
            lemma_joined_step(parts, ","@, i as int);
            assert(parts[i as int] == part@);
            assert(Seq::<char>::empty() + part@ =~= part@);
        }
        if i != 0 {
            body.append(",");
        }
        body.append(part.as_str());
        i = i + 1;
    }
    assert(parts.take(count as int) =~= parts);
    body.append(challenge);
    body.append(decimal_string(layer_idx as u64).as_str());
    body
}

/// Keeps every second value, starting with the first.
pub fn halve(values: &Vec<u64>) -> (r: Vec<u64>)
    ensures
        r@ == downsample(values@),
{
    let n = values.len();
    let m = n - n / 2;
    let mut out: Vec<u64> = Vec::new();
    let mut k: usize = 0;
    while k < m
        invariant
            0 <= k <= m,
            n == values.len(),
            m == (n + 1) / 2,
            out@.len() == k,
            forall|j: int| 0 <= j < k ==> out@[j] == values@[2 * j],
        decreases m - k,
    {
        out.push(values[2 * k]);
        k = k + 1;
    }
    assert(out@ =~= downsample(values@));
    out
}

/// A prover that issues proofs at one security level.
pub struct STARKProver {
    security_level: u32,
}

impl STARKProver {
    /// The level of the proofs that this prover issues, in bits.
    pub closed spec fn level(&self) -> u32 {
        self.security_level
    }

    /// A prover for proofs at `security_level` bits.
    pub fn new(security_level: u32) -> (r: Self)
        ensures
            r.level() == security_level,
    {
        STARKProver { security_level }
    }

    /// Builds the proof for a computation's name, declared result and trace,
    /// stamped with the current time. All of it but the timestamp is
    /// determined by the arguments and the prover's level.
    pub fn prove(&self, computation_name: &str, result: u64, trace: &ProofTrace) -> (proof: Proof)
        ensures
            proof@ == proof_of(computation_name@, result, trace@, self.level(), proof.timestamp),
            digests_shaped(proof@),
            within_modulus(proof@.constraint_evaluations, self.level()),
            computation_name@.len() > 0 && trace@.steps.len() > 0 ==> accepted_where_in_range(
                proof@,
            ),
    {
        self.prove_at(computation_name, result, trace, epoch_seconds())
    }

    /// Builds the proof for a computation's name, declared result and trace
    /// with the given timestamp. The digests in it have the shape that the
    /// verifier asks for, and its constraint values lie below the modulus
    /// of the prover's level; so a verifier accepts it, given a name and at
    /// least one step, at the prover's level and at every lower level whose
    /// modulus the values stay below.
    pub fn prove_at(
        &self,
        computation_name: &str,
        result: u64,
        trace: &ProofTrace,
        timestamp: u64,
    ) -> (proof: Proof)
        ensures
            proof@ == proof_of(computation_name@, result, trace@, self.level(), timestamp),
            digests_shaped(proof@),
            within_modulus(proof@.constraint_evaluations, self.level()),
            computation_name@.len() > 0 && trace@.steps.len() > 0 ==> accepted_where_in_range(
                proof@,
            ),
    {
        let trace_commitment = self.commit_to_trace(trace);
        let constraint_evaluations = self.evaluate_constraints(trace);
        let challenge = generate_challenge(trace_commitment.as_str(), self.security_level);
        let fri_layers = self.create_fri_layers(
            constraint_evaluations.as_slice(),
            challenge.as_str(),
        );
        let proof = Proof::with_timestamp(
            computation_name,
            result,
            trace_commitment,
            constraint_evaluations,
            challenge,
            fri_layers,
            self.security_level,
            timestamp,
        );
        proof {
            lemma_constraint_values_in_range(trace@.steps, self.level());
            if computation_name@.len() > 0 && trace@.steps.len() > 0 {
                assert forall|asked: u32|
                    asked <= proof@.security_bits && within_modulus(
                        proof@.constraint_evaluations,
                        asked,
                    ) implies (#[trigger] verdict(proof@, asked)).valid && verdict(
                    proof@,
                    asked,
                ).checks_passed.len() == 6 by {
                    lemma_round_trip(
                        computation_name@,
                        result,
                        trace@,
                        self.level(),
                        asked,
                        timestamp,
                    );
                }
            }
        }
        proof
    }

    /// Commits to a trace: the digest of its canonical text. Traces with
    /// the same steps and, as mappings, the same inputs and outputs get the
    /// same commitment, in whatever order their names were set.
    pub fn commit_to_trace(&self, trace: &ProofTrace) -> (r: String)
        ensures
            r@ == trace_commitment(trace@),
            is_lower_hex_digest(r@),
            forall|other: ProofTraceView|
                trace@.names_in_order() && other.names_in_order() && #[trigger] same_content(
                    trace@,
                    other,
                ) ==> r@ == trace_commitment(other),
    {
        let trace_json = encode_trace(trace);
        proof {
            assert forall|other: ProofTraceView|
                trace@.names_in_order() && other.names_in_order() && #[trigger] same_content(
                    trace@,
                    other,
                ) implies trace_commitment(trace@) == trace_commitment(other) by {
                lemma_commitment_of_equal_content(trace@, other);
            }
        }
        hash_string(trace_json.as_str())
    }

    /// Evaluates the constraints: each step's output reduced by the modulus
    /// of the prover's level, in step order.
    pub fn evaluate_constraints(&self, trace: &ProofTrace) -> (r: Vec<u64>)
        ensures
            r@ == constraint_values(trace@.steps, self.level()),
    {
        let modulus = modulus_at(self.security_level);
        let mut values: Vec<u64> = Vec::new();
        let mut i: usize = 0;
        while i < trace.steps.len()
            invariant
                0 <= i <= trace.steps.len(),
                modulus > 0,
                modulus as nat == constraint_modulus(self.level()),
                values@.len() == i,
                forall|j: int|
                    0 <= j < i ==> values@[j] == (trace.steps@[j].output as nat
                        % constraint_modulus(self.level())) as u64,
            decreases trace.steps.len() - i,
        {
            values.push(trace.steps[i].output % modulus);
            i = i + 1;
        }
        assert(values@ =~= constraint_values(trace@.steps, self.level()));
        values
    }

    /// Folds the constraint values into layer digests: at most
    /// `FOLD_LAYERS` of them, none for no values.
    pub fn create_fri_layers(&self, evaluations: &[u64], challenge: &str) -> (r: Vec<String>)
        ensures
            texts(r@) == fold_layers(evaluations@, challenge@, 0),
            evaluations@.len() == 0 ==> r@.len() == 0,
            evaluations@.len() > 0 ==> 1 <= r@.len() <= FOLD_LAYERS,
            forall|i: int| 0 <= i < r@.len() ==> is_lower_hex_digest(#[trigger] r@[i]@),
    {
        let mut layers: Vec<String> = Vec::new();
        let mut current_evals: Vec<u64> = vstd::slice::slice_to_vec(evaluations);
        let mut layer_idx: usize = 0;
        assert(texts(layers@) =~= Seq::<Seq<char>>::empty());
        assert(texts(layers@) + fold_layers(current_evals@, challenge@, 0) =~= fold_layers(
            evaluations@,
            challenge@,
            0,
        ));
        while layer_idx < FOLD_LAYERS && current_evals.len() != 0
            invariant
                0 <= layer_idx <= FOLD_LAYERS,
                texts(layers@) + fold_layers(current_evals@, challenge@, layer_idx as nat)
                    == fold_layers(evaluations@, challenge@, 0),
                forall|i: int| 0 <= i < layers@.len() ==> is_lower_hex_digest(#[trigger] layers@[i]@),
            decreases FOLD_LAYERS - layer_idx,
        {
            let ghost before = texts(layers@);
            let ghost rest = fold_layers(
                downsample(current_evals@),
                challenge@,
                (layer_idx + 1) as nat,
            );
            let layer_data = fri_layer_input(current_evals.as_slice(), challenge, layer_idx);
            let layer_hash = hash_string(layer_data.as_str());
            let ghost digest = layer_hash@;
            layers.push(layer_hash);
            proof {
                assert(texts(layers@) =~= before.push(digest));
                assert(before.push(digest) + rest =~= before + (seq![digest] + rest));
            }
            current_evals = halve(&current_evals);
            layer_idx = layer_idx + 1;
        }
        proof {
            assert(texts(layers@) + Seq::<Seq<char>>::empty() =~= texts(layers@));
            lemma_fold_layer_bound(evaluations@, challenge@);
            assert(texts(layers@).len() == layers@.len());
        }
        layers
    }
}

} // verus!
