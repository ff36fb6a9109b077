use stark_prover_verifier::computation::fibonacci_with_trace;
use stark_prover_verifier::crypto::{generate_challenge, hash_string};
use stark_prover_verifier::prover::{fri_layer_input, halve};
use stark_prover_verifier::types::{Proof, ProofTrace, TraceStep, VerificationResult};
use stark_prover_verifier::{STARKProver, STARKVerifier};

fn passed_all_six(bits: u32) -> Vec<String> {
    vec![
        "Proof structure is valid".to_string(),
        "Trace commitment verified".to_string(),
        "Constraint evaluations verified".to_string(),
        "FRI proof layers verified".to_string(),
        "Challenge generation verified".to_string(),
        format!("Security level adequate ({} bits)", bits),
    ]
}

fn fibonacci_proof(n: u64, level: u32) -> Proof {
    let prover = STARKProver::new(level);
    let (result, trace) = fibonacci_with_trace(n).unwrap();
    prover.prove("fibonacci", result, &trace)
}

#[test]
fn test_prove_fibonacci() {
    let prover = STARKProver::new(128);
    let (result, trace) = fibonacci_with_trace(10).unwrap();
    let proof = prover.prove("fibonacci", result, &trace);

    assert_eq!(proof.result, 55);
    assert_eq!(proof.computation, "fibonacci");
    assert_eq!(proof.security_bits, 128);
    assert!(!proof.trace_commitment.is_empty());
    assert!(!proof.constraint_evaluations.is_empty());
    assert!(!proof.fri_layers.is_empty());
}

#[test]
fn test_trace_commitment() {
    let prover = STARKProver::new(128);
    let (_, trace) = fibonacci_with_trace(5).unwrap();
    let commitment = prover.commit_to_trace(&trace);

    assert_eq!(commitment.len(), 64);
    assert!(commitment.chars().all(|c| c.is_ascii_hexdigit()));
}

#[test]
fn test_verify_valid_proof() {
    let prover = STARKProver::new(128);
    let (result, trace) = fibonacci_with_trace(10).unwrap();
    let proof = prover.prove("fibonacci", result, &trace);

    let verifying = STARKVerifier::new(128);
    let result = verifying.verify(&proof);

    assert!(result.valid);
}

#[test]
fn test_verify_invalid_result() {
    let prover = STARKProver::new(128);
    let (_, trace) = fibonacci_with_trace(10).unwrap();
    let mut proof = prover.prove("fibonacci", 55, &trace);

    proof.result = 56;

    let verifying = STARKVerifier::new(128);
    let result = verifying.verify(&proof);

    assert!(result.checks_passed.len() >= 4);
}

#[test]
fn commitment_matches_known_digest() {
    let prover = STARKProver::new(128);
    let (_, trace) = fibonacci_with_trace(5).unwrap();
    assert_eq!(
        prover.commit_to_trace(&trace),
        "00dc9c17d57284f7941891459c47b10660c99ccc30077d597576d2ebdae14815"
    );
}

#[test]
fn fibonacci_ten_proof_artifacts() {
    let proof = fibonacci_proof(10, 128);
    assert_eq!(proof.version, "1.0");
    assert_eq!(
        proof.trace_commitment,
        "19534bf264e9d4aff17d32d0ba7e9d65e8e29c4c2ed1600778ce5e0fa43504fe"
    );
    assert_eq!(
        proof.constraint_evaluations,
        vec![1, 0, 1, 1, 2, 1, 3, 2, 5, 3, 8, 5, 13, 8, 21, 13, 34, 21, 55]
    );
    assert_eq!(proof.challenge, "a19c7c7a9bfa9b49");
    assert_eq!(
        proof.fri_layers,
        vec![
            "7465a2cbcdbc5cadbd68ecd2f245803ccc64a177529d0073e2d20d881cb79e2b".to_string(),
            "0f98ad88761529437031b885840106fc91ec9a6626e002cf4c10b8898734fd38".to_string(),
            "23a1853f64983f37ac71922e42b2705e2c38a4ffd7d1381151687b5a8685c9d9".to_string(),
        ]
    );
}

#[test]
fn escaped_labels_and_small_modulus() {
    let mut trace = ProofTrace::new();
    trace.add_step(TraceStep {
        step: 0,
        operation: "say \"hi\"\n".to_string(),
        input: 1,
        output: 300,
        depth: 0,
    });
    trace.set_input("a", 1);
    trace.set_input("b", 2);
    let proof = STARKProver::new(8).prove("talk", 0, &trace);
    assert_eq!(
        proof.trace_commitment,
        "d85e0de91741b6b4d97d31be0281b9a38ef5b75e3b9e5c0bc42b0b659a3859d1"
    );
    assert_eq!(proof.constraint_evaluations, vec![44]);
    assert_eq!(proof.challenge, "4e9369aa05f728fd");
    assert_eq!(
        proof.fri_layers,
        vec![
            "dcade43b0f7f60beeec8420c2ecdad35027566c6fbc725da41d5f81b0d2dbb37".to_string(),
            "546f903715f87f26af8a724382989be099f5b71288741f145c8d4a1957c4d49b".to_string(),
            "a3cc7586d9ec888fc4916e11e9fa7af858a5ac1c5544b3ad7e0b7bfd9525649c".to_string(),
        ]
    );
    assert_eq!(proof.security_bits, 8);
}

#[test]
fn proving_is_deterministic() {
    let (result, trace) = fibonacci_with_trace(12).unwrap();
    let first = STARKProver::new(128).prove("fibonacci", result, &trace);
    let second = STARKProver::new(128).prove("fibonacci", result, &trace);
    assert_eq!(first.trace_commitment, second.trace_commitment);
    assert_eq!(first.constraint_evaluations, second.constraint_evaluations);
    assert_eq!(first.challenge, second.challenge);
    assert_eq!(first.fri_layers, second.fri_layers);
}

#[test]
fn round_trip_passes_all_six_checks() {
    let proof = fibonacci_proof(10, 128);
    assert_eq!(proof.fri_layers.len(), 3);
    let result = STARKVerifier::new(128).verify(&proof);
    assert!(result.valid);
    assert_eq!(result.message, "Proof is VALID");
    assert_eq!(result.checks_passed, passed_all_six(128));
    assert!(result.checks_failed.is_empty());

    let higher = fibonacci_proof(7, 256);
    let result = STARKVerifier::new(128).verify(&higher);
    assert!(result.valid);
    assert_eq!(result.checks_passed, passed_all_six(256));
}

#[test]
fn mutated_result_still_verifies() {
    let mut proof = fibonacci_proof(10, 128);
    assert_eq!(proof.result, 55);
    proof.result = 56;
    let result = STARKVerifier::new(128).verify(&proof);
    assert!(result.valid);
    assert_eq!(result.checks_passed.len(), 6);
    assert!(result.checks_failed.is_empty());
}

#[test]
fn low_security_fails_only_the_level_check() {
    let proof = fibonacci_proof(10, 64);
    assert_eq!(proof.security_bits, 64);
    let result = STARKVerifier::new(128).verify(&proof);
    assert!(!result.valid);
    assert_eq!(result.message, "Proof is INVALID");
    assert_eq!(result.checks_failed, vec!["Insufficient security level (64 bits)".to_string()]);
    assert_eq!(result.checks_passed, passed_all_six(64)[..5].to_vec());
}

#[test]
fn flipped_commitment_fails_the_challenge_check() {
    let genuine = fibonacci_proof(10, 128);
    for position in [0usize, 17, 63] {
        let mut proof = fibonacci_proof(10, 128);
        let mut chars: Vec<char> = genuine.trace_commitment.chars().collect();
        chars[position] = if chars[position] == '0' { '1' } else { '0' };
        proof.trace_commitment = chars.into_iter().collect();
        let result = STARKVerifier::new(128).verify(&proof);
        assert!(!result.valid);
        assert_eq!(result.checks_failed, vec!["Challenge verification failed".to_string()]);
        assert_eq!(result.checks_passed[0], "Proof structure is valid");
        assert_eq!(result.checks_passed.len(), 5);
    }
}

#[test]
fn missing_field_short_circuits() {
    let blank = |which: usize| {
        let mut proof = fibonacci_proof(6, 128);
        match which {
            0 => proof.version = String::new(),
            1 => proof.computation = String::new(),
            2 => proof.trace_commitment = String::new(),
            3 => proof.constraint_evaluations = Vec::new(),
            4 => proof.challenge = String::new(),
            _ => proof.fri_layers = Vec::new(),
        }
        proof
    };
    for which in 0..6 {
        let result = STARKVerifier::new(128).verify(&blank(which));
        assert!(!result.valid);
        assert_eq!(result.message, "Proof is INVALID");
        assert_eq!(result.checks_failed, vec!["Invalid proof structure".to_string()]);
        assert!(result.checks_passed.is_empty());
    }
}

#[test]
fn empty_trace_gives_no_layers_and_fails_structure() {
    let trace = ProofTrace::new();
    let prover = STARKProver::new(128);
    let proof = prover.prove("nothing", 0, &trace);
    assert!(proof.constraint_evaluations.is_empty());
    assert!(proof.fri_layers.is_empty());
    assert_eq!(
        proof.trace_commitment,
        hash_string("{\"steps\":[],\"inputs\":{},\"outputs\":{}}")
    );
    let result = STARKVerifier::new(128).verify(&proof);
    assert!(!result.valid);
    assert_eq!(result.checks_failed.len(), 1);
    assert!(result.checks_passed.is_empty());
}

#[test]
fn fold_layer_count_is_bounded() {
    let prover = STARKProver::new(128);
    assert!(prover.create_fri_layers(&[], "c").is_empty());
    for n in 1..20u64 {
        let values: Vec<u64> = (0..n).collect();
        let layers = prover.create_fri_layers(&values, "c");
        assert!(layers.len() >= 1 && layers.len() <= 3);
        assert_eq!(layers.len(), 3);
    }
}

#[test]
fn fold_layers_hash_sample_challenge_and_index() {
    let prover = STARKProver::new(128);
    let values: Vec<u64> = vec![10, 11, 12, 13, 14, 15, 16];
    let layers = prover.create_fri_layers(&values, "abcd");
    assert_eq!(layers[0], hash_string("10,11,12,13,14abcd0"));
    assert_eq!(layers[1], hash_string("10,12,14,16abcd1"));
    assert_eq!(layers[2], hash_string("10,14abcd2"));
    assert_eq!(fri_layer_input(&[1, 2, 3, 4, 5, 6], "abcd", 2), "1,2,3,4,5abcd2");
    assert_eq!(fri_layer_input(&[9], "zz", 0), "9zz0");
    assert_eq!(fri_layer_input(&[], "zz", 1), "zz1");
    assert_eq!(halve(&vec![1, 2, 3, 4, 5]), vec![1, 3, 5]);
    assert_eq!(halve(&vec![1, 2, 3, 4]), vec![1, 3]);
    assert_eq!(halve(&vec![7]), vec![7]);
    assert_eq!(halve(&Vec::new()), Vec::<u64>::new());
}

#[test]
fn constraints_are_reduced_by_the_capped_modulus() {
    let mut trace = ProofTrace::new();
    for (i, output) in [255u64, 256, 257, 1 << 32, (1 << 32) + 5, u64::MAX].iter().enumerate() {
        trace.add_step(TraceStep {
            step: i,
            operation: "op".to_string(),
            input: 0,
            output: *output,
            depth: 0,
        });
    }
    assert_eq!(
        STARKProver::new(8).evaluate_constraints(&trace),
        vec![255, 0, 1, 0, 5, 255]
    );
    assert_eq!(
        STARKProver::new(32).evaluate_constraints(&trace),
        vec![255, 256, 257, 0, 5, 4294967295]
    );
    assert_eq!(
        STARKProver::new(128).evaluate_constraints(&trace),
        vec![255, 256, 257, 0, 5, 4294967295]
    );
}

#[test]
fn each_check_fails_on_its_own() {
    let at = STARKVerifier::new(128);

    let mut proof = fibonacci_proof(10, 128);
    proof.constraint_evaluations[3] = 1 << 32;
    let result = at.verify(&proof);
    assert_eq!(
        result.checks_failed,
        vec!["Constraint evaluation verification failed".to_string()]
    );
    assert!(!at.verify_constraints(&proof));
    assert!(at.check_proof_structure(&proof));

    let mut proof = fibonacci_proof(10, 128);
    proof.fri_layers[1] = "xyz".to_string();
    let result = at.verify(&proof);
    assert_eq!(result.checks_failed, vec!["FRI proof layer verification failed".to_string()]);
    assert!(!at.verify_fri_layers(&proof));

    let mut proof = fibonacci_proof(10, 128);
    let layer = proof.fri_layers[0].clone();
    proof.fri_layers = vec![layer; 11];
    assert!(!at.verify_fri_layers(&proof));
    proof.fri_layers.pop();
    assert!(at.verify_fri_layers(&proof));

    let mut proof = fibonacci_proof(10, 128);
    proof.challenge = "0000000000000000".to_string();
    let result = at.verify(&proof);
    assert_eq!(result.checks_failed, vec!["Challenge verification failed".to_string()]);
    assert!(!at.verify_challenge_consistency(&proof));

    let mut proof = fibonacci_proof(10, 128);
    proof.trace_commitment = "short".to_string();
    proof.challenge = generate_challenge("short", 128);
    proof.security_bits = 128;
    let result = at.verify(&proof);
    assert_eq!(result.checks_failed, vec!["Trace commitment verification failed".to_string()]);
    assert!(!at.verify_trace_commitment(&proof));
    assert!(at.verify_challenge_consistency(&proof));
}

#[test]
fn failures_accumulate_in_order() {
    let mut proof = fibonacci_proof(10, 64);
    proof.trace_commitment = "nothex".to_string();
    proof.constraint_evaluations[0] = u64::MAX;
    proof.fri_layers[2] = "bad".to_string();
    let result = STARKVerifier::new(128).verify(&proof);
    assert!(!result.valid);
    assert_eq!(result.checks_passed, vec!["Proof structure is valid".to_string()]);
    assert_eq!(
        result.checks_failed,
        vec![
            "Trace commitment verification failed".to_string(),
            "Constraint evaluation verification failed".to_string(),
            "FRI proof layer verification failed".to_string(),
            "Challenge verification failed".to_string(),
            "Insufficient security level (64 bits)".to_string(),
        ]
    );
}

#[test]
fn verifying_against_a_given_challenge() {
    let proof = fibonacci_proof(10, 128);
    let at = STARKVerifier::new(128);
    assert!(at.verify_with_challenge(&proof, "a19c7c7a9bfa9b49").valid);
    let result = at.verify_with_challenge(&proof, "a19c7c7a9bfa9b40");
    assert_eq!(result.checks_failed, vec!["Challenge verification failed".to_string()]);
}

#[test]
fn lower_verifier_level_narrows_the_range() {
    let proof = fibonacci_proof(20, 128);
    let result = STARKVerifier::new(8).verify(&proof);
    assert_eq!(
        result.checks_failed,
        vec!["Constraint evaluation verification failed".to_string()]
    );
}

#[test]
fn result_constructors() {
    let good = VerificationResult::valid("fine", vec!["a".to_string()]);
    assert!(good.valid);
    assert_eq!(good.message, "fine");
    assert_eq!(good.checks_passed, vec!["a".to_string()]);
    assert!(good.checks_failed.is_empty());
    let bad = VerificationResult::invalid("broken", vec!["b".to_string()]);
    assert!(!bad.valid);
    assert_eq!(bad.message, "broken");
    assert!(bad.checks_passed.is_empty());
    assert_eq!(bad.checks_failed, vec!["b".to_string()]);
}

#[test]
fn proof_constructor_keeps_its_arguments() {
    let proof = Proof::new(
        "name",
        7,
        "commit".to_string(),
        vec![1, 2],
        "chal".to_string(),
        vec!["l".to_string()],
        99,
    );
    assert_eq!(proof.version, "1.0");
    assert_eq!(proof.computation, "name");
    assert_eq!(proof.result, 7);
    assert_eq!(proof.trace_commitment, "commit");
    assert_eq!(proof.constraint_evaluations, vec![1, 2]);
    assert_eq!(proof.challenge, "chal");
    assert_eq!(proof.fri_layers, vec!["l".to_string()]);
    assert_eq!(proof.security_bits, 99);
    assert!(proof.timestamp > 1_000_000_000);
}

#[test]
fn proving_at_a_given_time() {
    let (result, trace) = fibonacci_with_trace(10).unwrap();
    let prover = STARKProver::new(128);
    let early = prover.prove_at("fibonacci", result, &trace, 1);
    let late = prover.prove_at("fibonacci", result, &trace, 2_000_000_000);
    assert_eq!(early.timestamp, 1);
    assert_eq!(late.timestamp, 2_000_000_000);
    assert_eq!(early.trace_commitment, late.trace_commitment);
    assert_eq!(early.challenge, late.challenge);
    assert_eq!(early.fri_layers, late.fri_layers);
    assert_eq!(early.challenge, "a19c7c7a9bfa9b49");
    assert!(STARKVerifier::new(128).verify(&early).valid);
    let stamped = Proof::with_timestamp(
        "n",
        1,
        "c".to_string(),
        vec![3],
        "d".to_string(),
        Vec::new(),
        5,
        77,
    );
    assert_eq!(stamped.timestamp, 77);
    assert_eq!(stamped.version, "1.0");
    assert_eq!(stamped.security_bits, 5);
}

#[test]
fn commitment_does_not_depend_on_setting_order() {
    let step = || TraceStep {
        step: 0,
        operation: "say \"hi\"\n".to_string(),
        input: 1,
        output: 300,
        depth: 0,
    };
    let mut first = ProofTrace::new();
    first.add_step(step());
    first.set_input("a", 1);
    first.set_input("b", 2);
    let mut second = ProofTrace::new();
    second.set_input("b", 2);
    second.add_step(step());
    second.set_input("a", 1);
    let prover = STARKProver::new(8);
    assert_eq!(prover.commit_to_trace(&first), prover.commit_to_trace(&second));
    assert_eq!(
        prover.commit_to_trace(&second),
        "d85e0de91741b6b4d97d31be0281b9a38ef5b75e3b9e5c0bc42b0b659a3859d1"
    );
    let mut other = ProofTrace::new();
    other.add_step(step());
    other.set_input("a", 1);
    other.set_input("b", 3);
    assert_ne!(prover.commit_to_trace(&first), prover.commit_to_trace(&other));
}

#[test]
fn invalid_proofs_share_one_message() {
    let mut blank = fibonacci_proof(6, 128);
    blank.challenge = String::new();
    let low = fibonacci_proof(6, 64);
    let at = STARKVerifier::new(128);
    let first = at.verify(&blank);
    let second = at.verify(&low);
    assert!(!first.valid && !second.valid);
    assert_eq!(first.message, "Proof is INVALID");
    assert_eq!(first.message, second.message);
    assert_eq!(first.checks_failed, vec!["Invalid proof structure".to_string()]);
}
