use stark_prover_verifier::computation::{
    fibonacci_with_trace, hash_computation_with_trace, ComputationError,
};
use stark_prover_verifier::constraints::modulus_at;
use stark_prover_verifier::crypto::{
    challenge_prefix, generate_challenge, hash_bytes, hash_integers, hash_string, is_digest,
    verify_challenge,
};
use stark_prover_verifier::encoding::{encode_trace, frame_entry, frame_step};
use stark_prover_verifier::text::{
    decimal_string, hex_string, same_text, text_order, TextOrder,
};
use stark_prover_verifier::types::{NamedValues, ProofTrace, TraceStep};

#[test]
fn test_fibonacci() {
    let (result, _trace) = fibonacci_with_trace(10).unwrap();
    assert_eq!(result, 55);
}

#[test]
fn test_fibonacci_trace() {
    let (_result, trace) = fibonacci_with_trace(5).unwrap();
    assert!(!trace.steps.is_empty());
    assert_eq!(*trace.outputs.get("result").unwrap(), 5);
}

#[test]
fn test_hash_computation() {
    let (hash, _trace) = hash_computation_with_trace(42);
    assert!(!hash.is_empty());
}

#[test]
fn test_hash_string() {
    let hash = hash_string("test");
    assert_eq!(hash.len(), 64);
}

#[test]
fn test_generate_challenge() {
    let commitment = "abc123";
    let challenge = generate_challenge(commitment, 128);
    assert_eq!(challenge.len(), 16);
}

#[test]
fn test_verify_challenge() {
    let commitment = "test_commitment";
    let challenge = generate_challenge(commitment, 128);
    assert!(verify_challenge(commitment, 128, &challenge));
}

#[test]
fn hash_string_known_digest() {
    assert_eq!(
        hash_string("test"),
        "9f86d081884c7d659a2feaa0c55ad015a3bf4f1b2b0b822cd15d6c15b0f00a08"
    );
    assert_eq!(
        hash_bytes(b"test"),
        "9f86d081884c7d659a2feaa0c55ad015a3bf4f1b2b0b822cd15d6c15b0f00a08"
    );
    assert_eq!(
        hash_bytes(b""),
        "e3b0c44298fc1c149afbf4c8996fb92427ae41e4649b934ca495991b7852b855"
    );
}

#[test]
fn hash_integers_is_little_endian() {
    assert_eq!(
        hash_integers(&[1, 2]),
        "0c730b69905c5ef7a4ca5269f72365400bde2dd2c04eaf9bbb3d1c4a265a0131"
    );
    assert_eq!(
        hash_integers(&[0x0102030405060708]),
        "380b980886b7a3e726b5c2776160d7842b8f139eaea1e6acf7442cdf890e6287"
    );
    assert_eq!(
        hash_integers(&[0x0102030405060708]),
        hash_bytes(&[8, 7, 6, 5, 4, 3, 2, 1])
    );
    assert_eq!(hash_integers(&[]), hash_bytes(&[]));
}

#[test]
fn challenge_is_digest_prefix() {
    assert_eq!(generate_challenge("abc123", 128), "3653fb139d5b2a53");
    assert_eq!(generate_challenge("abc123", 128), hash_string("abc123128")[..16]);
    assert_eq!(challenge_prefix("0123456789abcdefXYZ"), "0123456789abcdef");
}

#[test]
fn challenge_binding_holds_both_ways() {
    let derived = generate_challenge("commitment", 96);
    assert_eq!(derived, generate_challenge("commitment", 96));
    assert!(verify_challenge("commitment", 96, &derived));
    assert!(!verify_challenge("commitment", 97, &derived));
    assert!(!verify_challenge("commitmenu", 96, &derived));
    assert!(!verify_challenge("commitment", 96, "0000000000000000"));
    assert!(!verify_challenge("commitment", 96, &derived[..15]));
    assert!(!verify_challenge("commitment", 96, ""));
}

#[test]
fn same_text_compares_characters() {
    assert!(same_text("", ""));
    assert!(same_text("héllo", "héllo"));
    assert!(!same_text("héllo", "hello"));
    assert!(!same_text("abc", "ab"));
}

#[test]
fn digest_shape() {
    let good = "9f86d081884c7d659a2feaa0c55ad015a3bf4f1b2b0b822cd15d6c15b0f00a08";
    assert!(is_digest(good));
    assert!(is_digest(&good.to_uppercase()));
    assert!(!is_digest(&good[..63]));
    assert!(!is_digest(&format!("{}0", good)));
    assert!(!is_digest(&format!("g{}", &good[1..])));
    assert!(!is_digest(""));
}

#[test]
fn integer_texts() {
    assert_eq!(decimal_string(0), "0");
    assert_eq!(decimal_string(7), "7");
    assert_eq!(decimal_string(10), "10");
    assert_eq!(decimal_string(128), "128");
    assert_eq!(decimal_string(u64::MAX), "18446744073709551615");
    assert_eq!(hex_string(0), "0");
    assert_eq!(hex_string(42), "2a");
    assert_eq!(hex_string(255), "ff");
    assert_eq!(hex_string(u64::MAX), "ffffffffffffffff");
}

#[test]
fn modulus_is_capped() {
    assert_eq!(modulus_at(0), 1);
    assert_eq!(modulus_at(8), 256);
    assert_eq!(modulus_at(31), 1 << 31);
    assert_eq!(modulus_at(32), 1 << 32);
    assert_eq!(modulus_at(33), 1 << 32);
    assert_eq!(modulus_at(128), 4294967296);
    assert_eq!(modulus_at(u32::MAX), 4294967296);
}

#[test]
fn fibonacci_rejects_large_index() {
    assert_eq!(fibonacci_with_trace(101).err(), Some(ComputationError::InputTooLarge));
    assert_eq!(fibonacci_with_trace(u64::MAX).err(), Some(ComputationError::InputTooLarge));
    assert!(fibonacci_with_trace(100).is_ok());
    assert_eq!(
        ComputationError::InputTooLarge.message(),
        "n must be <= 100 for performance reasons"
    );
}

#[test]
fn fibonacci_small_indices() {
    let (zero, trace) = fibonacci_with_trace(0).unwrap();
    assert_eq!(zero, 0);
    assert_eq!(trace.steps.len(), 1);
    assert_eq!(trace.steps[0].operation, "fib_compute");
    assert_eq!((trace.steps[0].input, trace.steps[0].output, trace.steps[0].depth), (0, 0, 0));
    let (one, trace) = fibonacci_with_trace(1).unwrap();
    assert_eq!(one, 1);
    assert_eq!(trace.steps.len(), 1);
    assert_eq!((trace.steps[0].input, trace.steps[0].output, trace.steps[0].depth), (1, 1, 0));
    assert_eq!(*trace.inputs.get("n").unwrap(), 1);
}

#[test]
fn fibonacci_step_order() {
    let (value, trace) = fibonacci_with_trace(3).unwrap();
    assert_eq!(value, 2);
    let seen: Vec<(usize, String, u64, u64, usize)> = trace
        .steps
        .iter()
        .map(|s| (s.step, s.operation.clone(), s.input, s.output, s.depth))
        .collect();
    let expected = vec![
        (0, "fib_compute".to_string(), 1, 1, 2),
        (1, "fib_compute".to_string(), 0, 0, 2),
        (2, "fib_compute".to_string(), 2, 1, 1),
        (3, "memo_lookup".to_string(), 1, 1, 1),
        (4, "fib_compute".to_string(), 3, 2, 0),
    ];
    assert_eq!(seen, expected);
    assert_eq!(
        encode_trace(&trace),
        "{\"steps\":[{\"step\":0,\"operation\":\"fib_compute\",\"input\":1,\"output\":1,\"depth\":2},{\"step\":1,\"operation\":\"fib_compute\",\"input\":0,\"output\":0,\"depth\":2},{\"step\":2,\"operation\":\"fib_compute\",\"input\":2,\"output\":1,\"depth\":1},{\"step\":3,\"operation\":\"memo_lookup\",\"input\":1,\"output\":1,\"depth\":1},{\"step\":4,\"operation\":\"fib_compute\",\"input\":3,\"output\":2,\"depth\":0}],\"inputs\":{\"n\":3},\"outputs\":{\"result\":2}}"
    );
}

#[test]
fn fibonacci_values_and_lengths() {
    let (value, trace) = fibonacci_with_trace(10).unwrap();
    assert_eq!(value, 55);
    assert_eq!(trace.steps.len(), 19);
    let outputs: Vec<u64> = trace.steps.iter().map(|s| s.output).collect();
    assert_eq!(outputs, vec![1, 0, 1, 1, 2, 1, 3, 2, 5, 3, 8, 5, 13, 8, 21, 13, 34, 21, 55]);
    for (i, step) in trace.steps.iter().enumerate() {
        assert_eq!(step.step, i);
    }
    assert_eq!(fibonacci_with_trace(93).unwrap().0, 12200160415121876738);
    assert_eq!(fibonacci_with_trace(94).unwrap().0, 1293530146158671551);
    let (last, trace) = fibonacci_with_trace(100).unwrap();
    assert_eq!(last, 3736710778780434371);
    assert_eq!(trace.steps.len(), 199);
}

#[test]
fn hash_chain_rounds() {
    let (hash, trace) = hash_computation_with_trace(42);
    assert_eq!(hash, "d0494836b84ed450ff55d4ac9e80ab234273e618a4dae5244f98966e88c20e35");
    let mut expected = "2a".to_string();
    for _ in 0..5 {
        expected = hash_string(&expected);
    }
    assert_eq!(hash, expected);
    assert_eq!(trace.steps.len(), 5);
    for (i, step) in trace.steps.iter().enumerate() {
        assert_eq!(step.step, i);
        assert_eq!(step.operation, format!("hash_round_{}", i));
        assert_eq!(step.input, 42);
        assert_eq!(step.output, 64);
        assert_eq!(step.depth, i);
    }
    assert_eq!(*trace.inputs.get("input").unwrap(), 42);
    assert!(trace.outputs.is_empty());
}

#[test]
fn named_values_keep_name_order() {
    let mut values = NamedValues::new();
    assert!(values.is_empty());
    assert_eq!(values.get("a"), None);
    values.set("b", 2);
    values.set("c", 9);
    values.set("a", 1);
    values.set("b", 3);
    values.set("ab", 4);
    values.set("", 5);
    assert_eq!(values.len(), 5);
    assert_eq!(values.get("a"), Some(&1));
    assert_eq!(values.get("b"), Some(&3));
    assert_eq!(values.get("c"), Some(&9));
    assert_eq!(values.get("ab"), Some(&4));
    assert_eq!(values.get(""), Some(&5));
    assert_eq!(values.get("d"), None);
    let names: Vec<&str> = values.entries.iter().map(|e| e.name.as_str()).collect();
    assert_eq!(names, vec!["", "a", "ab", "b", "c"]);
    let held: Vec<u64> = values.entries.iter().map(|e| e.value).collect();
    assert_eq!(held, vec![5, 1, 4, 3, 9]);
}

#[test]
fn texts_in_dictionary_order() {
    assert_eq!(text_order("a", "b"), TextOrder::Before);
    assert_eq!(text_order("b", "a"), TextOrder::After);
    assert_eq!(text_order("abc", "abc"), TextOrder::Same);
    assert_eq!(text_order("", ""), TextOrder::Same);
    assert_eq!(text_order("", "a"), TextOrder::Before);
    assert_eq!(text_order("ab", "abc"), TextOrder::Before);
    assert_eq!(text_order("abd", "abc"), TextOrder::After);
    assert_eq!(text_order("Z", "a"), TextOrder::Before);
    assert_eq!(text_order("z", "é"), TextOrder::Before);
}

#[test]
fn encoding_does_not_depend_on_setting_order() {
    let mut first = ProofTrace::new();
    first.set_input("a", 1);
    first.set_input("b", 2);
    first.set_output("x", 7);
    first.set_output("y", 8);
    let mut second = ProofTrace::new();
    second.set_output("y", 0);
    second.set_input("b", 2);
    second.set_output("x", 7);
    second.set_input("a", 1);
    second.set_output("y", 8);
    assert_eq!(encode_trace(&first), encode_trace(&second));
    assert_eq!(
        encode_trace(&second),
        "{\"steps\":[],\"inputs\":{\"a\":1,\"b\":2},\"outputs\":{\"x\":7,\"y\":8}}"
    );
}

#[test]
fn labels_are_escaped_as_json() {
    let mut trace = ProofTrace::new();
    trace.add_step(TraceStep {
        step: 0,
        operation: "\u{01}\u{1f}\u{7f} é/\\\"\u{08}\t\n\u{0c}\r".to_string(),
        input: 1,
        output: 2,
        depth: 3,
    });
    trace.set_input("k\n", 1);
    assert_eq!(
        encode_trace(&trace),
        "{\"steps\":[{\"step\":0,\"operation\":\"\\u0001\\u001f\u{7f} é/\\\\\\\"\\b\\t\\n\\f\\r\",\"input\":1,\"output\":2,\"depth\":3}],\"inputs\":{\"k\\n\":1},\"outputs\":{}}"
    );
    assert_eq!(
        hash_string(&encode_trace(&trace)),
        "4874a195d5c4386d23605ec192dad9e73de4166030b91ef2b4ee3e125702612f"
    );
}

#[test]
fn trace_building() {
    let mut trace = ProofTrace::new();
    assert!(trace.steps.is_empty());
    assert!(trace.inputs.is_empty());
    assert!(trace.outputs.is_empty());
    assert_eq!(encode_trace(&trace), "{\"steps\":[],\"inputs\":{},\"outputs\":{}}");
    trace.add_step(TraceStep {
        step: 0,
        operation: "say \"hi\"\n".to_string(),
        input: 1,
        output: 300,
        depth: 0,
    });
    trace.set_input("a", 1);
    trace.set_input("b", 2);
    assert_eq!(
        encode_trace(&trace),
        "{\"steps\":[{\"step\":0,\"operation\":\"say \\\"hi\\\"\\n\",\"input\":1,\"output\":300,\"depth\":0}],\"inputs\":{\"a\":1,\"b\":2},\"outputs\":{}}"
    );
    let again = ProofTrace::default();
    assert!(again.steps.is_empty());
    let copy = trace.steps[0].clone();
    assert_eq!(copy.operation, trace.steps[0].operation);
    assert_eq!(copy.output, 300);
}

#[test]
fn frames_take_quoted_texts() {
    let step = TraceStep { step: 3, operation: "x".to_string(), input: 4, output: 5, depth: 6 };
    assert_eq!(
        frame_step(&step, "\"x\""),
        "{\"step\":3,\"operation\":\"x\",\"input\":4,\"output\":5,\"depth\":6}"
    );
    assert_eq!(frame_entry("\"n\"", 10), "\"n\":10");
}
