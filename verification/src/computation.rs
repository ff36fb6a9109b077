//! Two computations that record a trace while they run: Fibonacci numbers
//! and a short chain of hashes.

use vstd::prelude::*;
use vstd::string::*;
use vstd::arithmetic::div_mod::lemma_add_mod_noop;
use crate::crypto::{hash_string, is_lower_hex_digest, text_digest, DIGEST_HEX_LEN};
use crate::text::{decimal_string, decimal_text, hex_string, hex_text};
use crate::types::{ProofTrace, TraceStep, TraceStepView};

verus! {

/// Largest index that `fibonacci_with_trace` accepts.
pub const MAX_FIBONACCI_INDEX: u64 = 100;

/// Number of rounds in the hash chain.
pub const HASH_ROUNDS: usize = 5;

/// Why a computation turned its input down.
#[derive(Debug, Clone, Copy, PartialEq, Eq, Structural)]
pub enum ComputationError {
    /// The index lies above `MAX_FIBONACCI_INDEX`.
    InputTooLarge,
}

impl ComputationError {
    /// The error in words.
    pub fn message(&self) -> (r: String)
        ensures
            r@ == "n must be <= 100 for performance reasons"@,
    {
        String::from_str("n must be <= 100 for performance reasons")
    }
}

/// The Fibonacci numbers: 0, 1, 1, 2, 3, 5, ...
pub open spec fn fib(k: nat) -> nat
    decreases k,
{
    if k < 2 {
        k
    } else {
        fib((k - 1) as nat) + fib((k - 2) as nat)
    }
}

/// The Fibonacci number of `k` as a machine word: reduced modulo two to the
/// power of 64.
pub open spec fn fib_value(k: nat) -> u64 {
    (fib(k) % 0x1_0000_0000_0000_0000) as u64
}

/// The step that records that the number of `index` was computed.
pub open spec fn computed_step(position: nat, index: nat, depth: nat) -> TraceStepView {
    TraceStepView {
        step: position,
        operation: "fib_compute"@,
        input: index as u64,
        output: fib_value(index),
        depth,
    }
}

/// The step that records that the number of `index` was found in the cache.
pub open spec fn lookup_step(position: nat, index: nat, depth: nat) -> TraceStepView {
    TraceStepView {
        step: position,
        operation: "memo_lookup"@,
        input: index as u64,
        output: fib_value(index),
        depth,
    }
}

/// The step at position `i` of the trace for index `n`. For `n` below two
/// there is the one computation. Otherwise the numbers of 1 and of 0 are
/// computed first, at the deepest level; then each number from 2 up to `n`
/// is computed, one level higher each time, and each but the last is
/// followed by the cache lookup of the number two below its successor.
pub open spec fn fibonacci_step(n: nat, i: nat) -> TraceStepView {
    if n < 2 {
        computed_step(i, n, 0)
    } else if i == 0 {
        computed_step(0, 1, (n - 1) as nat)
    } else if i == 1 {
        computed_step(1, 0, (n - 1) as nat)
    } else {
        let k = 2 + (i - 2) / 2;
        if (i - 2) % 2 == 0 {
            computed_step(i, k as nat, (n - k) as nat)
        } else {
            lookup_step(i, (k - 1) as nat, (n - k) as nat)
        }
    }
}

/// Number of steps in the trace for index `n`.
pub open spec fn fibonacci_step_count(n: nat) -> nat {
    if n < 2 {
        1
    } else {
        (2 * n - 1) as nat
    }
}

/// The steps of the trace for index `n`, children before parents.
pub open spec fn fibonacci_steps(n: nat) -> Seq<TraceStepView> {
    Seq::new(fibonacci_step_count(n), |i: int| fibonacci_step(n, i as nat))
}

/// The text after `rounds` rounds of hashing, each round hashing the text
/// of the round before.
pub open spec fn hash_chain(start: Seq<char>, rounds: nat) -> Seq<char>
    decreases rounds,
{
    if rounds == 0 {
        start
    } else {
        text_digest(hash_chain(start, (rounds - 1) as nat))
    }
}

/// The step that records round `i` of the hash chain on `input`: its
/// output is the length of the round's digest.
pub open spec fn hash_round_step(input: u64, i: nat) -> TraceStepView {
    TraceStepView {
        step: i,
        operation: "hash_round_"@ + decimal_text(i),
        input,
        output: DIGEST_HEX_LEN as u64,
        depth: i,
    }
}

/// The steps of the hash chain on `input`.
pub open spec fn hash_round_steps(input: u64) -> Seq<TraceStepView> {
    Seq::new(HASH_ROUNDS as nat, |i: int| hash_round_step(input, i as nat))
}

fn sum_mod_word(a: u64, b: u64) -> (r: u64)
    ensures
        r as nat == (a as nat + b as nat) % 0x1_0000_0000_0000_0000,
{
    if a > u64::MAX - b {
        a - (u64::MAX - b) - 1
    } else {
        a + b
    }
}

fn record_step(trace: &mut ProofTrace, operation: &str, input: u64, output: u64, depth: usize)
    ensures
        final(trace)@.steps == old(trace)@.steps.push(
            TraceStepView {
                step: old(trace)@.steps.len(),
                operation: operation@,
                input,
                output,
                depth: depth as nat,
            },
        ),
        final(trace)@.inputs == old(trace)@.inputs,
        final(trace)@.outputs == old(trace)@.outputs,
{
    let step = TraceStep {
        step: trace.steps.len(),
        operation: String::from_str(operation),
        input,
        output,
        depth,
    };
    trace.add_step(step);
}

/// Computes the Fibonacci number of `n` and records how. An index above
/// `MAX_FIBONACCI_INDEX` is turned down. The number is kept as a machine
/// word, see `fib_value`.
pub fn fibonacci_with_trace(n: u64) -> (r: Result<(u64, ProofTrace), ComputationError>)
    ensures
        r is Err <==> n > MAX_FIBONACCI_INDEX,
        r matches Err(e) ==> e == ComputationError::InputTooLarge,
        r matches Ok((value, trace)) ==> {
            &&& value == fib_value(n as nat)
            &&& trace@.steps == fibonacci_steps(n as nat)
            &&& trace@.inputs == seq![("n"@, n)]
            &&& trace@.outputs == seq![("result"@, value)]
            &&& trace@.well_formed()
        },
{
    if n > MAX_FIBONACCI_INDEX {
        return Err(ComputationError::InputTooLarge);
    }
    let mut trace = ProofTrace::new();
    trace.set_input("n", n);
    let mut result: u64 = n;
    if n < 2 {
        record_step(&mut trace, "fib_compute", n, n, 0);
    } else {
        record_step(&mut trace, "fib_compute", 1, 1, (n - 1) as usize);
        record_step(&mut trace, "fib_compute", 0, 0, (n - 1) as usize);
        let mut before_last: u64 = 0;
        let mut last: u64 = 1;
        let mut k: u64 = 2;
        while k <= n
            invariant
                2 <= k <= n + 1,
                n <= MAX_FIBONACCI_INDEX,
                before_last == fib_value((k - 2) as nat),
                last == fib_value((k - 1) as nat),
                trace@.steps.len() == (if k <= n {
                    2 * k - 2
                } else {
                    2 * n - 1
                }),
                forall|i: int|
                    0 <= i < trace@.steps.len() ==> #[trigger] trace@.steps[i] == fibonacci_step(
                        n as nat,
                        i as nat,
                    ),
                trace@.inputs == seq![("n"@, n)],
                trace@.outputs == Seq::<(Seq<char>, u64)>::empty(),
            decreases n + 1 - k,
        {
            let next = sum_mod_word(last, before_last);
            proof {
                lemma_add_mod_noop(
                    fib((k - 1) as nat) as int,
                    fib((k - 2) as nat) as int,
                    0x1_0000_0000_0000_0000,
                );
                assert(next == fib_value(k as nat));
            }
            record_step(&mut trace, "fib_compute", k, next, (n - k) as usize);
            if k < n {
                record_step(&mut trace, "memo_lookup", k - 1, last, (n - k) as usize);
            }
            before_last = last;
            last = next;
            k = k + 1;
        }
        result = last;
    }
    trace.set_output("result", result);
    proof {
        assert(trace@.steps =~= fibonacci_steps(n as nat));
        assert(trace@.inputs =~= seq![("n"@, n)]);
        assert(trace@.outputs =~= seq![("result"@, result)]);
    }
    Ok((result, trace))
}

/// Hashes the lower-case hex text of `input` `HASH_ROUNDS` times over,
/// each round hashing the digest of the round before, and records one step
/// for each round. Gives the last digest.
pub fn hash_computation_with_trace(input: u64) -> (r: (String, ProofTrace))
    ensures
        r.0@ == hash_chain(hex_text(input as nat), HASH_ROUNDS as nat),
        is_lower_hex_digest(r.0@),
        r.1@.steps == hash_round_steps(input),
        r.1@.inputs == seq![("input"@, input)],
        r.1@.outputs == Seq::<(Seq<char>, u64)>::empty(),
        r.1@.well_formed(),
{
    let mut trace = ProofTrace::new();
    trace.set_input("input", input);
    let mut current = hex_string(input);
    let mut i: usize = 0;
    while i < HASH_ROUNDS
        invariant
            0 <= i <= HASH_ROUNDS,
            current@ == hash_chain(hex_text(input as nat), i as nat),
            i > 0 ==> is_lower_hex_digest(current@),
            trace@.steps.len() == i,
            forall|j: int|
                0 <= j < i ==> #[trigger] trace@.steps[j] == hash_round_step(input, j as nat),
            trace@.inputs == seq![("input"@, input)],
            trace@.outputs == Seq::<(Seq<char>, u64)>::empty(),
        decreases HASH_ROUNDS - i,
    {
        let output = hash_string(current.as_str());
        let mut label = String::from_str("hash_round_");
        label.append(decimal_string(i as u64).as_str());
        let step = TraceStep {
            step: i,
            operation: label,
            input,
            output: output.as_str().unicode_len() as u64,
            depth: i,
        };
        trace.add_step(step);
        current = output;
        i = i + 1;
    }
    proof {
        assert(trace@.steps =~= hash_round_steps(input));
        assert(trace@.inputs =~= seq![("input"@, input)]);
    }
    (current, trace)
}

} // verus!
