//! The data model: trace steps and traces, proofs, and verification results,
//! each with the mathematical value that contracts speak of.

use std::time::{Duration, SystemTime, SystemTimeError, UNIX_EPOCH};
use vstd::prelude::*;
use vstd::string::*;
use crate::text::{
    lemma_text_before_asymmetric,
    lemma_text_before_irreflexive,
    lemma_text_before_transitive,
    same_text,
    text_before,
    text_order,
    TextOrder,
};

verus! {

/// The views of a sequence of strings, in order.
pub open spec fn texts(v: Seq<String>) -> Seq<Seq<char>> {
    Seq::new(v.len(), |i: int| v[i]@)
}

/// One step of a computation, as recorded by whoever ran it.
#[derive(Debug)]
pub struct TraceStep {
    pub step: usize,
    pub operation: String,
    pub input: u64,
    pub output: u64,
    pub depth: usize,
}

/// The value of a `TraceStep`.
pub ghost struct TraceStepView {
    pub step: nat,
    pub operation: Seq<char>,
    pub input: u64,
    pub output: u64,
    pub depth: nat,
}

impl View for TraceStep {
    type V = TraceStepView;

    open spec fn view(&self) -> TraceStepView {
        TraceStepView {
            step: self.step as nat,
            operation: self.operation@,
            input: self.input,
            output: self.output,
            depth: self.depth as nat,
        }
    }
}

impl Clone for TraceStep {
    fn clone(&self) -> (r: Self)
        ensures
            r@ == self@,
    {
        TraceStep {
            step: self.step,
            operation: self.operation.clone(),
            input: self.input,
            output: self.output,
            depth: self.depth,
        }
    }
}

/// The values of a sequence of steps, in order.
pub open spec fn step_views(steps: Seq<TraceStep>) -> Seq<TraceStepView> {
    Seq::new(steps.len(), |i: int| steps[i]@)
}

/// A value under a name.
#[derive(Debug, Clone)]
pub struct NamedValue {
    pub name: String,
    pub value: u64,
}

/// `i` is the first position in `entries` that carries `name`.
pub open spec fn is_first_index(entries: Seq<(Seq<char>, u64)>, name: Seq<char>, i: int) -> bool {
    &&& 0 <= i < entries.len()
    &&& entries[i].0 == name
    &&& forall|j: int| 0 <= j < i ==> (#[trigger] entries[j]).0 != name
}

/// Some entry carries `name`.
pub open spec fn has_name(entries: Seq<(Seq<char>, u64)>, name: Seq<char>) -> bool {
    exists|i: int| 0 <= i < entries.len() && (#[trigger] entries[i]).0 == name
}

/// The names stand in dictionary order, each before the next; so no name
/// occurs twice.
pub open spec fn name_sorted(entries: Seq<(Seq<char>, u64)>) -> bool {
    forall|i: int, j: int|
        0 <= i < j < entries.len() ==> text_before(
            (#[trigger] entries[i]).0,
            (#[trigger] entries[j]).0,
        )
}

/// `i` is the place of `name` in `entries`: every name before it comes
/// before `name`, and the entry at `i`, if there is one, carries `name` or
/// a name that comes after it.
pub open spec fn is_slot(entries: Seq<(Seq<char>, u64)>, name: Seq<char>, i: int) -> bool {
    &&& 0 <= i <= entries.len()
    &&& forall|j: int| 0 <= j < i ==> text_before((#[trigger] entries[j]).0, name)
    &&& i < entries.len() ==> entries[i].0 == name || text_before(name, entries[i].0)
}

/// `entries` with `value` put under `name` at its place `i`: over the entry
/// that carries the name, or else in between.
pub open spec fn placed(entries: Seq<(Seq<char>, u64)>, i: int, name: Seq<char>, value: u64) -> Seq<
    (Seq<char>, u64),
> {
    if i < entries.len() && entries[i].0 == name {
        entries.update(i, (name, value))
    } else {
        entries.insert(i, (name, value))
    }
}

/// The two hold the same pairs of name and value.
pub open spec fn same_pairs(a: Seq<(Seq<char>, u64)>, b: Seq<(Seq<char>, u64)>) -> bool {
    forall|e: (Seq<char>, u64)| a.contains(e) <==> b.contains(e)
}

/// Putting a value under a name at its place keeps the names in order.
pub proof fn lemma_placed_sorted(entries: Seq<(Seq<char>, u64)>, i: int, name: Seq<char>, value: u64)
    requires
        name_sorted(entries),
        is_slot(entries, name, i),
    ensures
        name_sorted(placed(entries, i, name, value)),
{
    let after = placed(entries, i, name, value);
    if i < entries.len() && entries[i].0 == name {
        assert forall|x: int, y: int| 0 <= x < y < after.len() implies text_before(
            (#[trigger] after[x]).0,
            (#[trigger] after[y]).0,
        ) by {
            assert(after[x].0 == entries[x].0);
            assert(after[y].0 == entries[y].0);
        }
    } else {
        assert forall|x: int, y: int| 0 <= x < y < after.len() implies text_before(
            (#[trigger] after[x]).0,
            (#[trigger] after[y]).0,
        ) by {
            if y < i {
                assert(after[x] == entries[x] && after[y] == entries[y]);
            } else if y == i {
                assert(after[x] == entries[x]);
            } else if x < i {
                assert(after[x] == entries[x] && after[y] == entries[y - 1]);
            } else if x == i {
                assert(after[y] == entries[y - 1]);
                if y - 1 > i {
                    assert(text_before(entries[i].0, entries[y - 1].0));
                    lemma_text_before_transitive(name, entries[i].0, entries[y - 1].0);
                }
            } else {
                assert(after[x] == entries[x - 1] && after[y] == entries[y - 1]);
            }
        }
    }
}

/// `after` holds the pair of `name` and `value`, and the pairs of `before`
/// under other names, and no more: `before` as a mapping, with `value` put
/// under `name`.
pub open spec fn pairs_after_set(
    after: Seq<(Seq<char>, u64)>,
    before: Seq<(Seq<char>, u64)>,
    name: Seq<char>,
    value: u64,
) -> bool {
    forall|e: (Seq<char>, u64)|
        after.contains(e) <==> (e == (name, value) || (before.contains(e) && e.0 != name))
}

/// Putting a value under a name at its place, among names in order, gives
/// the pairs that were there under other names, and the new pair.
pub proof fn lemma_placed_pairs(entries: Seq<(Seq<char>, u64)>, i: int, name: Seq<char>, value: u64)
    requires
        name_sorted(entries),
        is_slot(entries, name, i),
    ensures
        pairs_after_set(placed(entries, i, name, value), entries, name, value),
{
    let after = placed(entries, i, name, value);
    let replaced = i < entries.len() && entries[i].0 == name;
    lemma_text_before_irreflexive(name);
    assert forall|e: (Seq<char>, u64)| after.contains(e) implies (e == (name, value) || (
    entries.contains(e) && e.0 != name)) by {
        let k = choose|k: int| 0 <= k < after.len() && after[k] == e;
        if k != i {
            let from = if replaced || k < i {
                k
            } else {
                k - 1
            };
            assert(entries[from] == e);
            if from < i {
                assert(text_before(entries[from].0, name));
            } else if from > i {
                assert(text_before(entries[i].0, entries[from].0));
            } else {
                assert(text_before(name, entries[i].0));
            }
        }
    }
    assert forall|e: (Seq<char>, u64)|
        (e == (name, value) || (entries.contains(e) && e.0 != name)) implies after.contains(e) by {
        if e == (name, value) {
            assert(after[i] == e);
        } else {
            let k = choose|k: int| 0 <= k < entries.len() && entries[k] == e;
            let to = if replaced || k < i {
                k
            } else {
                k + 1
            };
            assert(after[to] == e);
        }
    }
}

proof fn lemma_same_pairs_without_last(a: Seq<(Seq<char>, u64)>, b: Seq<(Seq<char>, u64)>)
    requires
        name_sorted(a),
        same_pairs(a, b),
        a.len() > 0,
        b.len() > 0,
        a.last() == b.last(),
    ensures
        forall|e: (Seq<char>, u64)| a.drop_last().contains(e) ==> b.drop_last().contains(e),
{
    assert forall|e: (Seq<char>, u64)| a.drop_last().contains(e) implies b.drop_last().contains(
        e,
    ) by {
        let k = choose|k: int| 0 <= k < a.drop_last().len() && a.drop_last()[k] == e;
        assert(a[k] == e);
        assert(a.contains(e));
        assert(b.contains(e));
        let m = choose|m: int| 0 <= m < b.len() && b[m] == e;
        if m == b.len() - 1 {
            assert(text_before(a[k].0, a[a.len() - 1].0));
            lemma_text_before_irreflexive(e.0);
        }
        assert(b.drop_last()[m] == e);
    }
}

/// Two sequences with their names in order that hold the same pairs are the
/// same sequence: the order of the names leaves one way to write a mapping.
pub proof fn lemma_sorted_entries_unique(a: Seq<(Seq<char>, u64)>, b: Seq<(Seq<char>, u64)>)
    requires
        name_sorted(a),
        name_sorted(b),
        same_pairs(a, b),
    ensures
        a == b,
    decreases a.len(),
{
    if a.len() == 0 || b.len() == 0 {
        if a.len() > 0 {
            assert(a.contains(a[0]));
        }
        if b.len() > 0 {
            assert(b.contains(b[0]));
        }
        assert(a =~= b);
    } else {
        let x = a.last();
        let y = b.last();
        assert(a.contains(x));
        assert(b.contains(y));
        let j = choose|j: int| 0 <= j < b.len() && b[j] == x;
        let i = choose|i: int| 0 <= i < a.len() && a[i] == y;
        if i < a.len() - 1 && j < b.len() - 1 {
            assert(text_before(a[i].0, a[a.len() - 1].0));
            assert(text_before(b[j].0, b[b.len() - 1].0));
            lemma_text_before_asymmetric(x.0, y.0);
        }
        assert(x == y);
        lemma_same_pairs_without_last(a, b);
        lemma_same_pairs_without_last(b, a);
        let a0 = a.drop_last();
        let b0 = b.drop_last();
        assert(name_sorted(a0)) by {
            assert forall|p: int, q: int| 0 <= p < q < a0.len() implies text_before(
                (#[trigger] a0[p]).0,
                (#[trigger] a0[q]).0,
            ) by {
                assert(a0[p] == a[p] && a0[q] == a[q]);
            }
        }
        assert(name_sorted(b0)) by {
            assert forall|p: int, q: int| 0 <= p < q < b0.len() implies text_before(
                (#[trigger] b0[p]).0,
                (#[trigger] b0[q]).0,
            ) by {
                assert(b0[p] == b[p] && b0[q] == b[q]);
            }
        }
        lemma_sorted_entries_unique(a0, b0);
        assert(a =~= a0.push(x));
        assert(b =~= b0.push(y));
    }
}

/// A mapping from names to values that keeps its names in dictionary
/// order, so that a mapping has one textual form however it was filled.
#[derive(Debug, Clone)]
pub struct NamedValues {
    pub entries: Vec<NamedValue>,
}

impl View for NamedValues {
    type V = Seq<(Seq<char>, u64)>;

    open spec fn view(&self) -> Seq<(Seq<char>, u64)> {
        Seq::new(self.entries@.len(), |i: int| (self.entries@[i].name@, self.entries@[i].value))
    }
}

impl NamedValues {
    /// The empty mapping.
    pub fn new() -> (r: Self)
        ensures
            r@ == Seq::<(Seq<char>, u64)>::empty(),
    {
        let r = NamedValues { entries: Vec::new() };
        assert(r@ =~= Seq::<(Seq<char>, u64)>::empty());
        r
    }

    /// Number of names.
    pub fn len(&self) -> (n: usize)
        ensures
            n == self@.len(),
    {
        self.entries.len()
    }

    /// Whether there is no name at all.
    pub fn is_empty(&self) -> (b: bool)
        ensures
            b == (self@.len() == 0),
    {
        self.entries.len() == 0
    }

    fn position(&self, name: &str) -> (r: Option<usize>)
        ensures
            match r {
                Some(i) => is_first_index(self@, name@, i as int),
                None => !has_name(self@, name@),
            },
    {
        let mut i: usize = 0;
        while i < self.entries.len()
            invariant
                0 <= i <= self.entries.len(),
                forall|j: int| 0 <= j < i ==> (#[trigger] self@[j]).0 != name@,
            decreases self.entries.len() - i,
        {
            if same_text(self.entries[i].name.as_str(), name) {
                return Some(i);
            }
            i = i + 1;
        }
        None
    }

    /// The value under `name`, if the name is there.
    pub fn get(&self, name: &str) -> (r: Option<&u64>)
        ensures
            match r {
                Some(v) => exists|i: int| is_first_index(self@, name@, i) && self@[i].1 == *v,
                None => !has_name(self@, name@),
            },
    {
        match self.position(name) {
            Some(i) => {
                assert(is_first_index(self@, name@, i as int) && self@[i as int].1
                    == self.entries[i as int].value);
                Some(&self.entries[i].value)
            },
            None => None,
        }
    }

    fn slot(&self, name: &str) -> (r: (usize, bool))
        ensures
            is_slot(self@, name@, r.0 as int),
            r.1 == (r.0 < self@.len() && self@[r.0 as int].0 == name@),
    {
        let mut i: usize = 0;
        while i < self.entries.len()
            invariant
                0 <= i <= self.entries.len(),
                forall|j: int| 0 <= j < i ==> text_before((#[trigger] self@[j]).0, name@),
            decreases self.entries.len() - i,
        {
            match text_order(self.entries[i].name.as_str(), name) {
                TextOrder::Before => {
                    i = i + 1;
                },
                TextOrder::Same => {
                    return (i, true);
                },
                TextOrder::After => {
                    proof {
                        lemma_text_before_irreflexive(name@);
                    }
                    return (i, false);
                },
            }
        }
        (i, false)
    }

    /// Puts `value` under `name` at the name's place in dictionary order:
    /// over the old value where the name is there already, in between
    /// where it is new. Names in order stay in order.
    pub fn set(&mut self, name: &str, value: u64)
        ensures
            exists|i: int|
                #[trigger] is_slot(old(self)@, name@, i) && final(self)@ == placed(
                    old(self)@,
                    i,
                    name@,
                    value,
                ),
            name_sorted(old(self)@) ==> name_sorted(final(self)@),
            name_sorted(old(self)@) ==> pairs_after_set(final(self)@, old(self)@, name@, value),
    {
        let ghost before = self@;
        let entry = NamedValue { name: String::from_str(name), value };
        let (i, same) = self.slot(name);
        if same {
            self.entries.set(i, entry);
            assert(self@ =~= before.update(i as int, (name@, value)));
        } else {
            self.entries.insert(i, entry);
            assert(self@ =~= before.insert(i as int, (name@, value)));
        }
        proof {
            assert(is_slot(before, name@, i as int) && self@ == placed(
                before,
                i as int,
                name@,
                value,
            ));
            if name_sorted(before) {
                lemma_placed_sorted(before, i as int, name@, value);
                lemma_placed_pairs(before, i as int, name@, value);
            }
        }
    }
}

/// The record of one run of a computation: its steps in the order in which
/// they were taken, and its named inputs and outputs.
#[derive(Debug, Clone)]
pub struct ProofTrace {
    pub steps: Vec<TraceStep>,
    pub inputs: NamedValues,
    pub outputs: NamedValues,
}

/// The value of a `ProofTrace`.
pub ghost struct ProofTraceView {
    pub steps: Seq<TraceStepView>,
    pub inputs: Seq<(Seq<char>, u64)>,
    pub outputs: Seq<(Seq<char>, u64)>,
}

impl ProofTraceView {
    /// The input names and the output names stand in dictionary order.
    pub open spec fn names_in_order(self) -> bool {
        name_sorted(self.inputs) && name_sorted(self.outputs)
    }

    /// The steps are numbered from zero in the order in which they stand,
    /// and the input names and the output names stand in dictionary order.
    pub open spec fn well_formed(self) -> bool {
        &&& forall|i: int| 0 <= i < self.steps.len() ==> (#[trigger] self.steps[i]).step == i
        &&& name_sorted(self.inputs)
        &&& name_sorted(self.outputs)
    }
}

/// The two traces have the same steps and, as mappings, the same inputs and
/// the same outputs.
pub open spec fn same_content(a: ProofTraceView, b: ProofTraceView) -> bool {
    &&& a.steps == b.steps
    &&& same_pairs(a.inputs, b.inputs)
    &&& same_pairs(a.outputs, b.outputs)
}

impl View for ProofTrace {
    type V = ProofTraceView;

    open spec fn view(&self) -> ProofTraceView {
        ProofTraceView {
            steps: step_views(self.steps@),
            inputs: self.inputs@,
            outputs: self.outputs@,
        }
    }
}

impl ProofTrace {
    /// A trace with no steps, inputs or outputs.
    pub fn new() -> (r: Self)
        ensures
            r@.steps == Seq::<TraceStepView>::empty(),
            r@.inputs == Seq::<(Seq<char>, u64)>::empty(),
            r@.outputs == Seq::<(Seq<char>, u64)>::empty(),
            r@.well_formed(),
    {
        let r = ProofTrace { steps: Vec::new(), inputs: NamedValues::new(), outputs: NamedValues::new() };
        assert(r@.steps =~= Seq::<TraceStepView>::empty());
        r
    }

    /// Appends a step. The trace stays well formed where the step carries
    /// the next number.
    pub fn add_step(&mut self, step: TraceStep)
        ensures
            final(self)@.steps == old(self)@.steps.push(step@),
            final(self)@.inputs == old(self)@.inputs,
            final(self)@.outputs == old(self)@.outputs,
            old(self)@.well_formed() && step@.step == old(self)@.steps.len()
                ==> final(self)@.well_formed(),
    {
        self.steps.push(step);
        assert(self@.steps =~= old(self)@.steps.push(step@));
    }

    /// Sets the input called `name`.
    pub fn set_input(&mut self, name: &str, value: u64)
        ensures
            exists|i: int|
                #[trigger] is_slot(old(self)@.inputs, name@, i) && final(self)@.inputs == placed(
                    old(self)@.inputs,
                    i,
                    name@,
                    value,
                ),
            name_sorted(old(self)@.inputs) ==> name_sorted(final(self)@.inputs),
            name_sorted(old(self)@.inputs) ==> pairs_after_set(
                final(self)@.inputs,
                old(self)@.inputs,
                name@,
                value,
            ),
            final(self)@.steps == old(self)@.steps,
            final(self)@.outputs == old(self)@.outputs,
            old(self)@.well_formed() ==> final(self)@.well_formed(),
    {
        let ghost before = self@.inputs;
        self.inputs.set(name, value);
        proof {
            let i = choose|i: int|
                #[trigger] is_slot(before, name@, i) && self@.inputs == placed(
                    before,
                    i,
                    name@,
                    value,
                );
            assert(is_slot(old(self)@.inputs, name@, i));
        }
    }

    /// Sets the output called `name`.
    pub fn set_output(&mut self, name: &str, value: u64)
        ensures
            exists|i: int|
                #[trigger] is_slot(old(self)@.outputs, name@, i) && final(self)@.outputs == placed(
                    old(self)@.outputs,
                    i,
                    name@,
                    value,
                ),
            name_sorted(old(self)@.outputs) ==> name_sorted(final(self)@.outputs),
            name_sorted(old(self)@.outputs) ==> pairs_after_set(
                final(self)@.outputs,
                old(self)@.outputs,
                name@,
                value,
            ),
            final(self)@.steps == old(self)@.steps,
            final(self)@.inputs == old(self)@.inputs,
            old(self)@.well_formed() ==> final(self)@.well_formed(),
    {
        let ghost before = self@.outputs;
        self.outputs.set(name, value);
        proof {
            let i = choose|i: int|
                #[trigger] is_slot(before, name@, i) && self@.outputs == placed(
                    before,
                    i,
                    name@,
                    value,
                );
            assert(is_slot(old(self)@.outputs, name@, i));
        }
    }
}

impl Default for ProofTrace {
    fn default() -> (r: Self)
        ensures
            r@.steps == Seq::<TraceStepView>::empty(),
            r@.inputs == Seq::<(Seq<char>, u64)>::empty(),
            r@.outputs == Seq::<(Seq<char>, u64)>::empty(),
    {
        ProofTrace::new()
    }
}

/// What the prover hands out and the verifier reads.
#[derive(Debug, Clone)]
pub struct Proof {
    pub version: String,
    pub computation: String,
    pub result: u64,
    pub trace_commitment: String,
    pub constraint_evaluations: Vec<u64>,
    pub challenge: String,
    pub fri_layers: Vec<String>,
    pub timestamp: u64,
    pub security_bits: u32,
}

/// The value of a `Proof`.
pub ghost struct ProofView {
    pub version: Seq<char>,
    pub computation: Seq<char>,
    pub result: u64,
    pub trace_commitment: Seq<char>,
    pub constraint_evaluations: Seq<u64>,
    pub challenge: Seq<char>,
    pub fri_layers: Seq<Seq<char>>,
    pub timestamp: u64,
    pub security_bits: u32,
}

impl View for Proof {
    type V = ProofView;

    open spec fn view(&self) -> ProofView {
        ProofView {
            version: self.version@,
            computation: self.computation@,
            result: self.result,
            trace_commitment: self.trace_commitment@,
            constraint_evaluations: self.constraint_evaluations@,
            challenge: self.challenge@,
            fri_layers: texts(self.fri_layers@),
            timestamp: self.timestamp,
            security_bits: self.security_bits,
        }
    }
}

/// A point in time as the system clock gives it.
#[verifier::external_type_specification]
#[verifier::external_body]
pub struct ExSystemTime(SystemTime);

/// The error for a point in time that lies before the one it is measured
/// from.
#[verifier::external_type_specification]
#[verifier::external_body]
pub struct ExSystemTimeError(SystemTimeError);

/// `SystemTime::now` reads the system clock. Nothing is claimed of the
/// outcome.
pub assume_specification[ SystemTime::now ]() -> (r: SystemTime);

/// Measures the time from the start of 1970 to `now` with
/// `SystemTime::duration_since`, which fails where `now` lies before it.
/// Trusted, and nothing is claimed of the outcome.
#[verifier::external_body]
fn since_epoch(now: SystemTime) -> (r: Result<Duration, SystemTimeError>) {
    now.duration_since(UNIX_EPOCH)
}

/// `Duration::as_secs` gives the whole seconds of a duration. Nothing is
/// claimed of the outcome.
pub assume_specification[ Duration::as_secs ](d: &Duration) -> (r: u64);

/// The whole seconds since the start of 1970 by the system clock, zero for
/// a clock set before that.
pub fn epoch_seconds() -> (r: u64) {
    match since_epoch(SystemTime::now()) {
        Ok(d) => d.as_secs(),
        Err(_) => 0,
    }
}

impl Proof {
    /// Assembles a proof in format version `1.0` with the given timestamp.
    pub fn with_timestamp(
        computation: &str,
        result: u64,
        trace_commitment: String,
        constraint_evaluations: Vec<u64>,
        challenge: String,
        fri_layers: Vec<String>,
        security_bits: u32,
        timestamp: u64,
    ) -> (r: Self)
        ensures
            r@ == (ProofView {
                version: "1.0"@,
                computation: computation@,
                result,
                trace_commitment: trace_commitment@,
                constraint_evaluations: constraint_evaluations@,
                challenge: challenge@,
                fri_layers: texts(fri_layers@),
                timestamp,
                security_bits,
            }),
    {
        Proof {
            version: String::from_str("1.0"),
            computation: String::from_str(computation),
            result,
            trace_commitment,
            constraint_evaluations,
            challenge,
            fri_layers,
            timestamp,
            security_bits,
        }
    }

    /// Assembles a proof in format version `1.0`, stamped with the current
    /// time. The timestamp is informational: nothing binds it.
    pub fn new(
        computation: &str,
        result: u64,
        trace_commitment: String,
        constraint_evaluations: Vec<u64>,
        challenge: String,
        fri_layers: Vec<String>,
        security_bits: u32,
    ) -> (r: Self)
        ensures
            r@ == (ProofView {
                version: "1.0"@,
                computation: computation@,
                result,
                trace_commitment: trace_commitment@,
                constraint_evaluations: constraint_evaluations@,
                challenge: challenge@,
                fri_layers: texts(fri_layers@),
                timestamp: r.timestamp,
                security_bits,
            }),
    {
        Proof::with_timestamp(
            computation,
            result,
            trace_commitment,
            constraint_evaluations,
            challenge,
            fri_layers,
            security_bits,
            epoch_seconds(),
        )
    }
}

/// The outcome of verifying one proof.
#[derive(Debug, Clone)]
pub struct VerificationResult {
    pub valid: bool,
    pub message: String,
    pub checks_passed: Vec<String>,
    pub checks_failed: Vec<String>,
}

/// The value of a `VerificationResult`.
pub ghost struct VerificationResultView {
    pub valid: bool,
    pub message: Seq<char>,
    pub checks_passed: Seq<Seq<char>>,
    pub checks_failed: Seq<Seq<char>>,
}

impl View for VerificationResult {
    type V = VerificationResultView;

    open spec fn view(&self) -> VerificationResultView {
        VerificationResultView {
            valid: self.valid,
            message: self.message@,
            checks_passed: texts(self.checks_passed@),
            checks_failed: texts(self.checks_failed@),
        }
    }
}

impl VerificationResult {
    /// A result that accepts: the given checks passed and none failed.
    pub fn valid(message: &str, checks_passed: Vec<String>) -> (r: Self)
        ensures
            r@ == (VerificationResultView {
                valid: true,
                message: message@,
                checks_passed: texts(checks_passed@),
                checks_failed: Seq::<Seq<char>>::empty(),
            }),
    {
        let r = VerificationResult {
            valid: true,
            message: String::from_str(message),
            checks_passed,
            checks_failed: Vec::new(),
        };
        assert(r@.checks_failed =~= Seq::<Seq<char>>::empty());
        r
    }

    /// A result that rejects: the given checks failed and none is recorded
    /// as passed.
    pub fn invalid(message: &str, checks_failed: Vec<String>) -> (r: Self)
        ensures
            r@ == (VerificationResultView {
                valid: false,
                message: message@,
                checks_passed: Seq::<Seq<char>>::empty(),
                checks_failed: texts(checks_failed@),
            }),
    {
        let r = VerificationResult {
            valid: false,
            message: String::from_str(message),
            checks_passed: Vec::new(),
            checks_failed,
        };
        assert(r@.checks_passed =~= Seq::<Seq<char>>::empty());
        r
    }
}

} // verus!
