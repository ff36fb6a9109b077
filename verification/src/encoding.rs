//! The canonical text of a trace: compact JSON with the fields in a fixed
//! order and the named values as they stand, which is in dictionary order
//! of their names. This is the form that the commitment is taken over.

use vstd::prelude::*;
use vstd::string::*;
use crate::text::{decimal_string, decimal_text, digit_text};
use crate::types::{NamedValues, ProofTrace, ProofTraceView, TraceStep, TraceStepView};

verus! {

/// How one character stands inside a JSON string literal: quote and
/// backslash behind a backslash, the five control characters that have a
/// short escape as that escape, every other character below the space as
/// `\u00` and two lower-case hex digits, and all else as it is.
pub open spec fn escaped_char(c: char) -> Seq<char> {
    if c == '"' {
        "\\\""@
    } else if c == '\\' {
        "\\\\"@
    } else if c == '\u{08}' {
        "\\b"@
    } else if c == '\t' {
        "\\t"@
    } else if c == '\n' {
        "\\n"@
    } else if c == '\u{0c}' {
        "\\f"@
    } else if c == '\r' {
        "\\r"@
    } else if (c as u32) < 0x20 {
        "\\u00"@ + digit_text((c as u32 / 16) as nat) + digit_text((c as u32 % 16) as nat)
    } else {
        seq![c]
    }
}

/// The characters of a text, each as it stands inside a JSON string
/// literal.
pub open spec fn escaped_text(s: Seq<char>) -> Seq<char>
    decreases s.len(),
{
    if s.len() == 0 {
        Seq::<char>::empty()
    } else {
        escaped_text(s.drop_last()) + escaped_char(s.last())
    }
}

/// The JSON string literal for a text: the escaped text between quotes.
pub open spec fn json_string_text(s: Seq<char>) -> Seq<char> {
    "\""@ + escaped_text(s) + "\""@
}

/// The parts in order, with `sep` between neighbours.
pub open spec fn joined(parts: Seq<Seq<char>>, sep: Seq<char>) -> Seq<char>
    decreases parts.len(),
{
    if parts.len() == 0 {
        Seq::<char>::empty()
    } else if parts.len() == 1 {
        parts[0]
    } else {
        joined(parts.drop_last(), sep) + sep + parts.last()
    }
}

/// How `joined` grows by one part.
pub proof fn lemma_joined_step(parts: Seq<Seq<char>>, sep: Seq<char>, i: int)
    requires
        0 <= i < parts.len(),
    ensures
        joined(parts.take(i + 1), sep) == if i == 0 {
            parts[0]
        } else {
            joined(parts.take(i), sep) + sep + parts[i]
        },
{
    let next = parts.take(i + 1);
    assert(next.drop_last() =~= parts.take(i));
    assert(next.last() == parts[i]);
    assert(next[0] == parts[0]);
}

/// The JSON object of a step around the already quoted operation label.
pub open spec fn step_frame(s: TraceStepView, quoted_operation: Seq<char>) -> Seq<char> {
    "{\"step\":"@ + decimal_text(s.step) + ",\"operation\":"@ + quoted_operation + ",\"input\":"@
        + decimal_text(s.input as nat) + ",\"output\":"@ + decimal_text(s.output as nat)
        + ",\"depth\":"@ + decimal_text(s.depth) + "}"@
}

/// The JSON object of a step.
pub open spec fn step_text(s: TraceStepView) -> Seq<char> {
    step_frame(s, json_string_text(s.operation))
}

/// The JSON member of a named value around the already quoted name.
pub open spec fn entry_frame(quoted_name: Seq<char>, value: u64) -> Seq<char> {
    quoted_name + ":"@ + decimal_text(value as nat)
}

/// The JSON member of a named value.
pub open spec fn entry_text(entry: (Seq<char>, u64)) -> Seq<char> {
    entry_frame(json_string_text(entry.0), entry.1)
}

/// The JSON objects of the steps, in order.
pub open spec fn step_texts(steps: Seq<TraceStepView>) -> Seq<Seq<char>> {
    Seq::new(steps.len(), |i: int| step_text(steps[i]))
}

/// The JSON members of the named values, in order.
pub open spec fn entry_texts(entries: Seq<(Seq<char>, u64)>) -> Seq<Seq<char>> {
    Seq::new(entries.len(), |i: int| entry_text(entries[i]))
}

/// The canonical text of a trace.
pub open spec fn trace_text(t: ProofTraceView) -> Seq<char> {
    "{\"steps\":["@ + joined(step_texts(t.steps), ","@) + "],\"inputs\":{"@ + joined(
        entry_texts(t.inputs),
        ","@,
    ) + "},\"outputs\":{"@ + joined(entry_texts(t.outputs), ","@) + "}}"@
}

/// Writes a text as a JSON string literal with `serde_json::to_string`.
/// Trusted: the result is `json_string_text` of the text, which writes out
/// the escape table of that function. Writing a string into memory has no
/// failure of its own; an error would give the empty text.
#[verifier::external_body]
fn json_quote(s: &str) -> (r: String)
    ensures
        r@ == json_string_text(s@),
{
    match serde_json::to_string(s) {
        Ok(quoted) => quoted,
        Err(_) => String::new(),
    }
}

/// Writes the JSON object of `step` around `quoted_operation`.
pub fn frame_step(step: &TraceStep, quoted_operation: &str) -> (r: String)
    ensures
        r@ == step_frame(step@, quoted_operation@),
{
    let mut s = String::from_str("{\"step\":");
    s.append(decimal_string(step.step as u64).as_str());
    s.append(",\"operation\":");
    s.append(quoted_operation);
    s.append(",\"input\":");
    s.append(decimal_string(step.input).as_str());
    s.append(",\"output\":");
    s.append(decimal_string(step.output).as_str());
    s.append(",\"depth\":");
    s.append(decimal_string(step.depth as u64).as_str());
    s.append("}");
    s
}

/// Writes the JSON member of a value around `quoted_name`.
pub fn frame_entry(quoted_name: &str, value: u64) -> (r: String)
    ensures
        r@ == entry_frame(quoted_name@, value),
{
    let mut s = String::from_str(quoted_name);
    s.append(":");
    s.append(decimal_string(value).as_str());
    s
}

fn append_part(body: &mut String, first: bool, part: &str)
    ensures
        final(body)@ == if first {
            old(body)@ + part@
        } else {
            old(body)@ + ","@ + part@
        },
{
    if !first {
        body.append(",");
    }
    body.append(part);
}

fn encode_steps(steps: &Vec<TraceStep>) -> (r: String)
    ensures
        r@ == joined(step_texts(crate::types::step_views(steps@)), ","@),
{
    let ghost parts = step_texts(crate::types::step_views(steps@));
    let mut body = String::new();
    let mut i: usize = 0;
    assert(parts.take(0) =~= Seq::<Seq<char>>::empty());
    while i < steps.len()
        invariant
            0 <= i <= steps.len(),
            parts == step_texts(crate::types::step_views(steps@)),
            body@ == joined(parts.take(i as int), ","@),
        decreases steps.len() - i,
    {
        let quoted = json_quote(steps[i].operation.as_str());
        let part = frame_step(&steps[i], quoted.as_str());
        proof {
            lemma_joined_step(parts, ","@, i as int);
            assert(parts[i as int] == part@);
            assert(Seq::<char>::empty() + part@ =~= part@);
        }
        append_part(&mut body, i == 0, part.as_str());
        i = i + 1;
    }
    assert(parts.take(steps.len() as int) =~= parts);
    body
}

fn encode_entries(values: &NamedValues) -> (r: String)
    ensures
        r@ == joined(entry_texts(values@), ","@),
{
    let ghost parts = entry_texts(values@);
    let mut body = String::new();
    let mut i: usize = 0;
    assert(parts.take(0) =~= Seq::<Seq<char>>::empty());
    while i < values.entries.len()
        invariant
            0 <= i <= values.entries.len(),
            parts == entry_texts(values@),
            body@ == joined(parts.take(i as int), ","@),
        decreases values.entries.len() - i,
    {
        let quoted = json_quote(values.entries[i].name.as_str());
        let part = frame_entry(quoted.as_str(), values.entries[i].value);
        proof {
            lemma_joined_step(parts, ","@, i as int);
            assert(parts[i as int] == part@);
            assert(Seq::<char>::empty() + part@ =~= part@);
        }
        append_part(&mut body, i == 0, part.as_str());
        i = i + 1;
    }
    assert(parts.take(values.entries.len() as int) =~= parts);
    body
}

/// Writes the canonical text of a trace. Equal traces give equal texts.
pub fn encode_trace(trace: &ProofTrace) -> (r: String)
    ensures
        r@ == trace_text(trace@),
{
    let mut s = String::from_str("{\"steps\":[");
    s.append(encode_steps(&trace.steps).as_str());
    s.append("],\"inputs\":{");
    s.append(encode_entries(&trace.inputs).as_str());
    s.append("},\"outputs\":{");
    s.append(encode_entries(&trace.outputs).as_str());
    s.append("}}");
    s
}

} // verus!
