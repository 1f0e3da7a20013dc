//! What the capture writer writes and when it stops.

use crate::text::{decimal, push_decimal};
use vstd::prelude::*;
use vstd::string::StringExecFns;

verus! {

/// What one step of a domain took during an interval.
pub struct StepSample {
    /// Domain.
    pub domain: String,
    /// Step.
    pub name: String,
    /// Whether this build has the step.
    pub emitted: bool,
    /// How often it ran.
    pub count: u64,
    /// Its longest run, in nanoseconds.
    pub max_ns: u64,
    /// All its runs, in nanoseconds.
    pub total_ns: u64,
}

/// What a gauge showed during an interval.
pub struct GaugeSample {
    /// Gauge.
    pub name: String,
    /// Whether it shows durations, in nanoseconds.
    pub is_duration: bool,
    /// Unit in the capture.
    pub unit: String,
    /// How often it was read.
    pub count: u64,
    /// Its largest reading.
    pub max: u64,
    /// The sum of its readings.
    pub total: u64,
}

/// A row of a capture.
pub open spec fn row_text(
    ts: u64,
    row: Seq<char>,
    domain: Seq<char>,
    name: Seq<char>,
    count: u64,
    max: int,
    total: int,
    unit: Seq<char>,
) -> Seq<char> {
    decimal(ts as nat) + seq!['\t'] + row + seq!['\t'] + domain + seq!['\t'] + name + seq!['\t']
        + decimal(count as nat) + seq!['\t'] + decimal(max as nat) + seq!['\t'] + decimal(
        total as nat,
    ) + seq!['\t'] + unit + seq!['\n']
}

/// Appends a row.
fn push_row(
    out: &mut String,
    ts: u64,
    row: &str,
    domain: &str,
    name: &str,
    count: u64,
    max: u64,
    total: u64,
    unit: &str,
)
    ensures
        final(out)@ == old(out)@ + row_text(
            ts,
            row@,
            domain@,
            name@,
            count,
            max as int,
            total as int,
            unit@,
        ),
{
    push_decimal(out, ts);
    out.push('\t');
    out.append(row);
    out.push('\t');
    out.append(domain);
    out.push('\t');
    out.append(name);
    out.push('\t');
    push_decimal(out, count);
    out.push('\t');
    push_decimal(out, max);
    out.push('\t');
    push_decimal(out, total);
    out.push('\t');
    out.append(unit);
    out.push('\n');
    assert(out@ =~= old(out)@ + row_text(
        ts,
        row@,
        domain@,
        name@,
        count,
        max as int,
        total as int,
        unit@,
    ));
}

/// The row of a step: durations are given in microseconds.
pub open spec fn step_text(ts: u64, s: StepSample) -> Seq<char> {
    if s.emitted {
        row_text(
            ts,
            "step"@,
            s.domain@,
            s.name@,
            s.count,
            s.max_ns as int / 1000,
            s.total_ns as int / 1000,
            "us"@,
        )
    } else {
        seq![]
    }
}

/// The row of a gauge: durations are given in microseconds.
pub open spec fn gauge_text(ts: u64, domain: Seq<char>, g: GaugeSample) -> Seq<char> {
    let scale: int = if g.is_duration {
        1000
    } else {
        1
    };
    row_text(
        ts,
        "gauge"@,
        domain,
        g.name@,
        g.count,
        g.max as int / scale,
        g.total as int / scale,
        g.unit@,
    )
}

/// The rows of some steps.
pub open spec fn steps_text(ts: u64, steps: Seq<StepSample>) -> Seq<char>
    decreases steps.len(),
{
    if steps.len() == 0 {
        seq![]
    } else {
        steps_text(ts, steps.drop_last()) + step_text(ts, steps.last())
    }
}

/// The rows of some gauges.
pub open spec fn gauges_text(ts: u64, domain: Seq<char>, gauges: Seq<GaugeSample>) -> Seq<char>
    decreases gauges.len(),
{
    if gauges.len() == 0 {
        seq![]
    } else {
        gauges_text(ts, domain, gauges.drop_last()) + gauge_text(ts, domain, gauges.last())
    }
}

/// Builds what is written for one interval: a row for every step that the build
/// has, also where it did not run, then the gauges.
pub fn flush(ts: u64, steps: &Vec<StepSample>, gauge_domain: &str, gauges: &Vec<GaugeSample>) -> (r:
    String)
    ensures
        r@ == steps_text(ts, steps@) + gauges_text(ts, gauge_domain@, gauges@),
{
    let mut out = String::new();
    let mut i: usize = 0;
    assert(steps@.take(0) =~= seq![]);
    while i < steps.len()
        invariant
            i <= steps.len(),
            out@ == steps_text(ts, steps@.take(i as int)),
        decreases steps.len() - i,
    {
        let s = &steps[i];
        assert(steps@.take(i + 1).drop_last() =~= steps@.take(i as int));
        let ghost before = out@;
        if s.emitted {
            push_row(
                &mut out,
                ts,
                "step",
                s.domain.as_str(),
                s.name.as_str(),
                s.count,
                s.max_ns / 1000,
                s.total_ns / 1000,
                "us",
            );
        }
        assert(out@ =~= before + step_text(ts, steps@[i as int]));
        i += 1;
    }
    assert(steps@.take(i as int) =~= steps@);
    let ghost head = out@;
    let mut k: usize = 0;
    assert(gauges@.take(0) =~= seq![]);
    assert(head + gauges_text(ts, gauge_domain@, gauges@.take(0)) =~= head);
    while k < gauges.len()
        invariant
            k <= gauges.len(),
            out@ == head + gauges_text(ts, gauge_domain@, gauges@.take(k as int)),
        decreases gauges.len() - k,
    {
        let g = &gauges[k];
        assert(gauges@.take(k + 1).drop_last() =~= gauges@.take(k as int));
        let scale: u64 = if g.is_duration {
            1000
        } else {
            1
        };
        let ghost before = out@;
        push_row(
            &mut out,
            ts,
            "gauge",
            gauge_domain,
            g.name.as_str(),
            g.count,
            g.max / scale,
            g.total / scale,
            g.unit.as_str(),
        );
        assert(out@ =~= before + gauge_text(ts, gauge_domain@, gauges@[k as int]));
        assert(out@ =~= head + gauges_text(ts, gauge_domain@, gauges@.take(k + 1)));
        k += 1;
    }
    assert(gauges@.take(k as int) =~= gauges@);
    out
}

/// Builds a trailer line.
pub fn note(text: &str) -> (r: String)
    ensures
        r@ == seq!['#', ' '] + text@ + seq!['\n'],
{
    let mut line = String::from_str("# ");
    proof {
        reveal_strlit("# ");
        assert("# "@ =~= seq!['#', ' ']);
    }
    line.append(text);
    line.push('\n');
    assert(line@ =~= seq!['#', ' '] + text@ + seq!['\n']);
    line
}

/// What woke the writer.
#[derive(Clone, Copy, Debug, PartialEq, Eq, Structural)]
pub enum WriterEvent {
    /// It is to stop, or its owner is gone.
    Stop,
    /// An interval is over, and its rows were written or not.
    Interval {
        /// Whether they were.
        written: bool,
    },
}

/// What the writer does.
#[derive(Clone, Copy, Debug, PartialEq, Eq, Structural)]
pub enum WriterAction {
    /// Write what is left and end.
    DrainAndEnd,
    /// Wait for the next interval.
    Wait,
    /// Note a write error and end.
    EndOnError,
    /// Note that the capture is as large as allowed and end.
    EndAtCap,
}

/// What an event calls for: a stop drains, an error ends, and so does reaching the
/// cap.
pub open spec fn writer_action(event: WriterEvent, bytes_written: u64, byte_cap: u64) -> WriterAction {
    match event {
        WriterEvent::Stop => WriterAction::DrainAndEnd,
        WriterEvent::Interval { written } => if !written {
            WriterAction::EndOnError
        } else if bytes_written >= byte_cap {
            WriterAction::EndAtCap
        } else {
            WriterAction::Wait
        },
    }
}

/// Decides what the writer does, given the size of the capture so far.
pub fn writer_step(event: WriterEvent, bytes_written: u64, byte_cap: u64) -> (r: WriterAction)
    ensures
        r == writer_action(event, bytes_written, byte_cap),
{
    match event {
        WriterEvent::Stop => WriterAction::DrainAndEnd,
        WriterEvent::Interval { written } => if !written {
            WriterAction::EndOnError
        } else if bytes_written >= byte_cap {
            WriterAction::EndAtCap
        } else {
            WriterAction::Wait
        },
    }
}

/// Builds the note on a capture that is as large as allowed.
pub fn cap_note(byte_cap: u64) -> (r: String)
    ensures
        r@ == "capture stopped: byte cap "@ + decimal(byte_cap as nat) + " reached"@,
{
    let mut text = String::from_str("capture stopped: byte cap ");
    push_decimal(&mut text, byte_cap);
    text.append(" reached");
    text
}

} // verus!
