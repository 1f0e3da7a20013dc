//! Commands, captures and what is written about them.

use crate::control::commands::{command_text, field_index, CommandName, ParamValue, Params};
use crate::dump::{
    is_msg2_write, link_type_of, session_text, session_type_of, type_text, KeyLogRecord,
    SessionType,
};
use crate::instr::writer::{
    gauge_text, gauges_text, row_text, step_text, steps_text, writer_action, GaugeSample,
    StepSample, WriterAction, WriterEvent,
};
use crate::laws::text::decimal_spells_the_number;
use crate::text::{decimal, split, split_at_first, split_without};
use vstd::prelude::*;

verus! {

/// The first field of a name is the one that counts, and counts as what it holds.
pub proof fn first_field_counts(p: Params, key: Seq<char>, i: int)
    requires
        0 <= i < p.fields@.len(),
        p.fields@[i].0@ == key,
        forall|j: int| 0 <= j < i ==> (#[trigger] p.fields@[j]).0@ != key,
    ensures
        p.fields@[i].1 matches ParamValue::Text(s) ==> p.text(key) == Some(s@) && p.number(key)
            is None,
        p.fields@[i].1 matches ParamValue::Number(n) ==> p.number(key) == Some(n) && p.text(key)
            is None,
        p.fields@[i].1 is Other ==> p.text(key) is None && p.number(key) is None,
{
    found_at(p.fields@, key, i);
}

/// A name that no field has gives nothing.
pub proof fn missing_field_gives_nothing(p: Params, key: Seq<char>)
    requires
        forall|j: int| 0 <= j < p.fields@.len() ==> (#[trigger] p.fields@[j]).0@ != key,
    ensures
        p.text(key) is None,
        p.number(key) is None,
{
    found_at(p.fields@, key, p.fields@.len() as int);
}

proof fn found_at(fields: Seq<(String, ParamValue)>, key: Seq<char>, i: int)
    requires
        0 <= i <= fields.len(),
        i < fields.len() ==> fields[i].0@ == key,
        forall|j: int| 0 <= j < i ==> (#[trigger] fields[j]).0@ != key,
    ensures
        field_index(fields, key) == i,
    decreases fields.len(),
{
    if i > 0 {
        let rest = fields.skip(1);
        assert(fields[0].0@ != key);
        assert forall|j: int| 0 <= j < i - 1 implies (#[trigger] rest[j]).0@ != key by {
            assert(rest[j] == fields[j + 1]);
        }
        found_at(rest, key, i - 1);
    }
}

/// No two commands have one name.
pub proof fn command_names_differ(a: CommandName, b: CommandName)
    requires
        command_text(a) == command_text(b),
    ensures
        a == b,
{
    reveal_strlit("connect");
    reveal_strlit("disconnect");
    reveal_strlit("set_peer_policy");
    reveal_strlit("benchmark_echo");
    reveal_strlit("benchmark_throughput");
    reveal_strlit("show_benchmark_echo_results");
    reveal_strlit("show_benchmark_throughput_results");
    assert("connect"@.len() == 7 && "disconnect"@.len() == 10 && "set_peer_policy"@.len() == 15);
    assert("benchmark_echo"@.len() == 14 && "benchmark_throughput"@.len() == 20);
    assert("show_benchmark_echo_results"@.len() == 27);
    assert("show_benchmark_throughput_results"@.len() == 33);
}

/// A session message has its type at byte 36 of a datagram; in any other message
/// there is none, and a datagram that ends before is cut short.
pub proof fn session_type_stands_behind_the_header(payload: Seq<u8>, datagram_type: u8)
    requires
        payload.len() > 0,
    ensures
        payload[0] != datagram_type ==> session_type_of(payload, datagram_type)
            == SessionType::Absent,
        payload[0] == datagram_type && payload.len() >= 37 ==> session_type_of(
            payload,
            datagram_type,
        ) == SessionType::Known(payload[36]),
        payload[0] == datagram_type && payload.len() < 37 ==> session_type_of(
            payload,
            datagram_type,
        ) == SessionType::Truncated,
        link_type_of(payload) == payload[0],
        link_type_of(seq![]) == 0xff,
{
}

/// A type with a name is called by it, and one without by its byte.
pub proof fn types_are_called_by_name(name: String, byte: u8)
    ensures
        type_text(Some(name), byte) == name@,
        session_text(SessionType::Known(byte), Some(name)) == name@,
        session_text(SessionType::Absent, Some(name)).len() == 0,
        session_text(SessionType::Known(byte), None) == type_text(None, byte),
        type_text(None, byte).last() == ')',
        type_text(None, byte).len() == 13,
{
    reveal_strlit("Unknown(0x");
}

proof fn digits_hold_no_tab(n: nat)
    ensures
        !decimal(n).contains('\t'),
{
    decimal_spells_the_number(n);
    let s = decimal(n);
    if s.contains('\t') {
        let i = choose|i: int| 0 <= i < s.len() && s[i] == '\t';
        assert('0' as int <= s[i] as int);
    }
}

/// A row has eight columns between tabs, in their order: time, kind, domain, name,
/// count, largest, sum and unit.
pub proof fn rows_have_eight_columns(
    ts: u64,
    row: Seq<char>,
    domain: Seq<char>,
    name: Seq<char>,
    count: u64,
    max: nat,
    total: nat,
    unit: Seq<char>,
)
    requires
        !row.contains('\t'),
        !domain.contains('\t'),
        !name.contains('\t'),
        !unit.contains('\t'),
    ensures
        split(row_text(ts, row, domain, name, count, max as int, total as int, unit), '\t') == seq![
            decimal(ts as nat),
            row,
            domain,
            name,
            decimal(count as nat),
            decimal(max),
            decimal(total),
            unit.push('\n'),
        ],
{
    let last = unit.push('\n');
    assert(!last.contains('\t')) by {
        assert forall|i: int| 0 <= i < last.len() implies last[i] != '\t' by {
            if i < unit.len() {
                assert(unit.contains(unit[i]));
            }
        }
    }
    digits_hold_no_tab(ts as nat);
    digits_hold_no_tab(count as nat);
    digits_hold_no_tab(max);
    digits_hold_no_tab(total);
    let t6 = decimal(total).push('\t') + last;
    let t5 = decimal(max).push('\t') + t6;
    let t4 = decimal(count as nat).push('\t') + t5;
    let t3 = name.push('\t') + t4;
    let t2 = domain.push('\t') + t3;
    let t1 = row.push('\t') + t2;
    let t0 = decimal(ts as nat).push('\t') + t1;
    assert(row_text(ts, row, domain, name, count, max as int, total as int, unit) =~= t0);
    split_without(last, '\t');
    split_at_first(decimal(total), '\t', last);
    split_at_first(decimal(max), '\t', t6);
    split_at_first(decimal(count as nat), '\t', t5);
    split_at_first(name, '\t', t4);
    split_at_first(domain, '\t', t3);
    split_at_first(row, '\t', t2);
    split_at_first(decimal(ts as nat), '\t', t1);
    assert(split(t0, '\t') =~= seq![
        decimal(ts as nat),
        row,
        domain,
        name,
        decimal(count as nat),
        decimal(max),
        decimal(total),
        last,
    ]);
}

/// Durations are written in whole microseconds, other gauges as they are; a step
/// that is not to be shown leaves no row.
pub proof fn durations_are_written_in_microseconds(
    ts: u64,
    s: StepSample,
    domain: Seq<char>,
    g: GaugeSample,
    max: nat,
    total: nat,
)
    ensures
        !s.emitted ==> step_text(ts, s).len() == 0,
        s.emitted && max * 1000 <= s.max_ns < max * 1000 + 1000 && total * 1000 <= s.total_ns
            < total * 1000 + 1000 ==> step_text(ts, s) == row_text(
            ts,
            "step"@,
            s.domain@,
            s.name@,
            s.count,
            max as int,
            total as int,
            "us"@,
        ),
        g.is_duration && max * 1000 <= g.max < max * 1000 + 1000 && total * 1000 <= g.total < total
            * 1000 + 1000 ==> gauge_text(ts, domain, g) == row_text(
            ts,
            "gauge"@,
            domain,
            g.name@,
            g.count,
            max as int,
            total as int,
            g.unit@,
        ),
        !g.is_duration ==> gauge_text(ts, domain, g) == row_text(
            ts,
            "gauge"@,
            domain,
            g.name@,
            g.count,
            g.max as int,
            g.total as int,
            g.unit@,
        ),
{
}

/// Steps are written one behind the other: those of two lists in a row are those of
/// the first and then those of the second.
pub proof fn steps_are_written_in_order(ts: u64, a: Seq<StepSample>, b: Seq<StepSample>)
    ensures
        steps_text(ts, a + b) == steps_text(ts, a) + steps_text(ts, b),
        b.len() == 1 ==> steps_text(ts, b) == step_text(ts, b[0]),
    decreases b.len(),
{
    if b.len() > 0 {
        let h = b.drop_last();
        steps_are_written_in_order(ts, a, h);
        assert((a + b).drop_last() =~= a + h);
        assert((a + b).last() == b.last());
        assert(steps_text(ts, a + b) =~= steps_text(ts, a) + steps_text(ts, b));
        if b.len() == 1 {
            assert(steps_text(ts, h) =~= seq![]);
            assert(steps_text(ts, b) =~= step_text(ts, b[0]));
        }
    } else {
        assert(a + b =~= a);
        assert(steps_text(ts, b) =~= seq![]);
        assert(steps_text(ts, a) + steps_text(ts, b) =~= steps_text(ts, a));
    }
}

/// Gauges are written one behind the other as well.
pub proof fn gauges_are_written_in_order(
    ts: u64,
    domain: Seq<char>,
    a: Seq<GaugeSample>,
    b: Seq<GaugeSample>,
)
    ensures
        gauges_text(ts, domain, a + b) == gauges_text(ts, domain, a) + gauges_text(ts, domain, b),
        b.len() == 1 ==> gauges_text(ts, domain, b) == gauge_text(ts, domain, b[0]),
    decreases b.len(),
{
    if b.len() > 0 {
        let h = b.drop_last();
        gauges_are_written_in_order(ts, domain, a, h);
        assert((a + b).drop_last() =~= a + h);
        assert((a + b).last() == b.last());
        let (x, y, z) = (
            gauges_text(ts, domain, a),
            gauges_text(ts, domain, h),
            gauge_text(ts, domain, b.last()),
        );
        assert(x + y + z =~= x + (y + z));
        if b.len() == 1 {
            assert(y =~= seq![]);
            assert(y + z =~= z);
        }
    } else {
        assert(a + b =~= a);
        assert(gauges_text(ts, domain, b) =~= seq![]);
        assert(gauges_text(ts, domain, a) + gauges_text(ts, domain, b) =~= gauges_text(
            ts,
            domain,
            a,
        ));
    }
}

/// A writer goes on exactly while it is not stopped, what it wrote went out, and it
/// has written less than it may; a stop alone lets it write out what is left.
pub proof fn writer_ends_at_its_cap(bytes_written: u64, byte_cap: u64, written: bool)
    ensures
        writer_action(WriterEvent::Stop, bytes_written, byte_cap) == WriterAction::DrainAndEnd,
        writer_action(WriterEvent::Interval { written }, bytes_written, byte_cap)
            == WriterAction::Wait <==> written && bytes_written < byte_cap,
        writer_action(WriterEvent::Interval { written: false }, bytes_written, byte_cap)
            == WriterAction::EndOnError,
        bytes_written >= byte_cap ==> writer_action(
            WriterEvent::Interval { written: true },
            bytes_written,
            byte_cap,
        ) == WriterAction::EndAtCap,
{
}

/// A record tells of a second message that was written exactly if it says so.
pub proof fn records_tell_what_they_are(event: String)
    ensures
        is_msg2_write(KeyLogRecord { event: Some(event) }) <==> event@ == "ik_msg2_write"@,
        !is_msg2_write(KeyLogRecord { event: None }),
{
}

} // verus!
