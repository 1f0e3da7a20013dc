//! BLE links: admission, sending, pauses, and what is read over GATT.

use crate::identity::NodeAddr;
use crate::transport::ble::addr::{ble_addr_round_trip, BleAddr, BleAddrKind};
use crate::transport::ble::backoff::{jitter_seed, mix, BackoffModel};
use crate::transport::ble::capabilities::PeerCapabilities;
use crate::transport::ble::io::{
    advertises_psm, own_kind, psm_of, tries_again, unframes, PsmError, StartupError,
};
use crate::transport::ble::link::{
    admitted, mtu_of, plans_connection, restart_pause, send_step, step_after_dial, step_inbound, DialOutcome,
    DialStep, InboundStep, PoolOutcome, SendStep,
};
use crate::transport::ble::peering::{
    not_connected, on_device, settles_inbound, ExchangeOutcome, ProbeModel, PubkeyExchangeResult,
};
use crate::transport::ble::table::AddrKey;
use crate::transport::{TransportAddr, TransportError};
use vstd::prelude::*;
use vstd::utf8::{decode_utf8, valid_utf8};

verus! {

/// A pool takes a connection while it holds fewer than it may; a full one makes room
/// for a configured peer alone, and only at the cost of a discovered one.
pub proof fn full_pool_makes_room_for_configured_peers(
    held: usize,
    max: usize,
    configured: bool,
    holds_discovered: bool,
)
    ensures
        held < max <==> admitted(held, max, configured, holds_discovered)
            == PoolOutcome::Inserted,
        held >= max && configured && holds_discovered ==> admitted(
            held,
            max,
            configured,
            holds_discovered,
        ) == PoolOutcome::Evicted,
        held >= max && !configured ==> admitted(held, max, configured, holds_discovered)
            == PoolOutcome::Full,
        held >= max && !holds_discovered ==> admitted(held, max, configured, holds_discovered)
            == PoolOutcome::Full,
{
}

/// Pauses between restarts start at two seconds and double with every failure until
/// a minute; a restart that works starts over.
pub proof fn restart_pauses_double(last_secs: u64)
    ensures
        restart_pause(last_secs, true) == 2,
        last_secs < 30 ==> restart_pause(last_secs, false) == last_secs + last_secs,
        last_secs >= 30 ==> restart_pause(last_secs, false) == 60,
{
}

/// What can be sent over a link is what its connection says; before there is one, it
/// is what is configured without the two bytes that go in front of every frame.
pub proof fn prefix_is_taken_off_the_mtu(mtu: u16, configured: u16)
    ensures
        mtu_of(Some(mtu), configured) == mtu,
        configured >= 2 ==> mtu_of(None, configured) + 2 == configured,
        configured < 2 ==> mtu_of(None, configured) == 0,
{
}

/// Nothing is sent without a connection or beyond its limit; what is sent is counted
/// if it went out, and the connection dropped if it did not.
pub proof fn sending_needs_a_connection_that_fits(fits: bool, sent: Option<bool>)
    ensures
        send_step(false, fits, sent) == SendStep::Dial,
        send_step(true, false, sent) == SendStep::CountOversized,
        send_step(true, true, None) == SendStep::Transmit,
        send_step(true, true, Some(true)) == SendStep::CountSent,
        send_step(true, true, Some(false)) == SendStep::DropAndReport,
{
}

/// A denied device is refused before anything else, a second connection of a device
/// next; keys are exchanged only where we have one, and both ways only where the
/// link allows it.
pub proof fn denial_goes_first(in_pool: bool, has_pubkey: bool, bidirectional: bool)
    ensures
        step_inbound(true, in_pool, has_pubkey, bidirectional) == InboundStep::Denied,
        step_inbound(false, true, has_pubkey, bidirectional) == InboundStep::Duplicate,
        step_inbound(false, false, false, bidirectional) == InboundStep::Register,
        step_inbound(false, false, true, true) == InboundStep::Exchange,
        step_inbound(false, false, true, false) == InboundStep::Announce,
{
}

/// A dial that worked is used, and one that did not is given up, whatever we have.
pub proof fn dials_are_used_or_given_up(has_pubkey: bool)
    ensures
        step_after_dial(DialOutcome::Connected, true) == DialStep::Exchange,
        step_after_dial(DialOutcome::Connected, false) == DialStep::Register,
        step_after_dial(DialOutcome::Failed, has_pubkey) == (DialStep::Abandon {
            timed_out: false,
        }),
        step_after_dial(DialOutcome::TimedOut, has_pubkey) == (DialStep::Abandon {
            timed_out: true,
        }),
{
}

/// A service multiplexer is two bytes, the lower one first, and never zero; in
/// advertised data more may follow, and zero stands for itself.
pub proof fn multiplexers_are_two_bytes(a: u8, b: u8, value: Seq<u8>, rest: Seq<u8>, r: Option<u16>)
    requires
        value.len() != 2,
        value.len() <= usize::MAX,
        advertises_psm(seq![a, b] + rest, r),
    ensures
        a != 0 || b != 0 ==> psm_of(seq![a, b]) == Ok::<u16, PsmError>((a + 256 * b) as u16),
        psm_of(seq![0, 0]) == Err::<u16, PsmError>(PsmError::Zero),
        psm_of(value) == Err::<u16, PsmError>(PsmError::WrongLength(value.len() as usize)),
        r == Some((a + 256 * b) as u16),
{
    crate::laws::text::bytes_spell_numbers(a, b, 0, 0);
    crate::laws::text::bytes_spell_numbers(0, 0, 0, 0);
}

/// A datagram gives back the payload that was framed into it, cut to what the reader
/// takes; one without a length, or whose length is zero, is an error.
pub proof fn datagrams_give_their_payload(
    payload: Seq<u8>,
    padding: Seq<u8>,
    limit: int,
    r: Result<Vec<u8>, TransportError>,
)
    requires
        0 < payload.len() <= 0xffff,
        0 <= limit,
        unframes(crate::transport::ble::io::frame(payload) + padding, limit, r),
    ensures
        r is Ok,
        limit >= payload.len() ==> r->Ok_0@ == payload,
        limit < payload.len() ==> r->Ok_0@ == payload.take(limit),
{
    let n = payload.len() as int;
    let f = crate::transport::ble::io::frame(payload);
    crate::wire::be_bytes_of_two(n as u16);
    let data = f + padding;
    assert(data[0] == f[0] && data[1] == f[1]);
    assert(data.subrange(2, 2 + n) =~= payload);
    if limit < n {
        assert(data.subrange(2, 2 + limit) =~= payload.take(limit));
    }
}

/// A payload that is announced but not there in full is given as far as it is
/// there.
pub proof fn short_datagrams_give_what_is_there(
    data: Seq<u8>,
    limit: int,
    r: Result<Vec<u8>, TransportError>,
)
    requires
        unframes(data, limit, r),
        0 <= limit,
    ensures
        data.len() < 2 ==> r is Err,
        data.len() >= 2 && data[0] == 0 && data[1] == 0 ==> r is Err,
        data.len() >= 2 && (data[0] != 0 || data[1] != 0) ==> r is Ok && r->Ok_0@.len() <= limit
            && r->Ok_0@.len() <= data.len() - 2,
        data.len() >= 2 && data[0] as int * 256 + data[1] as int >= data.len() - 2 && limit
            >= data.len() && (data[0] != 0 || data[1] != 0) ==> r->Ok_0@ == data.skip(2),
{
    if data.len() >= 2 {
        assert(data.subrange(2, data.len() as int) =~= data.skip(2));
    }
}

/// A start is tried three times at most, and only after an error that may pass.
pub proof fn starts_are_tried_three_times(attempt: usize)
    ensures
        tries_again(attempt, StartupError::InProgress) <==> attempt < 3,
        tries_again(attempt, StartupError::NotReady) <==> attempt < 3,
        tries_again(attempt, StartupError::Failed) <==> attempt < 3,
        tries_again(attempt, StartupError::AuthenticationFailed) <==> attempt < 3,
        !tries_again(attempt, StartupError::Other),
{
}

/// Our own address is random if the lowest bit of its first byte is set.
pub proof fn lowest_bit_tells_the_kind(device: Seq<u8>)
    ensures
        device[0] & 1u8 == 0 ==> own_kind(device) == BleAddrKind::Public,
        device[0] & 1u8 != 0 ==> own_kind(device) == BleAddrKind::Random,
{
    let b = device[0];
    assert(b & 1u8 == b % 2) by (bit_vector);
}

/// An exchange on an inbound connection: without an announcement it is a failure
/// and counts as one; with one the connection stays or yields, and only yielding
/// touches what is remembered, by forgetting it.
pub proof fn yielding_inbound_is_no_fault(
    before: BackoffModel,
    k: AddrKey,
    local: PeerCapabilities,
    local_addr: Option<NodeAddr>,
    announced: Option<PubkeyExchangeResult>,
    now_ns: u128,
    after: BackoffModel,
    r: ExchangeOutcome,
)
    requires
        settles_inbound(before, k, local, local_addr, announced, now_ns, after, r),
    ensures
        announced is None <==> r is Failed,
        announced is None ==> after == before.failed(k, now_ns).0 && r == (
        ExchangeOutcome::Failed { denied: before.failed(k, now_ns).1 }),
        r == ExchangeOutcome::Keep ==> after == before,
        r == ExchangeOutcome::Yield ==> !after.entries.contains_key(k)
            && !after.denied.contains_key(k),
        r == ExchangeOutcome::Yield ==> forall|other: AddrKey|
            other != k ==> (#[trigger] after.entries.contains_key(other)
                <==> before.entries.contains_key(other)),
        announced is Some && announced->0.peer_capabilities.flags() & 0x10u8 == 0
            && announced->0.peer_capabilities.flags() != 0 ==> r == ExchangeOutcome::Keep,
        announced is Some && local_addr is None ==> r == ExchangeOutcome::Keep,
{
}

/// An exchange on a connection we dialled: a failure counts, and strikes the device
/// off the list once it is denied; an announcement decides whether the connection
/// stays, and touches nothing else.
pub proof fn failed_probes_count(
    m: ProbeModel,
    backoff: BackoffModel,
    k: AddrKey,
    local: PeerCapabilities,
    local_addr: Option<NodeAddr>,
    announced: Option<PubkeyExchangeResult>,
    now_ns: u128,
    after: ProbeModel,
    left: BackoffModel,
    r: ExchangeOutcome,
)
    requires
        m.settles_probe(
            backoff,
            k,
            local,
            local_addr,
            announced,
            now_ns,
            after,
            left,
            r,
        ),
    ensures
        announced is None <==> r is Failed,
        r is Failed ==> left == backoff.failed(k, now_ns).0,
        r == (ExchangeOutcome::Failed { denied: true }) ==> !after.pending.contains(k),
        r == (ExchangeOutcome::Failed { denied: false }) ==> after == m,
        !(r is Failed) ==> after == m && left == backoff,
        announced is Some && announced->0.peer_capabilities.flags() & 0x10u8 == 0
            && announced->0.peer_capabilities.flags() != 0 ==> r == ExchangeOutcome::Yield,
{
    broadcast use vstd::seq_lib::group_filter_ensures;

    if r == (ExchangeOutcome::Failed { denied: true }) && after.pending.contains(k) {
        let i = choose|i: int| 0 <= i < after.pending.len() && after.pending[i] == k;
        assert(crate::transport::ble::peering::other_than(k)(after.pending[i]));
    }
}

/// What is tried again is the device that was seen first among those without a
/// connection, and every device without a connection stays on the list.
pub proof fn waiting_devices_are_tried_again(
    m: ProbeModel,
    connected: Seq<BleAddr>,
    after: ProbeModel,
    r: Option<BleAddr>,
    k: AddrKey,
)
    requires
        m.retries(connected, after, r),
    ensures
        after.pending.contains(k) <==> m.pending.contains(k) && forall|i: int|
            0 <= i < connected.len() ==> !((#[trigger] connected[i]).adapter@ == k.adapter
                && connected[i].device@ == k.device),
        r is None <==> after.pending.len() == 0,
        r is Some ==> m.pending.contains(r->0.key()),
        after.last_probed == m.last_probed,
        m.pending.len() > 0 && (forall|i: int|
            0 <= i < connected.len() ==> !((#[trigger] connected[i]).adapter@
                == m.pending[0].adapter && connected[i].device@ == m.pending[0].device)) ==> r
            is Some && r->0.key() == m.pending[0],
{
    broadcast use vstd::seq_lib::group_filter_ensures;

    let open = not_connected(connected);
    let kept = m.pending.filter(open);
    assert forall|a: AddrKey| #[trigger] open(a) == forall|i: int|
        0 <= i < connected.len() ==> !((#[trigger] connected[i]).adapter@ == a.adapter
            && connected[i].device@ == a.device) by {
        if !open(a) {
            let i = choose|i: int| 0 <= i < connected.len() && on_device(#[trigger] connected[i], a);
            assert(connected[i].adapter@ == a.adapter && connected[i].device@ == a.device);
        } else {
            assert forall|i: int| 0 <= i < connected.len() implies !((
            #[trigger] connected[i]).adapter@ == a.adapter && connected[i].device@ == a.device) by {
                assert(!on_device(connected[i], a));
            }
        }
    }
    if m.pending.contains(k) && open(k) {
        let i = choose|i: int| 0 <= i < m.pending.len() && m.pending[i] == k;
        assert(kept.contains(m.pending[i]));
    }
    if kept.contains(k) {
        m.pending.lemma_filter_contains_rev(open, k);
        let i = choose|i: int| 0 <= i < kept.len() && kept[i] == k;
        assert(open(kept[i]));
    }
    if kept.len() > 0 {
        assert(kept.contains(kept[0]));
        m.pending.lemma_filter_contains_rev(open, kept[0]);
    }
    if m.pending.len() > 0 && open(m.pending[0]) {
        first_stays_first(m.pending, open);
    }
}

/// What is first and passes a test is first among all that pass it.
proof fn first_stays_first(s: Seq<AddrKey>, p: spec_fn(AddrKey) -> bool)
    requires
        s.len() > 0,
        p(s[0]),
    ensures
        s.filter(p).len() > 0,
        s.filter(p)[0] == s[0],
    decreases s.len(),
{
    reveal(Seq::filter);
    let h = s.drop_last();
    if s.len() > 1 {
        first_stays_first(h, p);
    } else {
        assert(h =~= seq![]);
        assert(h.filter(p).len() == 0);
    }
}

/// The jitter of a pause is what is left of the address's seed when it is divided by
/// one more than a fifth of the pause. Addresses that differ in their last byte have
/// different seeds before they are folded.
pub proof fn jitter_follows_the_seed(
    m: BackoffModel,
    device: Seq<u8>,
    failures: u32,
    a: u8,
    b: u8,
)
    requires
        m.delay_secs(failures) >= 0,
        a != b,
    ensures
        ({
            let base = m.delay_secs(failures);
            let extra = m.jittered_secs(device, failures) - base;
            &&& 0 <= extra <= base / 5
            &&& (jitter_seed(device, failures) - extra) % (base / 5 + 1) == 0
        }),
        mix(device.push(a)) != mix(device.push(b)),
{
    let base = m.delay_secs(failures);
    let n = base / 5 + 1;
    let s = jitter_seed(device, failures) as int;
    let e = s % n;
    vstd::arithmetic::div_mod::lemma_fundamental_div_mod(s, n);
    vstd::arithmetic::div_mod::lemma_mod_bound(s, n);
    let q = s / n;
    assert(s - e == n * q + 0);
    vstd::arithmetic::div_mod::lemma_mod_multiples_vanish(q, 0, n);
    assert((n * q + 0) % n == 0int % n);
    vstd::arithmetic::div_mod::lemma_small_mod(0, n as nat);
    assert(device.push(a).drop_last() =~= device);
    assert(device.push(b).drop_last() =~= device);
    let x = mix(device) as int * 0x517c_c1b7_2722_0a95;
    let w = 0x1_0000_0000_0000_0000int;
    if (x + a as int) % w == (x + b as int) % w {
        vstd::arithmetic::div_mod::lemma_fundamental_div_mod(x + a as int, w);
        vstd::arithmetic::div_mod::lemma_fundamental_div_mod(x + b as int, w);
        let (p, r) = ((x + a as int) / w, (x + b as int) / w);
        assert(a - b == w * p - w * r);
        assert(false);
    }
}

/// A device is dialled exactly if it is neither connected nor being connected to and
/// its address can be read.
pub proof fn connections_are_made_once(
    in_pool: bool,
    connecting: bool,
    addr: TransportAddr,
    known: BleAddr,
    r: Result<Option<BleAddr>, TransportError>,
)
    requires
        plans_connection(in_pool, connecting, addr, r),
    ensures
        in_pool || connecting ==> r is Ok && r->Ok_0 is None,
        !in_pool && !connecting ==> (r is Err || r->Ok_0 is Some),
        r is Err ==> r->Err_0 is InvalidAddress,
        !in_pool && !connecting && !valid_utf8(addr.bytes@) ==> r is Err,
        !in_pool && !connecting && valid_utf8(addr.bytes@) && decode_utf8(addr.bytes@)
            == known.text() && known.adapter@.len() > 0 && !known.adapter@.contains('/') ==> r
            is Ok && r->Ok_0 is Some && r->Ok_0->0.adapter@ == known.adapter@
            && r->Ok_0->0.device@ == known.device@,
{
    if !in_pool && !connecting && valid_utf8(addr.bytes@) {
        let s = decode_utf8(addr.bytes@);
        let parsed: Result<BleAddr, TransportError> = match r {
            Ok(Some(a)) => Ok(a),
            Ok(None) => Ok(known),
            Err(e) => Err(e),
        };
        crate::laws::text::ble_addresses_have_an_adapter(s, parsed);
        if s == known.text() && known.adapter@.len() > 0 && !known.adapter@.contains('/') {
            ble_addr_round_trip(known, parsed);
        }
    }
}

} // verus!
