//! BLE links: which connection stays, when a device is dialled, how fast a link
//! sends and where its frames end.

use crate::identity::{is_xonly_key, NodeAddr};
use crate::transport::ble::addr::{same_ble_addr, BleAddr};
use crate::transport::ble::backoff::BackoffModel;
use crate::transport::ble::capabilities::PeerCapabilities;
use crate::transport::ble::dial::{after, Dial, DialAction, DialEvent, DialKind, DialPhase};
use crate::transport::ble::io::{frame, occurs, takes_frame};
use crate::transport::ble::link::{
    cuts_packet, fmp_len, plan_for, recv_action, BleRoles, FmpError, RecvAction, RecvEvent,
};
use crate::transport::ble::peering::{
    keeps_inbound, keeps_probe, reads_announcement, without, ProbeModel, PubkeyExchangeResult,
    ScanAction,
};
use crate::transport::ble::rate_limit::RateModel;
use crate::transport::ble::table::AddrKey;
use crate::transport::TransportError;
use vstd::prelude::*;

verus! {

/// Towards a peer that takes connections, does not dial and does not ask for the
/// preference, a connection that we dialled stays whatever the two addresses are:
/// there is no other connection to wait for. The peer keeps it as well where we
/// cannot be dialled, where we prefer to dial, or where its address is not the
/// smaller one.
pub proof fn connection_to_a_listener_stays(
    local: PeerCapabilities,
    local_addr: Option<NodeAddr>,
    peer: PeerCapabilities,
    peer_addr: NodeAddr,
    dialler_addr: NodeAddr,
)
    requires
        peer.flags() & 0x10u8 != 0,
        peer.flags() & 0x08u8 == 0,
        peer.flags() & 0x02u8 == 0,
    ensures
        keeps_probe(local, peer, local_addr, peer_addr),
        local.flags() != 0 && local.flags() & 0x10u8 == 0 ==> keeps_inbound(
            peer,
            local,
            Some(peer_addr),
            dialler_addr,
        ),
        local.flags() & 0x02u8 != 0 ==> keeps_inbound(
            peer,
            local,
            Some(peer_addr),
            dialler_addr,
        ),
        dialler_addr.value <= peer_addr.value ==> keeps_inbound(
            peer,
            local,
            Some(peer_addr),
            dialler_addr,
        ),
{
    assert(0u8 & 0x10u8 == 0) by (bit_vector);
}

/// What a dialled connection depends on, flag by flag: the peer must be one that
/// can be dialled; a preference that one side alone has decides; else the smaller
/// address dials, if both can dial at all. A node that does not know its own
/// address never yields on account of it.
pub proof fn dialled_connection_stays_or_yields(
    local: PeerCapabilities,
    ours: NodeAddr,
    peer: PeerCapabilities,
    theirs: NodeAddr,
)
    ensures
        peer.flags() != 0 && peer.flags() & 0x10u8 == 0 ==> !keeps_probe(
            local,
            peer,
            Some(ours),
            theirs,
        ) && !keeps_probe(local, peer, None, theirs),
        peer.flags() & 0x10u8 != 0 && local.flags() & 0x02u8 != 0 && peer.flags() & 0x02u8 == 0
            ==> keeps_probe(local, peer, Some(ours), theirs),
        local.flags() & 0x02u8 == 0 && peer.flags() & 0x02u8 != 0 ==> !keeps_probe(
            local,
            peer,
            Some(ours),
            theirs,
        ) && !keeps_probe(local, peer, None, theirs),
        peer.flags() & 0x10u8 != 0 && peer.flags() & 0x08u8 != 0 && (local.flags() & 0x02u8 == 0)
            == (peer.flags() & 0x02u8 == 0) ==> (keeps_probe(local, peer, Some(ours), theirs)
            <==> ours.value < theirs.value),
        peer.flags() == 0 && local.flags() & 0x02u8 == 0 ==> (keeps_probe(
            local,
            peer,
            Some(ours),
            theirs,
        ) <==> ours.value < theirs.value),
        peer.flags() & 0x10u8 != 0 && peer.flags() & 0x02u8 == 0 ==> keeps_probe(
            local,
            peer,
            None,
            theirs,
        ),
{
    assert(0u8 & 0x02u8 == 0) by (bit_vector);
    assert(0u8 & 0x10u8 == 0) by (bit_vector);
}

/// What an inbound connection depends on, flag by flag: it goes only where the
/// peer could be dialled instead, has no preference that we lack, and our address
/// is the smaller.
pub proof fn inbound_connection_stays_or_yields(
    local: PeerCapabilities,
    ours: NodeAddr,
    peer: PeerCapabilities,
    theirs: NodeAddr,
)
    ensures
        peer.flags() != 0 && peer.flags() & 0x10u8 == 0 ==> keeps_inbound(
            local,
            peer,
            Some(ours),
            theirs,
        ),
        peer.flags() & 0x02u8 != 0 && local.flags() & 0x02u8 == 0 ==> keeps_inbound(
            local,
            peer,
            Some(ours),
            theirs,
        ),
        peer.flags() & 0x10u8 != 0 && (peer.flags() & 0x02u8 == 0 || local.flags() & 0x02u8 != 0)
            ==> (keeps_inbound(local, peer, Some(ours), theirs) <==> ours.value >= theirs.value),
        peer.flags() == 0 ==> (keeps_inbound(local, peer, Some(ours), theirs) <==> ours.value
            >= theirs.value),
        keeps_inbound(local, peer, None, theirs),
{
    assert(0u8 & 0x02u8 == 0) by (bit_vector);
}

/// Whom a node takes for able to dial or to be dialled: one that says so, and one
/// that says nothing.
pub proof fn silent_peers_can_do_all(caps: PeerCapabilities)
    ensures
        caps.accepts_inbound() <==> caps.flags() == 0 || caps.flags() & 0x10u8 != 0,
        caps.initiates_outbound() <==> caps.flags() == 0 || caps.flags() & 0x08u8 != 0,
        PeerCapabilities::received(1) == 0x2au8,
        forall|b: u8| b != 1 ==> #[trigger] PeerCapabilities::received(b) == b,
{
}

/// An announcement is read exactly if it begins with zero, is long enough and holds
/// a key: the key is what follows the first byte, and the capabilities are the
/// byte behind it, where there is one.
pub proof fn announcements_are_read_by_place(
    msg: Seq<u8>,
    r: Result<PubkeyExchangeResult, TransportError>,
)
    requires
        reads_announcement(msg, msg.len() >= 33 && is_xonly_key(msg.subrange(1, 33)), r),
    ensures
        r is Ok <==> msg.len() >= 33 && msg[0] == 0 && is_xonly_key(msg.subrange(1, 33)),
        r is Ok ==> forall|i: int|
            0 <= i < 32 ==> #[trigger] r->Ok_0.peer_pubkey@[i] == msg[i + 1],
        r is Ok && msg.len() == 33 ==> r->Ok_0.peer_capabilities.flags() == 0,
        r is Ok && msg.len() >= 34 && msg[33] != 1 ==> r->Ok_0.peer_capabilities.flags()
            == msg[33],
        r is Ok && msg.len() >= 34 && msg[33] == 1 ==> r->Ok_0.peer_capabilities.flags()
            == 0x2a,
        r is Err ==> r->Err_0 is RecvFailed,
{
    if r is Ok {
        let key = r->Ok_0.peer_pubkey@;
        assert(key == msg.subrange(1, 33));
        assert forall|i: int| 0 <= i < 32 implies #[trigger] key[i] == msg[i + 1] by {
            assert(msg.subrange(1, 33)[i] == msg[i + 1]);
        }
    }
}

/// A device that nothing speaks against is dialled when it is first seen, and seen
/// again it is dialled again exactly when the cooldown has passed since: the time
/// between the two decides, not the time itself.
pub proof fn devices_are_dialled_once_per_cooldown(
    m: ProbeModel,
    backoff: BackoffModel,
    k: AddrKey,
    now_ns: u128,
    later_ns: u128,
    cooldown_ns: u128,
)
    requires
        !m.last_probed.contains_key(k),
        !backoff.denied.contains_key(k),
        !backoff.entries.contains_key(k),
        now_ns <= later_ns,
    ensures
        ({
            let (first, action) = m.scanned(backoff, k, false, true, now_ns, cooldown_ns);
            let (second, again) = first.scanned(backoff, k, false, true, later_ns, cooldown_ns);
            &&& action == ScanAction::Probe
            &&& first.last_probed.contains_key(k) && first.last_probed[k] == now_ns
            &&& first.pending.contains(k)
            &&& again == ScanAction::Probe <==> later_ns - now_ns >= cooldown_ns
            &&& again == ScanAction::CoolingDown <==> later_ns - now_ns < cooldown_ns
            &&& second.last_probed[k] == if later_ns - now_ns >= cooldown_ns {
                later_ns
            } else {
                now_ns
            }
            &&& second.pending == first.pending
        }),
{
    let p = if m.pending.contains(k) {
        m.pending
    } else {
        m.pending.push(k)
    };
    assert(p.contains(k)) by {
        if !m.pending.contains(k) {
            assert(p[m.pending.len() as int] == k);
        }
    }
}

/// Without a key of our own a device is reported instead of dialled, and this
/// counts as a probe as well.
pub proof fn devices_are_reported_without_a_key(
    m: ProbeModel,
    backoff: BackoffModel,
    k: AddrKey,
    now_ns: u128,
    cooldown_ns: u128,
)
    requires
        !m.last_probed.contains_key(k),
        !backoff.denied.contains_key(k),
        !backoff.entries.contains_key(k),
    ensures
        m.scanned(backoff, k, false, false, now_ns, cooldown_ns).1 == ScanAction::Report,
        m.scanned(backoff, k, false, false, now_ns, cooldown_ns).0 == m.scanned(
            backoff,
            k,
            false,
            true,
            now_ns,
            cooldown_ns,
        ).0,
{
}

/// A device that has a connection is struck off the list, and every other device
/// stays on it in its place.
pub proof fn connected_devices_are_struck_off(
    m: ProbeModel,
    backoff: BackoffModel,
    k: AddrKey,
    other: AddrKey,
    has_pubkey: bool,
    now_ns: u128,
    cooldown_ns: u128,
)
    requires
        !backoff.denied.contains_key(k),
        !backoff.entries.contains_key(k),
        other != k,
    ensures
        ({
            let (after, action) = m.scanned(backoff, k, true, has_pubkey, now_ns, cooldown_ns);
            &&& action == ScanAction::Connected
            &&& !after.pending.contains(k)
            &&& after.pending.contains(other) <==> m.pending.contains(other)
            &&& after.last_probed == m.last_probed
        }),
{
    broadcast use vstd::seq_lib::group_filter_ensures;

    let kept = without(m.pending, k);
    let p = |a: AddrKey| a != k;
    assert(p =~= crate::transport::ble::peering::other_than(k));
    if m.pending.contains(other) {
        let i = choose|i: int| 0 <= i < m.pending.len() && m.pending[i] == other;
        assert(p(m.pending[i]));
        assert(kept.contains(m.pending[i]));
    }
    if kept.contains(other) {
        m.pending.lemma_filter_contains_rev(crate::transport::ble::peering::other_than(k), other);
    }
    if kept.contains(k) {
        let i = choose|i: int| 0 <= i < kept.len() && kept[i] == k;
        assert(p(kept[i]));
    }
}

/// A device that is denied or in backoff is left alone until the time that was set,
/// and is dialled from then on.
pub proof fn blocked_devices_wait(
    m: ProbeModel,
    backoff: BackoffModel,
    k: AddrKey,
    now_ns: u128,
    cooldown_ns: u128,
)
    requires
        !m.last_probed.contains_key(k),
    ensures
        ({
            let (after, action) = m.scanned(backoff, k, false, true, now_ns, cooldown_ns);
            let denied = backoff.denied.contains_key(k) && now_ns < backoff.denied[k];
            let paused = backoff.entries.contains_key(k) && now_ns
                < backoff.entries[k].next_allowed_ns;
            &&& denied ==> action == ScanAction::Denied && after == m
            &&& !denied && paused ==> action == ScanAction::InBackoff && after == m
            &&& !denied && !paused ==> action == ScanAction::Probe
        }),
{
}

/// The pause after a failure: it lasts at least the base time doubled once per
/// failure, ten times at most, or the longest pause, whichever is less, and at most
/// a fifth more. The failure that reaches the limit denies the address for the
/// configured time and forgets the failures before.
pub proof fn failures_are_paid_for(m: BackoffModel, k: AddrKey, now_ns: u128)
    requires
        m.wf(),
        m.can_fail(k),
        now_ns <= 0xffff_ffff_ffff_ffff * 1_000_000_000,
    ensures
        ({
            let (after, denied) = m.failed(k, now_ns);
            let before = if m.entries.contains_key(k) {
                m.entries[k].failures as int
            } else {
                0
            };
            let times = if before + 1 < 10 {
                before + 1
            } else {
                10
            };
            let wanted = vstd::arithmetic::power2::pow2(times as nat) * m.base_secs;
            let pause = if wanted < m.max_secs {
                wanted
            } else {
                m.max_secs as int
            };
            let end = after.entries[k].next_allowed_ns;
            &&& denied <==> before + 1 >= m.max_failures
            &&& denied ==> !after.entries.contains_key(k) && after.denied.contains_key(k)
                && after.denied[k] == now_ns + m.deny_secs * 1_000_000_000
            &&& !denied ==> {
                &&& after.entries.contains_key(k)
                &&& after.entries[k].failures == before + 1
                &&& now_ns + pause * 1_000_000_000 <= end
                &&& end <= now_ns + (pause + pause / 5) * 1_000_000_000
                &&& after.denied == m.denied
            }
        }),
{
    let failures = (m.failure_count(k) + 1) as u32;
    let capped = m.delay_secs(failures);
    let jitter = crate::transport::ble::backoff::jitter_seed(k.device, failures) as int % (capped
        / 5 + 1);
    vstd::arithmetic::power2::lemma_pow2_pos(
        crate::transport::ble::backoff::smaller(failures as int, 10) as nat,
    );
    let d = vstd::arithmetic::power2::pow2(
        crate::transport::ble::backoff::smaller(failures as int, 10) as nat,
    ) as int;
    let base = m.base_secs as int;
    assert(d * base >= 0) by (nonlinear_arith)
        requires
            d >= 0,
            base >= 0,
    ;
    assert(0 <= capped <= m.max_secs);
    assert(0 <= jitter <= capped / 5);
    let pause = m.jittered_secs(k.device, failures);
    assert(capped <= pause <= capped + capped / 5);
    assert(pause <= 0x1_3333_3333_3333_3333);
    assert(now_ns + pause * 1_000_000_000 <= u128::MAX);
    assert(now_ns + m.deny_secs * 1_000_000_000 <= u128::MAX);
}

/// How the rate answers to a round-trip time, a second or more after the last
/// measurement: below 200 ms two thousand are added, above 300 ms two fifths go,
/// above 600 ms three fifths go, and between there is no change. The rate stays
/// between ten and thirty-five thousand.
pub proof fn rate_answers_the_round_trip(m: RateModel, srtt_us: u64, now_ns: u128)
    requires
        10_000 <= m.rate_bps <= 35_000,
        m.last_update_ns <= now_ns,
        now_ns - m.last_update_ns >= 1_000_000_000,
    ensures
        ({
            let r = m.updated(srtt_us, now_ns).rate_bps as int;
            let rate = m.rate_bps as int;
            &&& 10_000 <= r <= 35_000
            &&& 200_000 <= srtt_us <= 300_000 ==> r == rate
            &&& srtt_us < 200_000 && rate <= 33_000 ==> r == rate + 2_000
            &&& srtt_us < 200_000 && rate > 33_000 ==> r == 35_000
            &&& 300_000 < srtt_us <= 600_000 && r > 10_000 ==> 5 * r <= 3 * rate < 5 * r + 5
            &&& 300_000 < srtt_us <= 600_000 && r == 10_000 ==> 3 * rate < 50_005
            &&& srtt_us > 600_000 && r > 10_000 ==> 5 * r <= 2 * rate < 5 * r + 5
            &&& srtt_us > 600_000 && r == 10_000 ==> 2 * rate < 50_005
            &&& m.updated(srtt_us, now_ns).last_update_ns == now_ns
        }),
{
}

/// Measurements less than a second apart leave the rate as it is.
pub proof fn rate_waits_a_second(m: RateModel, srtt_us: u64, now_ns: u128)
    requires
        m.last_update_ns <= now_ns,
        now_ns - m.last_update_ns < 1_000_000_000,
    ensures
        m.updated(srtt_us, now_ns).rate_bps == m.rate_bps,
        m.updated(srtt_us, now_ns).last_update_ns == now_ns,
{
}

/// A frame that arrives in two pieces is taken when the second piece is there and
/// not before, and what follows it stays.
pub proof fn frames_are_taken_whole(
    payload: Seq<u8>,
    cut: int,
    rest: Seq<u8>,
    buf: Seq<u8>,
    max: int,
    early: (Seq<u8>, Seq<u8>, Result<Option<usize>, TransportError>),
    whole: (Seq<u8>, Seq<u8>, Result<Option<usize>, TransportError>),
)
    requires
        0 < payload.len() <= max <= 0xffff,
        payload.len() <= buf.len(),
        0 <= cut < payload.len() + 2,
        takes_frame(frame(payload).take(cut), buf, max, early.0, early.1, early.2),
        takes_frame(frame(payload) + rest, buf, max, whole.0, whole.1, whole.2),
    ensures
        frame(payload).len() == payload.len() + 2,
        frame(payload)[0] as int * 256 + frame(payload)[1] as int == payload.len(),
        early.2 matches Ok(None),
        early.0 == frame(payload).take(cut) && early.1 == buf,
        whole.2 matches Ok(Some(n)) && n == payload.len(),
        whole.0 == rest,
        whole.1.take(payload.len() as int) == payload,
        whole.1.len() == buf.len(),
{
    let n = payload.len() as u16;
    crate::wire::be_bytes_of_two(n);
    let f = frame(payload);
    assert(f[0] == (n / 256) as u8 && f[1] == (n % 256) as u8);
    let bytes = f + rest;
    assert(bytes[0] == f[0] && bytes[1] == f[1]);
    if cut >= 2 {
        let e = f.take(cut);
        assert(e[0] == f[0] && e[1] == f[1]);
    }
    assert(bytes.skip(2 + payload.len() as int) =~= rest);
    assert(whole.1.take(payload.len() as int) =~= payload);
}

/// A frame longer than allowed or without payload is an error. The first leaves
/// what was received, the second takes its two bytes off.
pub proof fn bad_frames_are_errors(
    bytes: Seq<u8>,
    buf: Seq<u8>,
    max: int,
    after: Seq<u8>,
    out: Seq<u8>,
    r: Result<Option<usize>, TransportError>,
)
    requires
        bytes.len() >= 2,
        0 <= max,
        takes_frame(bytes, buf, max, after, out, r),
    ensures
        bytes[0] as int * 256 + bytes[1] as int > max ==> r is Err && after == bytes,
        bytes[0] == 0 && bytes[1] == 0 ==> r is Err && after == bytes.skip(2),
        r is Err ==> out == buf && r->Err_0 is RecvFailed,
        r is Err ==> bytes[0] as int * 256 + bytes[1] as int > max || bytes[0] == 0 && bytes[1]
            == 0,
{
}

/// Packets that arrive behind one another are cut apart again: the first comes out
/// when all its bytes are there, and what follows stays for the next time. A first
/// message has 114 bytes, a second 69, and an established frame 32 more than its
/// payload.
pub proof fn packets_are_cut_apart(
    bytes: Seq<u8>,
    after: Seq<u8>,
    r: Result<Option<Vec<u8>>, FmpError>,
)
    requires
        bytes.len() >= 4,
        cuts_packet(bytes, after, r),
    ensures
        ({
            let n = if bytes[0] == 1 {
                114
            } else if bytes[0] == 2 {
                69
            } else {
                bytes[2] as int + 256 * bytes[3] as int + 32
            };
            &&& bytes[0] > 2 <==> r is Err
            &&& r is Err ==> after == bytes
            &&& bytes[0] <= 2 && bytes.len() < n ==> r == Ok::<_, FmpError>(None::<Vec<u8>>)
                && after == bytes
            &&& bytes[0] <= 2 && bytes.len() >= n ==> {
                &&& r is Ok && r->Ok_0 is Some
                &&& r->Ok_0->0@.len() == n
                &&& r->Ok_0->0@ + after == bytes
            }
        }),
{
    let b = bytes[0];
    assert(b / 16 == 0 <==> b < 16);
    if r is Ok && r->Ok_0 is Some {
        let n = fmp_len(bytes)->Ok_0;
        assert(bytes.take(n) + bytes.skip(n) =~= bytes);
    }
}

/// The kind of fault that stops the cutting is told by the first byte: its upper
/// half is a version that must be zero, its lower half a phase.
pub proof fn unknown_packets_are_named(bytes: Seq<u8>)
    requires
        bytes.len() >= 4,
    ensures
        bytes[0] >= 16 ==> fmp_len(bytes) == Err::<int, FmpError>(
            FmpError::UnknownVersion((bytes[0] / 16) as u8),
        ),
        3 <= bytes[0] < 16 ==> fmp_len(bytes) == Err::<int, FmpError>(
            FmpError::UnknownPhase(bytes[0]),
        ),
{
}

/// What is received is delivered, a closed connection ends quietly, an empty frame
/// is passed over, and everything else ends the connection and is counted.
pub proof fn receiving_goes_on_or_ends(
    n: usize,
    text: String,
    before: Seq<char>,
    behind: Seq<char>,
)
    ensures
        n > 0 ==> recv_action(RecvEvent::Data(n)) == RecvAction::Deliver(n),
        recv_action(RecvEvent::Data(0)) == (RecvAction::Close { count_error: false }),
        recv_action(RecvEvent::TimedOut) == (RecvAction::Close { count_error: true }),
        recv_action(RecvEvent::Failed(text)) == RecvAction::Skip || recv_action(
            RecvEvent::Failed(text),
        ) == (RecvAction::Close { count_error: true }),
        text@ == before + "framed message too short"@ + behind ==> recv_action(
            RecvEvent::Failed(text),
        ) == RecvAction::Skip,
        text@.len() < 24 ==> recv_action(RecvEvent::Failed(text)) == (RecvAction::Close {
            count_error: true,
        }),
{
    reveal_strlit("framed message too short");
    let pattern = "framed message too short"@;
    if text@ == before + pattern + behind {
        let i = before.len() as int;
        assert(text@.subrange(i, i + pattern.len()) =~= pattern);
        assert(occurs(text@, pattern));
    }
}

/// A node listens, advertises and scans exactly as it is told to, and is warned
/// where nobody could find it or it could find nobody.
pub proof fn roles_are_brought_up_as_configured(roles: BleRoles)
    ensures
        plan_for(roles).listen == roles.accept_connections,
        plan_for(roles).advertise == roles.advertise,
        plan_for(roles).scan == roles.scan,
        roles.scan ==> !plan_for(roles).warnings.idle && !plan_for(
            roles,
        ).warnings.auto_connect_without_scan && !plan_for(roles).warnings.undiscoverable,
        roles.advertise ==> !plan_for(roles).warnings.idle && !plan_for(
            roles,
        ).warnings.undiscoverable,
        !roles.scan && !roles.advertise ==> plan_for(roles).warnings.undiscoverable && plan_for(
            roles,
        ).warnings.idle == !roles.accept_connections,
        !roles.scan ==> plan_for(roles).warnings.auto_connect_without_scan == roles.auto_connect,
{
}

/// Dialling over GATT is tried a second time after a passing fault and never a
/// third; whatever comes of it, the dial goes on, with the connection taken down
/// again only where it failed.
pub proof fn gatt_is_tried_twice(d: Dial, attempt: usize, transient: bool)
    requires
        d.phase == (DialPhase::Gatt { attempt }),
        1 <= attempt <= 2,
    ensures
        after(d, DialEvent::GattConnected) == (
            Dial { phase: DialPhase::Psm, ..d },
            Some(DialAction::ReadPsm),
        ),
        attempt == 1 && transient ==> after(d, DialEvent::GattFailed { transient }) == (
            Dial { phase: DialPhase::Gatt { attempt: 2 }, ..d },
            Some(DialAction::RetryGatt),
        ),
        attempt == 2 || !transient ==> after(d, DialEvent::GattFailed { transient }) == (
            Dial { phase: DialPhase::Trust, ..d },
            Some(DialAction::AskTrust { disconnect: true }),
        ),
        after(d, DialEvent::GattTimedOut) == (
            Dial { phase: DialPhase::Trust, ..d },
            Some(DialAction::AskTrust { disconnect: true }),
        ),
{
}

/// What was read on the way is what the channel is opened with: a multiplexer and
/// an address type that were found take the place of the ones configured, and a
/// device that is known not to be trusted is marked first.
pub proof fn channel_is_opened_with_what_was_found(
    d: Dial,
    psm: Option<u16>,
    trusted: Option<bool>,
    kind: Option<DialKind>,
)
    requires
        d.phase == DialPhase::Psm,
    ensures
        ({
            let (d1, a1) = after(d, DialEvent::PsmRead(psm));
            let (d2, a2) = after(d1, DialEvent::Trusted(trusted));
            let (d3, a3) = if trusted == Some(false) {
                after(d2, DialEvent::Marked)
            } else {
                (d2, a2)
            };
            let (d4, a4) = after(d3, DialEvent::AddrKindRead(kind));
            &&& a1 == Some(DialAction::AskTrust { disconnect: false })
            &&& trusted == Some(false) <==> a2 == Some(DialAction::MarkTrusted)
            &&& a3 == Some(DialAction::AskAddrKind)
            &&& a4 == Some(
                DialAction::Open {
                    kind: if kind is Some {
                        kind->0
                    } else {
                        d.kind
                    },
                    psm: if psm is Some {
                        psm->0
                    } else {
                        d.psm
                    },
                },
            )
            &&& after(d4, DialEvent::ChannelOpened).1 == Some(DialAction::Deliver)
            &&& after(d4, DialEvent::ChannelFailed).1 == Some(DialAction::Fail)
        }),
{
}

/// Two addresses are the same exactly if they are filed under the same key: adapter,
/// device and kind all count.
pub proof fn same_addresses_have_one_key(a: BleAddr, b: BleAddr)
    ensures
        same_ble_addr(a, b) <==> a.key() == b.key(),
        a.key() == b.key() <==> a.adapter@ == b.adapter@ && a.device@ == b.device@ && a.kind
            == b.kind,
{
}

} // verus!
