//! Commands that change the node's state.
//!
//! A command comes as a name and a set of parameters. What is wrong with it is
//! reported as text.

use crate::benchmark::echo::{
    compute_echo_stats, framed, is_stats, stats_fit, EchoResult, EchoStats,
};
use crate::benchmark::manager::{frame_count, total_frames, BenchModel, BenchmarkManager};
use crate::benchmark::throughput::{
    fresh_test, request_of, Direction, ThroughputResult, ThroughputTestConfig,
};
use crate::benchmark::types::MSG_THROUGHPUT_REQUEST;
use crate::identity::NodeAddr;
use crate::text::{hex_text, same_text};
use vstd::prelude::*;
use vstd::string::StringExecFns;

verus! {

/// The value of a parameter, as far as commands look at it.
pub enum ParamValue {
    /// A text.
    Text(String),
    /// A number that is not negative and has no fraction.
    Number(u64),
    /// Anything else.
    Other,
}

/// The parameters of a command: names and values.
pub struct Params {
    /// Names and values.
    pub fields: Vec<(String, ParamValue)>,
}

/// Where a name stands among the fields, or their number where it does not.
pub open spec fn field_index(fields: Seq<(String, ParamValue)>, key: Seq<char>) -> int
    decreases fields.len(),
{
    if fields.len() == 0 || fields[0].0@ == key {
        0
    } else {
        1 + field_index(fields.skip(1), key)
    }
}

impl Params {
    /// The text of a parameter.
    pub open spec fn text(self, key: Seq<char>) -> Option<Seq<char>> {
        let k = field_index(self.fields@, key);
        if k < self.fields@.len() {
            match self.fields@[k].1 {
                ParamValue::Text(s) => Some(s@),
                _ => None,
            }
        } else {
            None
        }
    }

    /// The number of a parameter.
    pub open spec fn number(self, key: Seq<char>) -> Option<u64> {
        let k = field_index(self.fields@, key);
        if k < self.fields@.len() {
            match self.fields@[k].1 {
                ParamValue::Number(n) => Some(n),
                _ => None,
            }
        } else {
            None
        }
    }

    /// Where a parameter stands.
    fn position(&self, key: &str) -> (k: usize)
        ensures
            k == field_index(self.fields@, key@),
            k <= self.fields@.len(),
    {
        let mut k: usize = 0;
        assert(self.fields@.skip(0) =~= self.fields@);
        while k < self.fields.len() && !same_text(self.fields[k].0.as_str(), key)
            invariant
                k <= self.fields.len(),
                field_index(self.fields@, key@) == k + field_index(
                    self.fields@.skip(k as int),
                    key@,
                ),
            decreases self.fields.len() - k,
        {
            assert(self.fields@.skip(k as int)[0] == self.fields@[k as int]);
            assert(self.fields@.skip(k as int).skip(1) =~= self.fields@.skip(k + 1));
            k += 1;
        }
        if k < self.fields.len() {
            assert(self.fields@.skip(k as int)[0] == self.fields@[k as int]);
        } else {
            assert(self.fields@.skip(k as int) =~= seq![]);
        }
        k
    }

    /// The text of a parameter.
    pub fn get_text(&self, key: &str) -> (r: Option<&str>)
        ensures
            match r {
                Some(s) => self.text(key@) == Some(s@),
                None => self.text(key@) is None,
            },
    {
        let k = self.position(key);
        if k < self.fields.len() {
            match &self.fields[k].1 {
                ParamValue::Text(s) => Some(s.as_str()),
                _ => None,
            }
        } else {
            None
        }
    }

    /// The number of a parameter, or a default.
    pub fn get_number(&self, key: &str, default: u64) -> (r: u64)
        ensures
            r == match self.number(key@) {
                Some(n) => n,
                None => default,
            },
    {
        let k = self.position(key);
        if k < self.fields.len() {
            match &self.fields[k].1 {
                ParamValue::Number(n) => *n,
                _ => default,
            }
        } else {
            default
        }
    }
}

/// The commands.
#[derive(Clone, Copy, Debug, PartialEq, Eq, Structural)]
pub enum CommandName {
    /// Connect to a peer.
    Connect,
    /// Disconnect a peer.
    Disconnect,
    /// Set what is forwarded for a peer.
    SetPeerPolicy,
    /// Start an echo test.
    BenchmarkEcho,
    /// Start a throughput test.
    BenchmarkThroughput,
    /// Show the results of an echo test.
    ShowEchoResults,
    /// Show the result of a throughput test.
    ShowThroughputResults,
}

/// The name of a command on the socket.
pub open spec fn command_text(c: CommandName) -> Seq<char> {
    match c {
        CommandName::Connect => "connect"@,
        CommandName::Disconnect => "disconnect"@,
        CommandName::SetPeerPolicy => "set_peer_policy"@,
        CommandName::BenchmarkEcho => "benchmark_echo"@,
        CommandName::BenchmarkThroughput => "benchmark_throughput"@,
        CommandName::ShowEchoResults => "show_benchmark_echo_results"@,
        CommandName::ShowThroughputResults => "show_benchmark_throughput_results"@,
    }
}

/// Finds the command of a name; an unknown name is reported.
pub fn dispatch(command: &str) -> (r: Result<CommandName, String>)
    ensures
        match r {
            Ok(c) => command@ == command_text(c),
            Err(m) => m@ == "unknown command: "@ + command@ && forall|c: CommandName|
                command@ != #[trigger] command_text(c),
        },
{
    if same_text(command, "connect") {
        return Ok(CommandName::Connect);
    }
    if same_text(command, "disconnect") {
        return Ok(CommandName::Disconnect);
    }
    if same_text(command, "set_peer_policy") {
        return Ok(CommandName::SetPeerPolicy);
    }
    if same_text(command, "benchmark_echo") {
        return Ok(CommandName::BenchmarkEcho);
    }
    if same_text(command, "benchmark_throughput") {
        return Ok(CommandName::BenchmarkThroughput);
    }
    if same_text(command, "show_benchmark_echo_results") {
        return Ok(CommandName::ShowEchoResults);
    }
    if same_text(command, "show_benchmark_throughput_results") {
        return Ok(CommandName::ShowThroughputResults);
    }
    Err(String::from_str("unknown command: ").concat(command))
}

/// Whether `r` is the text of a required parameter, or the report that it is
/// missing.
pub open spec fn required(
    value: Option<Seq<char>>,
    message: Seq<char>,
    r: Result<String, String>,
) -> bool {
    match value {
        Some(v) => r matches Ok(s) && s@ == v,
        None => r matches Err(m) && m@ == message,
    }
}

/// The text of a required parameter.
fn require_text(params: &Params, key: &str, message: &str) -> (r: Result<String, String>)
    ensures
        required(params.text(key@), message@, r),
{
    match params.get_text(key) {
        Some(s) => Ok(String::from_str(s)),
        None => Err(String::from_str(message)),
    }
}

/// A request to connect.
pub struct ConnectRequest {
    /// Peer.
    pub npub: String,
    /// Address.
    pub address: String,
    /// Transport.
    pub transport: String,
}

/// Reads the parameters of a connect command.
pub fn connect(params: Option<&Params>) -> (r: Result<ConnectRequest, String>)
    ensures
        match params {
            None => r matches Err(m) && m@ == "missing params for connect"@,
            Some(p) => match (p.text("npub"@), p.text("address"@), p.text("transport"@)) {
                (None, _, _) => r matches Err(m) && m@ == "missing 'npub' parameter"@,
                (_, None, _) => r matches Err(m) && m@ == "missing 'address' parameter"@,
                (_, _, None) => r matches Err(m) && m@ == "missing 'transport' parameter"@,
                (Some(n), Some(a), Some(t)) => r matches Ok(c) && c.npub@ == n && c.address@ == a
                    && c.transport@ == t,
            },
        },
{
    let params = match params {
        Some(p) => p,
        None => {
            return Err(String::from_str("missing params for connect"));
        },
    };
    let npub = match require_text(params, "npub", "missing 'npub' parameter") {
        Ok(v) => v,
        Err(m) => {
            return Err(m);
        },
    };
    let address = match require_text(params, "address", "missing 'address' parameter") {
        Ok(v) => v,
        Err(m) => {
            return Err(m);
        },
    };
    let transport = match require_text(params, "transport", "missing 'transport' parameter") {
        Ok(v) => v,
        Err(m) => {
            return Err(m);
        },
    };
    Ok(ConnectRequest { npub, address, transport })
}

/// Reads the one parameter of a command that only names a peer.
fn peer_only(params: Option<&Params>, missing: &str) -> (r: Result<String, String>)
    ensures
        match params {
            None => r matches Err(m) && m@ == missing@,
            Some(p) => required(p.text("npub"@), "missing 'npub' parameter"@, r),
        },
{
    match params {
        Some(p) => require_text(p, "npub", "missing 'npub' parameter"),
        None => Err(String::from_str(missing)),
    }
}

/// Reads the parameters of a disconnect command: the peer.
pub fn disconnect(params: Option<&Params>) -> (r: Result<String, String>)
    ensures
        match params {
            None => r matches Err(m) && m@ == "missing params for disconnect"@,
            Some(p) => required(p.text("npub"@), "missing 'npub' parameter"@, r),
        },
{
    peer_only(params, "missing params for disconnect")
}

/// What is forwarded for a peer.
#[derive(Clone, Copy, Debug, PartialEq, Eq, Structural)]
pub enum ForwardingPolicy {
    /// Everything.
    Full,
    /// Only what is for this node.
    LocalOnly,
}

/// A request to set what is forwarded for a peer.
pub struct PolicyRequest {
    /// Peer.
    pub npub: String,
    /// What is forwarded.
    pub policy: ForwardingPolicy,
}

/// Reads the parameters of a command that sets a policy.
pub fn set_peer_policy(params: Option<&Params>) -> (r: Result<PolicyRequest, String>)
    ensures
        match params {
            None => r matches Err(m) && m@ == "missing params for set_peer_policy"@,
            Some(p) => match (p.text("npub"@), p.text("policy"@)) {
                (None, _) => r matches Err(m) && m@ == "missing 'npub' parameter"@,
                (_, None) => r matches Err(m) && m@
                    == "missing 'policy' parameter (expected 'full' or 'local_only')"@,
                (Some(n), Some(t)) => if t == "full"@ {
                    r matches Ok(c) && c.npub@ == n && c.policy == ForwardingPolicy::Full
                } else if t == "local_only"@ {
                    r matches Ok(c) && c.npub@ == n && c.policy == ForwardingPolicy::LocalOnly
                } else {
                    r matches Err(m) && m@ == "invalid policy '"@ + t
                        + "': expected 'full' or 'local_only'"@
                },
            },
        },
{
    let params = match params {
        Some(p) => p,
        None => {
            return Err(String::from_str("missing params for set_peer_policy"));
        },
    };
    let npub = match require_text(params, "npub", "missing 'npub' parameter") {
        Ok(v) => v,
        Err(m) => {
            return Err(m);
        },
    };
    let text = match require_text(
        params,
        "policy",
        "missing 'policy' parameter (expected 'full' or 'local_only')",
    ) {
        Ok(v) => v,
        Err(m) => {
            return Err(m);
        },
    };
    if same_text(text.as_str(), "full") {
        return Ok(PolicyRequest { npub, policy: ForwardingPolicy::Full });
    }
    if same_text(text.as_str(), "local_only") {
        return Ok(PolicyRequest { npub, policy: ForwardingPolicy::LocalOnly });
    }
    Err(
        String::from_str("invalid policy '").concat(text.as_str()).concat(
            "': expected 'full' or 'local_only'",
        ),
    )
}

/// The word for a policy.
pub open spec fn policy_text(p: ForwardingPolicy) -> Seq<char> {
    match p {
        ForwardingPolicy::Full => "full"@,
        ForwardingPolicy::LocalOnly => "local_only"@,
    }
}

impl ForwardingPolicy {
    /// The word for the policy.
    pub fn text(&self) -> (r: String)
        ensures
            r@ == policy_text(*self),
    {
        match self {
            ForwardingPolicy::Full => String::from_str("full"),
            ForwardingPolicy::LocalOnly => String::from_str("local_only"),
        }
    }
}

/// What was changed.
pub struct PolicyChange {
    /// Word for the policy before.
    pub old_policy: String,
    /// Word for the policy now.
    pub new_policy: String,
}

/// Answers a request to set a policy, given the policy that the peer had if it is
/// there: its policy is then the one asked for.
pub fn apply_peer_policy(
    request: &PolicyRequest,
    peer: Result<Option<ForwardingPolicy>, String>,
) -> (r: Result<PolicyChange, String>)
    ensures
        match peer {
            Err(e) => r matches Err(m) && m@ == "invalid npub: "@ + e@,
            Ok(None) => r matches Err(m) && m@ == "peer "@ + request.npub@
                + " not found or not authenticated"@,
            Ok(Some(before)) => r matches Ok(c) && c.old_policy@ == policy_text(before)
                && c.new_policy@ == policy_text(request.policy),
        },
{
    match peer {
        Err(e) => Err(String::from_str("invalid npub: ").concat(e.as_str())),
        Ok(None) => Err(
            String::from_str("peer ").concat(request.npub.as_str()).concat(
                " not found or not authenticated",
            ),
        ),
        Ok(Some(before)) => Ok(
            PolicyChange { old_policy: before.text(), new_policy: request.policy.text() },
        ),
    }
}

/// A request for an echo test.
pub struct EchoRequestParams {
    /// Peer.
    pub npub: String,
    /// Probes.
    pub count: u32,
    /// Payload size in bytes.
    pub payload_size: usize,
}

/// A number, or a default.
pub open spec fn number_or(n: Option<u64>, default: int) -> int {
    match n {
        Some(n) => n as int,
        None => default,
    }
}

/// Reads the parameters of an echo test. Numbers that are too large lose their
/// upper bits.
pub fn benchmark_echo(params: Option<&Params>) -> (r: Result<EchoRequestParams, String>)
    ensures
        match params {
            None => r matches Err(m) && m@ == "missing params for benchmark_echo"@,
            Some(p) => match p.text("npub"@) {
                None => r matches Err(m) && m@ == "missing 'npub' parameter"@,
                Some(n) => r matches Ok(c) && c.npub@ == n && c.count == number_or(
                    p.number("count"@),
                    10,
                ) % 0x1_0000_0000 && c.payload_size == number_or(p.number("payload_size"@), 0)
                    % (usize::MAX + 1),
            },
        },
{
    let params = match params {
        Some(p) => p,
        None => {
            return Err(String::from_str("missing params for benchmark_echo"));
        },
    };
    let npub = match require_text(params, "npub", "missing 'npub' parameter") {
        Ok(v) => v,
        Err(m) => {
            return Err(m);
        },
    };
    let count: u32 = (params.get_number("count", 10) % 0x1_0000_0000) as u32;
    let payload: u128 = params.get_number("payload_size", 0) as u128;
    let payload_size: usize = (payload % (usize::MAX as u128 + 1)) as usize;
    Ok(EchoRequestParams { npub, count, payload_size })
}

/// A request for a throughput test. The direction is checked once the peer is
/// known to be one.
pub struct ThroughputRequestParams {
    /// Peer.
    pub npub: String,
    /// Direction.
    pub direction: String,
    /// Duration in seconds.
    pub duration: u8,
    /// Frame size in bytes.
    pub frame_size: u16,
    /// Target rate in bits per second.
    pub rate: u32,
}

/// Reads the parameters of a throughput test. Numbers that are too large lose
/// their upper bits.
pub fn benchmark_throughput(params: Option<&Params>) -> (r: Result<ThroughputRequestParams, String>)
    ensures
        match params {
            None => r matches Err(m) && m@ == "missing params for benchmark_throughput"@,
            Some(p) => match p.text("npub"@) {
                None => r matches Err(m) && m@ == "missing 'npub' parameter"@,
                Some(n) => r matches Ok(c) && c.npub@ == n && c.direction@ == match p.text(
                    "direction"@,
                ) {
                    Some(d) => d,
                    None => "upload"@,
                } && c.duration == number_or(p.number("duration"@), 5) % 256 && c.frame_size
                    == number_or(p.number("frame_size"@), 256) % 0x1_0000 && c.rate == number_or(
                    p.number("rate"@),
                    40000,
                ) % 0x1_0000_0000,
            },
        },
{
    let params = match params {
        Some(p) => p,
        None => {
            return Err(String::from_str("missing params for benchmark_throughput"));
        },
    };
    let npub = match require_text(params, "npub", "missing 'npub' parameter") {
        Ok(v) => v,
        Err(m) => {
            return Err(m);
        },
    };
    let direction = match params.get_text("direction") {
        Some(d) => String::from_str(d),
        None => String::from_str("upload"),
    };
    let duration: u8 = (params.get_number("duration", 5) % 256) as u8;
    let frame_size: u16 = (params.get_number("frame_size", 256) % 0x1_0000) as u16;
    let rate: u32 = (params.get_number("rate", 40000) % 0x1_0000_0000) as u32;
    Ok(ThroughputRequestParams { npub, direction, duration, frame_size, rate })
}

/// Reads a direction.
pub fn parse_direction(text: &str) -> (r: Result<Direction, String>)
    ensures
        if text@ == "upload"@ {
            r matches Ok(d) && d == Direction::Upload
        } else if text@ == "download"@ {
            r matches Ok(d) && d == Direction::Download
        } else {
            r matches Err(m) && m@ == "direction must be 'upload' or 'download'"@
        },
{
    if same_text(text, "upload") {
        return Ok(Direction::Upload);
    }
    if same_text(text, "download") {
        return Ok(Direction::Download);
    }
    Err(String::from_str("direction must be 'upload' or 'download'"))
}

/// Starts an echo test with a peer, where the name given for it is that of a peer.
/// Returns the number of probes that are queued and expected.
pub fn start_echo(
    bm: &mut BenchmarkManager,
    request: &EchoRequestParams,
    peer: Result<NodeAddr, String>,
) -> (r: Result<u32, String>)
    ensures
        match peer {
            Ok(p) => {
                &&& r matches Ok(n) && n == request.count
                &&& final(bm)@ == old(bm)@.echo_started(p, request.count, request.payload_size)
            },
            Err(e) => {
                &&& r matches Err(m) && m@ == "invalid peer npub: "@ + e@
                &&& final(bm)@ == old(bm)@
            },
        },
{
    match peer {
        Ok(p) => {
            bm.start_echo_test(p, request.count, request.payload_size);
            Ok(request.count)
        },
        Err(e) => Err(String::from_str("invalid peer npub: ").concat(e.as_str())),
    }
}

/// A throughput test whose request is to be sent.
pub struct PreparedThroughput {
    /// Peer.
    pub peer: NodeAddr,
    /// Direction.
    pub direction: Direction,
    /// Number of the test.
    pub test_id: u32,
    /// The request.
    pub frame: Vec<u8>,
}

/// Whether a test is the one that a request asks for.
pub open spec fn prepares(
    before: BenchModel,
    request: ThroughputRequestParams,
    peer: NodeAddr,
    direction: Direction,
    after: BenchModel,
    p: PreparedThroughput,
) -> bool {
    let id = before.next_test_id;
    let config = ThroughputTestConfig {
        test_id: id,
        direction,
        duration_secs: request.duration,
        frame_size: request.frame_size,
        rate_bps: request.rate,
    };
    &&& p.peer == peer
    &&& p.direction == direction
    &&& p.test_id == id
    &&& p.frame@ == framed(MSG_THROUGHPUT_REQUEST, request_of(config).wire())
    &&& exists|now_us: u64|
        after == (BenchModel {
            next_test_id: (id + 1) as u32,
            active: before.active.insert(
                id,
                #[trigger] fresh_test(id, request.duration, now_us),
            ),
            ..before
        })
}

/// Prepares a throughput test with a peer. Nothing is prepared where the name
/// given for the peer is not that of one, or where the direction is none.
pub fn prepare_throughput(
    bm: &mut BenchmarkManager,
    request: &ThroughputRequestParams,
    peer: Result<NodeAddr, String>,
) -> (r: Result<PreparedThroughput, String>)
    requires
        old(bm)@.next_test_id < u32::MAX,
    ensures
        match peer {
            Err(e) => {
                &&& r matches Err(m) && m@ == "invalid peer npub: "@ + e@
                &&& final(bm)@ == old(bm)@
            },
            Ok(p) => if request.direction@ == "upload"@ {
                r matches Ok(t) && prepares(
                    old(bm)@,
                    *request,
                    p,
                    Direction::Upload,
                    final(bm)@,
                    t,
                )
            } else if request.direction@ == "download"@ {
                r matches Ok(t) && prepares(
                    old(bm)@,
                    *request,
                    p,
                    Direction::Download,
                    final(bm)@,
                    t,
                )
            } else {
                &&& r matches Err(m) && m@ == "direction must be 'upload' or 'download'"@
                &&& final(bm)@ == old(bm)@
            },
        },
{
    let peer = match peer {
        Ok(p) => p,
        Err(e) => {
            return Err(String::from_str("invalid peer npub: ").concat(e.as_str()));
        },
    };
    let direction = match parse_direction(request.direction.as_str()) {
        Ok(d) => d,
        Err(m) => {
            return Err(m);
        },
    };
    let (test_id, _, frame) = bm.prepare_throughput_test(
        direction,
        request.duration,
        request.frame_size,
        request.rate,
    );
    Ok(PreparedThroughput { peer, direction, test_id, frame })
}

/// Goes on with a throughput test once its request was sent, or not. Returns the
/// number of stream frames that are queued.
pub fn throughput_requested(
    bm: &mut BenchmarkManager,
    request: &ThroughputRequestParams,
    prepared: &PreparedThroughput,
    sent: Result<(), String>,
) -> (r: Result<u32, String>)
    ensures
        match sent {
            Err(e) => {
                &&& r matches Err(m) && m@ == "failed to send throughput request: "@ + e@
                &&& final(bm)@ == old(bm)@
            },
            Ok(_) => match prepared.direction {
                Direction::Upload => {
                    &&& r matches Ok(n) && n == frame_count(
                        request.frame_size,
                        request.rate,
                        request.duration,
                    )
                    &&& final(bm)@ == old(bm)@.throughput_started(
                        prepared.peer,
                        prepared.test_id,
                        request.frame_size,
                        request.rate,
                        request.duration,
                    )
                },
                Direction::Download => {
                    &&& r matches Ok(n) && n == 0
                    &&& final(bm)@ == old(bm)@
                },
            },
        },
{
    if let Err(e) = sent {
        return Err(String::from_str("failed to send throughput request: ").concat(e.as_str()));
    }
    if let Direction::Upload = prepared.direction {
        bm.start_throughput_sends(
            prepared.peer,
            prepared.test_id,
            request.frame_size,
            request.rate,
            request.duration,
        );
    }
    Ok(queued_frames(prepared.direction, request.frame_size, request.rate, request.duration))
}

/// Number of stream frames that a throughput test queues here: all of them for
/// an upload, none for a download.
pub fn queued_frames(direction: Direction, frame_size: u16, rate: u32, duration: u8) -> (r: u32)
    ensures
        r == match direction {
            Direction::Upload => frame_count(frame_size, rate, duration),
            Direction::Download => 0,
        },
{
    match direction {
        Direction::Upload => total_frames(frame_size, rate, duration),
        Direction::Download => 0,
    }
}

/// Reads the parameters of a request for echo results: the peer.
pub fn benchmark_echo_results(params: Option<&Params>) -> (r: Result<String, String>)
    ensures
        match params {
            None => r matches Err(m) && m@ == "missing params for show_benchmark_echo_results"@,
            Some(p) => required(p.text("npub"@), "missing 'npub' parameter"@, r),
        },
{
    peer_only(params, "missing params for show_benchmark_echo_results")
}

/// Reads the parameters of a request for the throughput result: the peer.
pub fn benchmark_throughput_results(params: Option<&Params>) -> (r: Result<String, String>)
    ensures
        match params {
            None => r matches Err(m) && m@
                == "missing params for show_benchmark_throughput_results"@,
            Some(p) => required(p.text("npub"@), "missing 'npub' parameter"@, r),
        },
{
    peer_only(params, "missing params for show_benchmark_throughput_results")
}

/// What is known of an echo test.
pub enum EchoReply {
    /// Results so far, evaluated.
    Results(EchoStats),
    /// No test was started.
    NoTest,
    /// A test is under way.
    Pending,
}

/// Answers a request for echo results, given the results of the peer and the
/// number expected.
pub fn echo_reply(results: Option<&[EchoResult]>, expected: Option<u32>) -> (r: EchoReply)
    requires
        results is Some && expected is Some ==> stats_fit(results->0@),
    ensures
        match (results, expected) {
            (Some(s), Some(n)) => r matches EchoReply::Results(stats) && is_stats(
                s@,
                n as usize,
                stats,
            ),
            (None, None) => r is NoTest,
            _ => r is Pending,
        },
{
    match (results, expected) {
        (Some(s), Some(n)) => {
            let mut copied: Vec<EchoResult> = Vec::new();
            let mut k: usize = 0;
            while k < s.len()
                invariant
                    k <= s.len(),
                    copied@ == s@.take(k as int),
                decreases s.len() - k,
            {
                copied.push(s[k]);
                assert(copied@ =~= s@.take(k + 1));
                k += 1;
            }
            assert(s@.take(k as int) =~= s@);
            EchoReply::Results(compute_echo_stats(copied, n as usize))
        },
        (None, None) => EchoReply::NoTest,
        _ => EchoReply::Pending,
    }
}

/// What is known of the last throughput test.
pub enum ThroughputReply {
    /// A result.
    Complete {
        /// Address of the peer in hexadecimal digits.
        peer: String,
        /// The result.
        result: ThroughputResult,
    },
    /// No result yet.
    Pending,
}

/// Answers a request for the throughput result. It is that of the last test,
/// whichever peer the request names.
pub fn throughput_reply(bm: &BenchmarkManager) -> (r: ThroughputReply)
    ensures
        match bm@.last_result {
            Some((p, result)) => r matches ThroughputReply::Complete { peer, result: shown }
                && peer@ == hex_text(p.bytes()) && shown == result,
            None => r is Pending,
        },
{
    match bm.last_throughput_result() {
        Some((p, result)) => ThroughputReply::Complete { peer: p.text(), result },
        None => ThroughputReply::Pending,
    }
}

} // verus!
