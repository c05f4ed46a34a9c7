use vstd::prelude::*;
use crate::registry::{alive, evicted, ClientRegistry, PeerAddr, upserted};
use crate::text::{occurs_at, occurs_in};
use crate::text::{decode_lossy, lossy_of, lower_of, lowercase, trim_text, trimmed_of};

verus! {

/// `DISCOVER` in ASCII.
pub open spec fn discover_tag() -> Seq<u8> {
    seq![68u8, 73u8, 83u8, 67u8, 79u8, 86u8, 69u8, 82u8]
}

/// `HELLO` in ASCII.
pub open spec fn hello_tag() -> Seq<u8> {
    seq![72u8, 69u8, 76u8, 76u8, 79u8]
}

/// `PING` in ASCII.
pub open spec fn ping_tag() -> Seq<u8> {
    seq![80u8, 73u8, 78u8, 71u8]
}

/// `FAN:` in ASCII.
pub open spec fn fan_tag() -> Seq<u8> {
    seq![70u8, 65u8, 78u8, 58u8]
}

/// `p` occurs in `s` at position `from`.
pub open spec fn starts_at(s: Seq<u8>, from: int, p: Seq<u8>) -> bool {
    0 <= from && from + p.len() <= s.len() && s.subrange(from, from + p.len()) == p
}

/// The kinds of inbound datagram, told apart by their prefix.
#[derive(Clone, Copy, PartialEq, Eq, Structural, Debug)]
pub enum DatagramKind {
    Discover,
    Heartbeat,
    Fan,
    Other,
}

pub open spec fn kind_of(msg: Seq<u8>) -> DatagramKind {
    if starts_at(msg, 0, discover_tag()) {
        DatagramKind::Discover
    } else if starts_at(msg, 0, hello_tag()) || starts_at(msg, 0, ping_tag()) {
        DatagramKind::Heartbeat
    } else if starts_at(msg, 0, fan_tag()) {
        DatagramKind::Fan
    } else {
        DatagramKind::Other
    }
}

/// The position after every repetition of `FAN:` from `from` on.
pub open spec fn strip_fan(s: Seq<u8>, from: int) -> int
    decreases s.len() - from,
{
    if from >= 0 && starts_at(s, from, fan_tag()) {
        strip_fan(s, from + 4)
    } else {
        from
    }
}

/// The mode a fan command asks for: what follows the `FAN:` prefixes, decoded,
/// trimmed and lower-cased.
pub open spec fn fan_mode_of(msg: Seq<u8>) -> Seq<char> {
    lower_of(trimmed_of(lossy_of(msg.subrange(strip_fan(msg, 0), msg.len() as int))))
}

/// The reply to a discovery datagram.
pub open spec fn ack_token() -> Seq<char> {
    "SERVER"@
}

/// Every recognised datagram refreshes its sender; others change nothing.
pub open spec fn registry_after(
    m: Map<PeerAddr, u64>,
    addr: PeerAddr,
    msg: Seq<u8>,
    now: u64,
) -> Map<PeerAddr, u64> {
    if kind_of(msg) == DatagramKind::Other {
        m
    } else {
        upserted(m, addr, now)
    }
}

/// A heartbeat from an address that the registry does not hold yet.
pub open spec fn new_client_event(m: Map<PeerAddr, u64>, addr: PeerAddr, msg: Seq<u8>) -> bool {
    kind_of(msg) == DatagramKind::Heartbeat && !m.contains_key(addr)
}

/// What the service does with one datagram, beyond refreshing the sender.
pub enum DatagramAction {
    /// Send this text back to the sender.
    Reply(String),
    /// A heartbeat; `true` when the sender was not registered before.
    Registered(bool),
    /// Run the probe's fan command with this mode, then reply.
    SetFan(String),
    /// Not a command of this protocol.
    Ignore,
}

fn tag_bytes(kind: DatagramKind) -> (r: Vec<u8>)
    requires
        kind != DatagramKind::Other,
        kind != DatagramKind::Heartbeat,
    ensures
        kind == DatagramKind::Discover ==> r@ == discover_tag(),
        kind == DatagramKind::Fan ==> r@ == fan_tag(),
{
    match kind {
        DatagramKind::Discover => {
            let v: Vec<u8> = vec![68u8, 73u8, 83u8, 67u8, 79u8, 86u8, 69u8, 82u8];
            assert(v@ =~= discover_tag());
            v
        },
        _ => {
            let v: Vec<u8> = vec![70u8, 65u8, 78u8, 58u8];
            assert(v@ =~= fan_tag());
            v
        },
    }
}

fn hello_bytes() -> (r: Vec<u8>)
    ensures
        r@ == hello_tag(),
{
    let v: Vec<u8> = vec![72u8, 69u8, 76u8, 76u8, 79u8];
    assert(v@ =~= hello_tag());
    v
}

fn ping_bytes() -> (r: Vec<u8>)
    ensures
        r@ == ping_tag(),
{
    let v: Vec<u8> = vec![80u8, 73u8, 78u8, 71u8];
    assert(v@ =~= ping_tag());
    v
}

/// Whether `tag` occurs in `msg` at position `from`.
pub fn has_tag_at(msg: &Vec<u8>, from: usize, tag: &Vec<u8>) -> (r: bool)
    ensures
        r == starts_at(msg@, from as int, tag@),
{
    if from > msg.len() || tag.len() > msg.len() - from {
        return false;
    }
    let mut j: usize = 0;
    while j < tag.len()
        invariant
            from + tag@.len() <= msg@.len(),
            msg@.len() <= usize::MAX,
            j <= tag@.len(),
            forall|k: int| 0 <= k < j ==> msg@[from + k] == tag@[k],
        decreases tag@.len() - j,
    {
        if msg[from + j] != tag[j] {
            assert(msg@.subrange(from as int, from + tag@.len())[j as int] != tag@[j as int]);
            return false;
        }
        j = j + 1;
    }
    assert(msg@.subrange(from as int, from + tag@.len()) =~= tag@);
    true
}

/// Classifies a datagram by its prefix.
pub fn classify(msg: &Vec<u8>) -> (r: DatagramKind)
    ensures
        r == kind_of(msg@),
{
    if has_tag_at(msg, 0, &tag_bytes(DatagramKind::Discover)) {
        DatagramKind::Discover
    } else if has_tag_at(msg, 0, &hello_bytes()) || has_tag_at(msg, 0, &ping_bytes()) {
        DatagramKind::Heartbeat
    } else if has_tag_at(msg, 0, &tag_bytes(DatagramKind::Fan)) {
        DatagramKind::Fan
    } else {
        DatagramKind::Other
    }
}

/// The bytes of a fan command after all of its leading `FAN:` tags.
pub fn fan_argument(msg: &Vec<u8>) -> (r: Vec<u8>)
    ensures
        r@ == msg@.subrange(strip_fan(msg@, 0), msg@.len() as int),
{
    let tag = tag_bytes(DatagramKind::Fan);
    let n: usize = msg.len();
    let mut start: usize = 0;
    while has_tag_at(msg, start, &tag)
        invariant
            n == msg@.len(),
            tag@ == fan_tag(),
            start <= msg@.len(),
            strip_fan(msg@, start as int) == strip_fan(msg@, 0),
        decreases msg@.len() - start,
    {
        assert(fan_tag().len() == 4);
        start = start + 4;
    }
    let mut out: Vec<u8> = Vec::new();
    let mut i: usize = start;
    while i < msg.len()
        invariant
            start <= i <= msg@.len(),
            out@ == msg@.subrange(start as int, i as int),
        decreases msg@.len() - i,
    {
        out.push(msg[i]);
        i = i + 1;
        assert(out@ =~= msg@.subrange(start as int, i as int));
    }
    out
}

/// Handles one datagram from `addr` at time `now`: a discovery gets the
/// acknowledgment, a heartbeat reports whether the sender is new, a fan
/// command hands out its mode; each of them refreshes the sender.
pub fn handle_datagram(reg: &mut ClientRegistry, addr: PeerAddr, msg: &Vec<u8>, now: u64) -> (r: DatagramAction)
    requires
        old(reg).wf(),
    ensures
        final(reg).wf(),
        final(reg)@ == registry_after(old(reg)@, addr, msg@, now),
        kind_of(msg@) == DatagramKind::Discover ==> (r matches DatagramAction::Reply(s) && s@ == ack_token()),
        kind_of(msg@) == DatagramKind::Heartbeat ==> (r matches DatagramAction::Registered(b) && b == new_client_event(old(reg)@, addr, msg@)),
        kind_of(msg@) == DatagramKind::Fan ==> (r matches DatagramAction::SetFan(m) && m@ == fan_mode_of(msg@)),
        kind_of(msg@) == DatagramKind::Other ==> r matches DatagramAction::Ignore,
{
    match classify(msg) {
        DatagramKind::Discover => {
            reg.upsert(addr, now);
            DatagramAction::Reply(String::from_str("SERVER"))
        },
        DatagramKind::Heartbeat => {
            let is_new = reg.upsert(addr, now);
            DatagramAction::Registered(is_new)
        },
        DatagramKind::Fan => {
            let arg = fan_argument(msg);
            let text = decode_lossy(&arg);
            let trimmed = trim_text(text.as_str());
            let mode = lowercase(trimmed.as_str());
            reg.upsert(addr, now);
            DatagramAction::SetFan(mode)
        },
        DatagramKind::Other => DatagramAction::Ignore,
    }
}

/// How a fan command ended.
pub enum FanOutcome {
    /// The probe accepted the mode.
    Applied,
    /// The probe failed; its diagnostic text.
    Failed(String),
    /// No probe executable was found.
    NotFound,
}

/// The reply to a fan command.
pub open spec fn fan_reply_spec(mode: Seq<char>, outcome: FanOutcome) -> Seq<char> {
    match outcome {
        FanOutcome::Applied => "FAN_OK:"@ + mode,
        FanOutcome::Failed(e) => "FAN_ERR:"@ + e@,
        FanOutcome::NotFound => "FAN_ERR:temp_sensor not found"@,
    }
}

/// Builds the reply to a fan command with the given mode.
pub fn fan_reply(mode: &String, outcome: &FanOutcome) -> (r: String)
    ensures
        r@ == fan_reply_spec(mode@, *outcome),
{
    match outcome {
        FanOutcome::Applied => String::from_str("FAN_OK:").concat(mode.as_str()),
        FanOutcome::Failed(e) => String::from_str("FAN_ERR:").concat(e.as_str()),
        FanOutcome::NotFound => String::from_str("FAN_ERR:temp_sensor not found"),
    }
}

/// Where the probe executable is looked for, in order: beside the working
/// directory, one level up, under `server/`, and beside the running binary
/// where that directory is known.
pub fn probe_candidates(beside_exe: Option<String>) -> (r: Vec<String>)
    ensures
        r@.len() == if beside_exe.is_some() { 4int } else { 3int },
        r@[0]@ == "temp-sensor/temp_sensor"@,
        r@[1]@ == "../temp-sensor/temp_sensor"@,
        r@[2]@ == "server/temp-sensor/temp_sensor"@,
        beside_exe matches Some(p) ==> r@[3]@ == p@,
{
    let mut v: Vec<String> = Vec::new();
    v.push(String::from_str("temp-sensor/temp_sensor"));
    v.push(String::from_str("../temp-sensor/temp_sensor"));
    v.push(String::from_str("server/temp-sensor/temp_sensor"));
    match beside_exe {
        Some(p) => {
            v.push(p);
        },
        None => {},
    }
    v
}

/// A discovery datagram from any address is answered with the acknowledgment
/// token and registers the sender, who then stays among the push targets at
/// every eviction check before the timeout has passed.
pub proof fn lemma_discover_registers(
    m: Map<PeerAddr, u64>,
    addr: PeerAddr,
    msg: Seq<u8>,
    now: u64,
    later: u64,
    timeout: u64,
)
    requires
        starts_at(msg, 0, discover_tag()),
        alive(now, later, timeout),
    ensures
        kind_of(msg) == DatagramKind::Discover,
        registry_after(m, addr, msg, now).contains_key(addr),
        evicted(registry_after(m, addr, msg, now), later, timeout).contains_key(addr),
{
}

/// Repeated heartbeats from one address give at most one new-client event:
/// once any recognised datagram has registered the sender, no heartbeat that
/// follows counts as new.
pub proof fn lemma_heartbeat_new_once(
    m: Map<PeerAddr, u64>,
    addr: PeerAddr,
    first: Seq<u8>,
    next: Seq<u8>,
    t: u64,
)
    requires
        kind_of(first) != DatagramKind::Other,
    ensures
        !new_client_event(registry_after(m, addr, first, t), addr, next),
{
}

/// `FAN:quiet` in ASCII.
pub open spec fn fan_quiet_msg() -> Seq<u8> {
    seq![70u8, 65u8, 78u8, 58u8, 113u8, 117u8, 105u8, 101u8, 116u8]
}

/// A fan command with no probe to run gives an error reply that reports the
/// tool as not found, and still refreshes the sender.
pub proof fn lemma_fan_without_probe(m: Map<PeerAddr, u64>, addr: PeerAddr, now: u64, mode: Seq<char>)
    ensures
        kind_of(fan_quiet_msg()) == DatagramKind::Fan,
        registry_after(m, addr, fan_quiet_msg(), now).contains_key(addr),
        registry_after(m, addr, fan_quiet_msg(), now)[addr] == now,
        fan_reply_spec(mode, FanOutcome::NotFound).subrange(0, 8) == "FAN_ERR:"@,
        occurs_in(fan_reply_spec(mode, FanOutcome::NotFound), "not found"@),
{
    reveal_strlit("FAN_ERR:temp_sensor not found");
    reveal_strlit("FAN_ERR:");
    reveal_strlit("not found");
    let msg = fan_quiet_msg();
    assert(!starts_at(msg, 0, discover_tag())) by {
        assert(msg.subrange(0, 8)[1] != discover_tag()[1]);
    }
    assert(!starts_at(msg, 0, hello_tag())) by {
        assert(msg.subrange(0, 5)[0] != hello_tag()[0]);
    }
    assert(!starts_at(msg, 0, ping_tag())) by {
        assert(msg.subrange(0, 4)[0] != ping_tag()[0]);
    }
    assert(msg.subrange(0, 4) =~= fan_tag());
    let r = fan_reply_spec(mode, FanOutcome::NotFound);
    assert(r.subrange(0, 8) =~= "FAN_ERR:"@);
    assert(r.subrange(20, 29) =~= "not found"@);
    assert(occurs_at(r, "not found"@, 20));
}

} // verus!
