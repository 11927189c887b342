//! Discord IPC: frame headers, reading replies, and the decisions of the
//! presence worker.
//!
//! Connecting, reading and writing are the caller's; this module lists the
//! socket candidates, encodes and decodes frames and decides what to do next.

use vstd::prelude::*;

use crate::json::{as_text, field, JsonValue, JsonView};
use crate::text::{
    blank, chars_of, decimal, is_blank, push_char, push_decimal, push_str, str_eq, to_owned_string,
    trim, trim_string,
};

verus! {

// ---------------------------------------------------------------------------
// Where the Discord socket may be
// ---------------------------------------------------------------------------

/// The directories named by the environment values that have text, trimmed,
/// in order.
pub open spec fn named_dirs(values: Seq<Option<Seq<char>>>) -> Seq<Seq<char>>
    decreases values.len(),
{
    if values.len() == 0 {
        Seq::empty()
    } else {
        named_dirs(values.drop_last()) + match values.last() {
            Some(v) => if blank(v) {
                Seq::<Seq<char>>::empty()
            } else {
                seq![trim(v)]
            },
            None => Seq::empty(),
        }
    }
}

/// The directories searched for the socket: those named by the environment,
/// then `/tmp`.
pub open spec fn socket_dirs(values: Seq<Option<Seq<char>>>) -> Seq<Seq<char>> {
    named_dirs(values).push("/tmp"@)
}

/// The ten socket names in one directory: `discord-ipc-0` to `discord-ipc-9`.
pub open spec fn socket_names(dir: Seq<char>) -> Seq<(Seq<char>, Seq<char>)> {
    Seq::new(10, |i: int| (dir, "discord-ipc-"@ + decimal(i as nat)))
}

/// The (directory, file name) pairs to try, directory by directory.
pub open spec fn socket_candidates(dirs: Seq<Seq<char>>) -> Seq<(Seq<char>, Seq<char>)>
    decreases dirs.len(),
{
    if dirs.len() == 0 {
        Seq::empty()
    } else {
        socket_candidates(dirs.drop_last()) + socket_names(dirs.last())
    }
}

/// The views of optional strings.
pub open spec fn opt_strings(values: Seq<Option<String>>) -> Seq<Option<Seq<char>>> {
    values.map_values(|o: Option<String>| match o {
        Some(s) => Some(s@),
        None => None,
    })
}

/// The views of (directory, name) pairs.
pub open spec fn pair_views(pairs: Seq<(String, String)>) -> Seq<(Seq<char>, Seq<char>)> {
    pairs.map_values(|p: (String, String)| (p.0@, p.1@))
}

/// Where the Discord socket may be, as (directory, file name) pairs to try
/// in order; `env_values` are the values of `XDG_RUNTIME_DIR`, `TMPDIR`,
/// `TMP` and `TEMP`, where set.
pub fn ipc_socket_candidates(env_values: &Vec<Option<String>>) -> (r: Vec<(String, String)>)
    ensures
        pair_views(r@) == socket_candidates(socket_dirs(opt_strings(env_values@))),
{
    let ghost vals = opt_strings(env_values@);
    let mut dirs: Vec<String> = Vec::new();
    let mut i: usize = 0;
    while i < env_values.len()
        invariant
            i <= env_values.len(),
            vals == opt_strings(env_values@),
            dirs@.map_values(|d: String| d@) =~= named_dirs(vals.take(i as int)),
        decreases env_values.len() - i,
    {
        assert(vals.take(i + 1).drop_last() =~= vals.take(i as int));
        match &env_values[i] {
            Some(v) => {
                if !is_blank(v.as_str()) {
                    dirs.push(trim_string(v.as_str()));
                }
            },
            None => {},
        }
        i += 1;
    }
    assert(vals.take(env_values.len() as int) =~= vals);
    dirs.push(to_owned_string("/tmp"));
    let ghost dv = dirs@.map_values(|d: String| d@);
    assert(dv =~= socket_dirs(vals));
    let mut r: Vec<(String, String)> = Vec::new();
    let mut p: usize = 0;
    while p < dirs.len()
        invariant
            p <= dirs.len(),
            dv == dirs@.map_values(|d: String| d@),
            pair_views(r@) =~= socket_candidates(dv.take(p as int)),
        decreases dirs.len() - p,
    {
        assert(dv.take(p + 1).drop_last() =~= dv.take(p as int));
        let ghost before = pair_views(r@);
        let mut k: u64 = 0;
        while k < 10
            invariant
                p < dirs.len(),
                dv == dirs@.map_values(|d: String| d@),
                k <= 10,
                pair_views(r@) =~= before + socket_names(dv[p as int]).take(k as int),
            decreases 10 - k,
        {
            let mut name = to_owned_string("discord-ipc-");
            push_decimal(&mut name, k);
            let ghost prev = r@;
            r.push((dirs[p].clone(), name));
            assert(pair_views(r@) =~= pair_views(prev).push((dv[p as int], "discord-ipc-"@ + decimal(k as nat))));
            assert(socket_names(dv[p as int]).take(k + 1) =~= socket_names(dv[p as int]).take(k as int).push(
                (dv[p as int], "discord-ipc-"@ + decimal(k as nat)),
            ));
            k += 1;
        }
        assert(socket_names(dv[p as int]).take(10) =~= socket_names(dv[p as int]));
        p += 1;
    }
    assert(dv.take(dirs.len() as int) =~= dv);
    r
}


/// Discord IPC opcodes.
#[derive(PartialEq, Eq, Structural, Clone, Copy)]
pub enum DiscordIpcOpcode {
    Handshake,
    Frame,
    Close,
    Ping,
    Pong,
}

/// The wire number of an opcode.
pub open spec fn opcode_number(op: DiscordIpcOpcode) -> u32 {
    match op {
        DiscordIpcOpcode::Handshake => 0,
        DiscordIpcOpcode::Frame => 1,
        DiscordIpcOpcode::Close => 2,
        DiscordIpcOpcode::Ping => 3,
        DiscordIpcOpcode::Pong => 4,
    }
}

impl DiscordIpcOpcode {
    /// The opcode with a wire number, if it is one of the five.
    pub fn from_u32(value: u32) -> (r: Option<Self>)
        ensures
            value <= 4 <==> r is Some,
            r matches Some(op) ==> opcode_number(op) == value,
    {
        match value {
            0 => Some(DiscordIpcOpcode::Handshake),
            1 => Some(DiscordIpcOpcode::Frame),
            2 => Some(DiscordIpcOpcode::Close),
            3 => Some(DiscordIpcOpcode::Ping),
            4 => Some(DiscordIpcOpcode::Pong),
            _ => None,
        }
    }

    /// The wire number of the opcode.
    pub fn as_u32(&self) -> (n: u32)
        ensures
            n == opcode_number(*self),
    {
        match self {
            DiscordIpcOpcode::Handshake => 0,
            DiscordIpcOpcode::Frame => 1,
            DiscordIpcOpcode::Close => 2,
            DiscordIpcOpcode::Ping => 3,
            DiscordIpcOpcode::Pong => 4,
        }
    }
}

/// Opcodes and their wire numbers correspond one to one, so reading back
/// the number an opcode is written as gives the same opcode: the number is
/// one that `from_u32` accepts, and no other opcode has it.
pub proof fn lemma_opcode_round_trip(op: DiscordIpcOpcode)
    ensures
        opcode_number(op) <= 4,
        forall|other: DiscordIpcOpcode| #[trigger] opcode_number(other) == opcode_number(op) ==> other == op,
{
}

/// The four little-endian bytes of `x`.
pub open spec fn le_bytes(x: u32) -> Seq<u8> {
    seq![(x % 256) as u8, ((x / 256) % 256) as u8, ((x / 65536) % 256) as u8, (x / 16777216) as u8]
}

/// The number that four little-endian bytes encode.
pub open spec fn le_value(b0: u8, b1: u8, b2: u8, b3: u8) -> int {
    b0 + 256 * b1 + 65536 * b2 + 16777216 * b3
}

fn push_le_u32(out: &mut Vec<u8>, x: u32)
    ensures
        final(out)@ == old(out)@ + le_bytes(x),
{
    out.push((x % 256) as u8);
    out.push(((x / 256) % 256) as u8);
    out.push(((x / 65536) % 256) as u8);
    out.push((x / 16777216) as u8);
    assert(out@ =~= old(out)@ + le_bytes(x));
}

/// The frame header: opcode and payload length, each four little-endian
/// bytes. The length is reduced modulo 2^32 (`as u32`).
pub open spec fn frame_header(op: DiscordIpcOpcode, payload_len: usize) -> Seq<u8> {
    le_bytes(opcode_number(op)) + le_bytes(payload_len as u32)
}

/// The bytes of a frame: header, then payload (what `write_ipc_frame`
/// writes).
pub fn encode_ipc_frame(opcode: DiscordIpcOpcode, payload: &[u8]) -> (out: Vec<u8>)
    ensures
        out@ == frame_header(opcode, payload@.len() as usize) + payload@,
{
    let mut out: Vec<u8> = Vec::new();
    push_le_u32(&mut out, opcode.as_u32());
    let len = payload.len();
    let len32: u32 = #[verifier::truncate] (len as u32);
    push_le_u32(&mut out, len32);
    let ghost head = out@;
    let mut i: usize = 0;
    while i < payload.len()
        invariant
            i <= payload.len(),
            out@ == head + payload@.subrange(0, i as int),
        decreases payload.len() - i,
    {
        out.push(payload[i]);
        assert(payload@.subrange(0, i + 1) == payload@.subrange(0, i as int).push(payload@[i as int]));
        i += 1;
    }
    assert(payload@.subrange(0, payload@.len() as int) == payload@);
    out
}

/// The opcode and payload length of a frame header, or the error for an
/// unknown opcode.
pub open spec fn header_fields(h: Seq<u8>) -> Result<(DiscordIpcOpcode, int), Seq<char>> {
    let raw = le_value(h[0], h[1], h[2], h[3]);
    if raw <= 4 {
        Ok(
            (
                if raw == 0 {
                    DiscordIpcOpcode::Handshake
                } else if raw == 1 {
                    DiscordIpcOpcode::Frame
                } else if raw == 2 {
                    DiscordIpcOpcode::Close
                } else if raw == 3 {
                    DiscordIpcOpcode::Ping
                } else {
                    DiscordIpcOpcode::Pong
                },
                le_value(h[4], h[5], h[6], h[7]),
            ),
        )
    } else {
        Err("unknown opcode: "@ + decimal(raw as nat))
    }
}

/// Reads a frame header (what `read_ipc_frame` decodes before the payload).
pub fn decode_ipc_header(header: &[u8; 8]) -> (r: Result<(DiscordIpcOpcode, u32), String>)
    ensures
        match header_fields(header@) {
            Ok((op, len)) => r matches Ok((rop, rlen)) && rop == op && rlen == len,
            Err(m) => r matches Err(e) && e@ == m,
        },
{
    let raw: u32 = header[0] as u32 + 256 * (header[1] as u32) + 65536 * (header[2] as u32)
        + 16777216 * (header[3] as u32);
    let length: u32 = header[4] as u32 + 256 * (header[5] as u32) + 65536 * (header[6] as u32)
        + 16777216 * (header[7] as u32);
    match DiscordIpcOpcode::from_u32(raw) {
        Some(op) => Ok((op, length)),
        None => {
            let mut m = String::new();
            push_str(&mut m, "unknown opcode: ");
            push_decimal(&mut m, raw as u64);
            Err(m)
        },
    }
}

/// Encoding then decoding a header gives back the opcode and the length.
pub proof fn lemma_header_round_trip(op: DiscordIpcOpcode, len: u32)
    ensures
        header_fields(le_bytes(opcode_number(op)) + le_bytes(len)) == Ok::<
            (DiscordIpcOpcode, int),
            Seq<char>,
        >((op, len as int)),
{
    let h = le_bytes(opcode_number(op)) + le_bytes(len);
    assert(h[4] == (len % 256) as u8);
    assert(h[5] == ((len / 256) % 256) as u8);
    assert(h[6] == ((len / 65536) % 256) as u8);
    assert(h[7] == (len / 16777216) as u8);
    assert(le_value(h[4], h[5], h[6], h[7]) == len);
}

/// `s` with each line feed written as the two characters `\n`.
pub open spec fn escaped_newlines(s: Seq<char>) -> Seq<char>
    decreases s.len(),
{
    if s.len() == 0 {
        Seq::empty()
    } else {
        escaped_newlines(s.drop_last()) + if s.last() == '\n' {
            seq!['\\', 'n']
        } else {
            seq![s.last()]
        }
    }
}

/// A payload shown on one log line.
pub fn preview_payload(payload: &str) -> (r: String)
    ensures
        r@ == escaped_newlines(payload@),
{
    let v = chars_of(payload);
    let mut r = String::new();
    let mut i: usize = 0;
    while i < v.len()
        invariant
            v@ == payload@,
            i <= v.len(),
            r@ == escaped_newlines(v@.subrange(0, i as int)),
        decreases v.len() - i,
    {
        assert(v@.subrange(0, i + 1).drop_last() == v@.subrange(0, i as int));
        if v[i] == '\n' {
            push_char(&mut r, '\\');
            push_char(&mut r, 'n');
        } else {
            push_char(&mut r, v[i]);
        }
        i += 1;
    }
    assert(v@.subrange(0, v@.len() as int) == v@);
    r
}

/// The message of an RPC `ERROR` event; `None` for other payloads or where
/// the payload is not JSON.
pub open spec fn rpc_error_message(parsed: Option<JsonView>) -> Option<Seq<char>> {
    match parsed {
        Some(json) => match field(json, "evt"@) {
            Some(evt) => if as_text(evt) == Some("ERROR"@) {
                Some(
                    match field(json, "data"@) {
                        Some(data) => match field(data, "message"@) {
                            Some(m) => match as_text(m) {
                                Some(t) => t,
                                None => "discord rpc returned ERROR event"@,
                            },
                            None => "discord rpc returned ERROR event"@,
                        },
                        None => "discord rpc returned ERROR event"@,
                    },
                )
            } else {
                None
            },
            None => None,
        },
        None => None,
    }
}

/// The view of an optional document.
pub open spec fn opt_json_view(o: Option<JsonValue>) -> Option<JsonView> {
    match o {
        Some(v) => Some(v@),
        None => None,
    }
}

/// The message of an RPC `ERROR` event. `parsed` is the payload decoded as
/// JSON, `None` where it is not JSON.
pub fn extract_rpc_error_message(parsed: &Option<JsonValue>) -> (r: Option<String>)
    ensures
        match rpc_error_message(opt_json_view(*parsed)) {
            Some(m) => r matches Some(rm) && rm@ == m,
            None => r is None,
        },
{
    let json = match parsed {
        Some(j) => j,
        None => return None,
    };
    let evt = match json.get("evt") {
        Some(e) => e,
        None => return None,
    };
    match evt.as_str() {
        Some(t) => {
            if !str_eq(t.as_str(), "ERROR") {
                return None;
            }
        },
        None => return None,
    }
    let message = match json.get("data") {
        Some(data) => match data.get("message") {
            Some(m) => match m.as_str() {
                Some(t) => to_owned_string(t.as_str()),
                None => to_owned_string("discord rpc returned ERROR event"),
            },
            None => to_owned_string("discord rpc returned ERROR event"),
        },
        None => to_owned_string("discord rpc returned ERROR event"),
    };
    Some(message)
}

/// Why a handshake failed.
pub enum HandshakeError {
    /// The reply was not a frame; the message names its opcode.
    InvalidData(String),
    /// The reply was an RPC error event.
    PermissionDenied(String),
}

/// The verdict on a handshake reply: an error where the reply is not a frame
/// or is an RPC error event.
pub open spec fn handshake_verdict(op: DiscordIpcOpcode, parsed: Option<JsonView>) -> Option<(bool, Seq<char>)> {
    if op != DiscordIpcOpcode::Frame {
        Some((true, "unexpected handshake opcode: "@ + decimal(opcode_number(op) as nat)))
    } else {
        match rpc_error_message(parsed) {
            Some(m) => Some((false, "handshake error: "@ + m)),
            None => None,
        }
    }
}

/// Checks the reply to a handshake (the decision of `handshake`).
pub fn check_handshake_reply(opcode: DiscordIpcOpcode, parsed: &Option<JsonValue>) -> (r: Result<(), HandshakeError>)
    ensures
        match handshake_verdict(opcode, opcode_view(parsed)) {
            None => r is Ok,
            Some((true, m)) => r matches Err(HandshakeError::InvalidData(e)) && e@ == m,
            Some((false, m)) => r matches Err(HandshakeError::PermissionDenied(e)) && e@ == m,
        },
{
    if opcode != DiscordIpcOpcode::Frame {
        let mut m = String::new();
        push_str(&mut m, "unexpected handshake opcode: ");
        push_decimal(&mut m, opcode.as_u32() as u64);
        return Err(HandshakeError::InvalidData(m));
    }
    match extract_rpc_error_message(parsed) {
        Some(message) => {
            let mut m = String::new();
            push_str(&mut m, "handshake error: ");
            push_str(&mut m, message.as_str());
            Err(HandshakeError::PermissionDenied(m))
        },
        None => Ok(()),
    }
}

/// The view of an optional document.
pub open spec fn opcode_view(o: &Option<JsonValue>) -> Option<JsonView> {
    opt_json_view(*o)
}

/// What an incoming frame means to the worker.
pub enum IpcEvent {
    /// A ping, to be answered with its payload.
    Ping(Vec<u8>),
    /// The other side closes.
    Close,
    /// An RPC error event, with its message.
    RpcError(String),
    /// Anything else.
    Other,
}

/// Classifies an incoming frame. `parsed` is
/// the payload decoded as JSON, `None` where it is not JSON.
pub fn classify_frame(opcode: DiscordIpcOpcode, payload: Vec<u8>, parsed: &Option<JsonValue>) -> (r: IpcEvent)
    ensures
        opcode == DiscordIpcOpcode::Ping ==> (r matches IpcEvent::Ping(p) && p@ == payload@),
        opcode == DiscordIpcOpcode::Close ==> r is Close,
        opcode == DiscordIpcOpcode::Frame ==> match rpc_error_message(opt_json_view(*parsed)) {
            Some(m) => r matches IpcEvent::RpcError(e) && e@ == m,
            None => r is Other,
        },
        opcode != DiscordIpcOpcode::Ping && opcode != DiscordIpcOpcode::Close && opcode
            != DiscordIpcOpcode::Frame ==> r is Other,
{
    match opcode {
        DiscordIpcOpcode::Ping => IpcEvent::Ping(payload),
        DiscordIpcOpcode::Close => IpcEvent::Close,
        DiscordIpcOpcode::Frame => match extract_rpc_error_message(parsed) {
            Some(m) => IpcEvent::RpcError(m),
            None => IpcEvent::Other,
        },
        _ => IpcEvent::Other,
    }
}


// ---------------------------------------------------------------------------
// The presence worker
// ---------------------------------------------------------------------------

/// Where the presence worker stands.
#[derive(PartialEq, Eq, Structural, Clone, Copy)]
pub enum WorkerPhase {
    /// Waiting for the connection to the Discord socket.
    Connecting,
    /// Waiting for the handshake.
    Handshaking,
    /// Waiting for the first activity to be set.
    Activating,
    /// About to look for a command from the plugin.
    Polling,
    /// About to read the next frame from Discord.
    Reading,
    /// Waiting for a pong to be written.
    AnsweringPing,
    /// Finished.
    Exited,
}

/// What the worker learns from the outside.
pub enum WorkerEvent {
    /// Whether connecting succeeded.
    Connected(bool),
    /// Whether the handshake succeeded.
    HandshakeDone(bool),
    /// Whether setting the first activity succeeded.
    ActivitySet(bool),
    /// The plugin asked the worker to stop.
    StopCommand,
    /// The plugin's command channel is gone.
    ChannelDisconnected,
    /// No command is waiting.
    NoCommand,
    /// A frame arrived.
    Incoming(IpcEvent),
    /// Reading timed out or would block.
    ReadIdle,
    /// Reading failed otherwise.
    ReadFailed,
    /// Whether writing the pong succeeded.
    PongSent(bool),
}

/// Why the worker finished.
pub enum ExitReason {
    ConnectFailed,
    HandshakeFailed,
    ActivityFailed,
    Stopped,
    Disconnected,
    Closed,
    RpcError(String),
    ReadFailed,
    PongFailed,
}

/// What the worker asks the caller to do next.
pub enum WorkerAction {
    Connect,
    Handshake,
    SetActivity,
    PollCommand,
    ReadEvent,
    SendPong(Vec<u8>),
    /// Finish; clear the activity first where `clear_activity` is set.
    Exit { clear_activity: bool, reason: ExitReason },
    /// Nothing: the event does not apply in this phase.
    Nothing,
}

/// The presence worker's decisions, one event at a time.
pub struct PresenceWorker {
    pub phase: WorkerPhase,
}

/// The phase after `event` in `phase`.
pub open spec fn next_phase(phase: WorkerPhase, event: WorkerEvent) -> WorkerPhase {
    match (phase, event) {
        (WorkerPhase::Connecting, WorkerEvent::Connected(ok)) => if ok {
            WorkerPhase::Handshaking
        } else {
            WorkerPhase::Exited
        },
        (WorkerPhase::Handshaking, WorkerEvent::HandshakeDone(ok)) => if ok {
            WorkerPhase::Activating
        } else {
            WorkerPhase::Exited
        },
        (WorkerPhase::Activating, WorkerEvent::ActivitySet(ok)) => if ok {
            WorkerPhase::Polling
        } else {
            WorkerPhase::Exited
        },
        (WorkerPhase::Polling, WorkerEvent::StopCommand) => WorkerPhase::Exited,
        (WorkerPhase::Polling, WorkerEvent::ChannelDisconnected) => WorkerPhase::Exited,
        (WorkerPhase::Polling, WorkerEvent::NoCommand) => WorkerPhase::Reading,
        (WorkerPhase::Reading, WorkerEvent::Incoming(IpcEvent::Ping(_))) => WorkerPhase::AnsweringPing,
        (WorkerPhase::Reading, WorkerEvent::Incoming(IpcEvent::Other)) => WorkerPhase::Polling,
        (WorkerPhase::Reading, WorkerEvent::Incoming(_)) => WorkerPhase::Exited,
        (WorkerPhase::Reading, WorkerEvent::ReadIdle) => WorkerPhase::Polling,
        (WorkerPhase::Reading, WorkerEvent::ReadFailed) => WorkerPhase::Exited,
        (WorkerPhase::AnsweringPing, WorkerEvent::PongSent(ok)) => if ok {
            WorkerPhase::Polling
        } else {
            WorkerPhase::Exited
        },
        _ => phase,
    }
}

/// Whether an action finishes the worker, clearing the activity or not.
pub open spec fn exits(a: WorkerAction, clear: bool) -> bool {
    a matches WorkerAction::Exit { clear_activity, .. } && clear_activity == clear
}

/// The action that asks for the next command or frame after `phase` is
/// entered.
pub open spec fn entry_action_ok(phase: WorkerPhase, a: WorkerAction) -> bool {
    match phase {
        WorkerPhase::Handshaking => a is Handshake,
        WorkerPhase::Activating => a is SetActivity,
        WorkerPhase::Polling => a is PollCommand,
        WorkerPhase::Reading => a is ReadEvent,
        _ => true,
    }
}

impl PresenceWorker {
    /// A worker about to connect, and its first action.
    pub fn start() -> (r: (Self, WorkerAction))
        ensures
            r.0.phase == WorkerPhase::Connecting,
            r.1 is Connect,
    {
        (PresenceWorker { phase: WorkerPhase::Connecting }, WorkerAction::Connect)
    }

    /// Takes in one event and tells what to do next.
    pub fn step(&mut self, event: WorkerEvent) -> (a: WorkerAction)
        ensures
            final(self).phase == next_phase(old(self).phase, event),
            final(self).phase != old(self).phase && final(self).phase != WorkerPhase::Exited
                && final(self).phase != WorkerPhase::AnsweringPing ==> entry_action_ok(
                final(self).phase,
                a,
            ),
            old(self).phase == WorkerPhase::Reading ==> (event matches WorkerEvent::Incoming(
                IpcEvent::Ping(p),
            ) ==> (a matches WorkerAction::SendPong(q) && q@ == p@)),
            old(self).phase == WorkerPhase::Polling && (event is StopCommand
                || event is ChannelDisconnected) ==> exits(a, true),
            old(self).phase != WorkerPhase::Exited && final(self).phase == WorkerPhase::Exited
                && !(old(self).phase == WorkerPhase::Polling && (event is StopCommand
                || event is ChannelDisconnected)) ==> exits(a, false),
            old(self).phase == WorkerPhase::Reading ==> (event matches WorkerEvent::Incoming(
                IpcEvent::RpcError(m),
            ) ==> (a matches WorkerAction::Exit { reason: ExitReason::RpcError(rm), .. } && rm@
                == m@)),
            old(self).phase == WorkerPhase::Connecting ==> (event matches WorkerEvent::Connected(ok) && !ok
                ==> (a matches WorkerAction::Exit { reason: ExitReason::ConnectFailed, .. })),
            old(self).phase == WorkerPhase::Handshaking ==> (event matches WorkerEvent::HandshakeDone(ok) && !ok
                ==> (a matches WorkerAction::Exit { reason: ExitReason::HandshakeFailed, .. })),
            old(self).phase == WorkerPhase::Activating ==> (event matches WorkerEvent::ActivitySet(ok) && !ok
                ==> (a matches WorkerAction::Exit { reason: ExitReason::ActivityFailed, .. })),
            old(self).phase == WorkerPhase::Polling && event is StopCommand
                ==> a matches WorkerAction::Exit { reason: ExitReason::Stopped, .. },
            old(self).phase == WorkerPhase::Polling && event is ChannelDisconnected
                ==> a matches WorkerAction::Exit { reason: ExitReason::Disconnected, .. },
            old(self).phase == WorkerPhase::Reading ==> (event matches WorkerEvent::Incoming(i) && i is Close
                ==> (a matches WorkerAction::Exit { reason: ExitReason::Closed, .. })),
            old(self).phase == WorkerPhase::Reading && event is ReadFailed
                ==> a matches WorkerAction::Exit { reason: ExitReason::ReadFailed, .. },
            old(self).phase == WorkerPhase::AnsweringPing ==> (event matches WorkerEvent::PongSent(ok) && !ok
                ==> (a matches WorkerAction::Exit { reason: ExitReason::PongFailed, .. })),
            old(self).phase == WorkerPhase::Reading ==> (event matches WorkerEvent::Incoming(i) && i is Other
                ==> (final(self).phase == WorkerPhase::Polling && a is PollCommand)),
            old(self).phase == WorkerPhase::Reading && event is ReadIdle ==> final(self).phase
                == WorkerPhase::Polling && a is PollCommand,
            final(self).phase == old(self).phase ==> a is Nothing,
    {
        match (self.phase, event) {
            (WorkerPhase::Connecting, WorkerEvent::Connected(ok)) => {
                if ok {
                    self.phase = WorkerPhase::Handshaking;
                    WorkerAction::Handshake
                } else {
                    self.phase = WorkerPhase::Exited;
                    WorkerAction::Exit { clear_activity: false, reason: ExitReason::ConnectFailed }
                }
            },
            (WorkerPhase::Handshaking, WorkerEvent::HandshakeDone(ok)) => {
                if ok {
                    self.phase = WorkerPhase::Activating;
                    WorkerAction::SetActivity
                } else {
                    self.phase = WorkerPhase::Exited;
                    WorkerAction::Exit { clear_activity: false, reason: ExitReason::HandshakeFailed }
                }
            },
            (WorkerPhase::Activating, WorkerEvent::ActivitySet(ok)) => {
                if ok {
                    self.phase = WorkerPhase::Polling;
                    WorkerAction::PollCommand
                } else {
                    self.phase = WorkerPhase::Exited;
                    WorkerAction::Exit { clear_activity: false, reason: ExitReason::ActivityFailed }
                }
            },
            (WorkerPhase::Polling, WorkerEvent::StopCommand) => {
                self.phase = WorkerPhase::Exited;
                WorkerAction::Exit { clear_activity: true, reason: ExitReason::Stopped }
            },
            (WorkerPhase::Polling, WorkerEvent::ChannelDisconnected) => {
                self.phase = WorkerPhase::Exited;
                WorkerAction::Exit { clear_activity: true, reason: ExitReason::Disconnected }
            },
            (WorkerPhase::Polling, WorkerEvent::NoCommand) => {
                self.phase = WorkerPhase::Reading;
                WorkerAction::ReadEvent
            },
            (WorkerPhase::Reading, WorkerEvent::Incoming(incoming)) => match incoming {
                IpcEvent::Ping(payload) => {
                    self.phase = WorkerPhase::AnsweringPing;
                    WorkerAction::SendPong(payload)
                },
                IpcEvent::Close => {
                    self.phase = WorkerPhase::Exited;
                    WorkerAction::Exit { clear_activity: false, reason: ExitReason::Closed }
                },
                IpcEvent::RpcError(message) => {
                    self.phase = WorkerPhase::Exited;
                    WorkerAction::Exit {
                        clear_activity: false,
                        reason: ExitReason::RpcError(message),
                    }
                },
                IpcEvent::Other => {
                    self.phase = WorkerPhase::Polling;
                    WorkerAction::PollCommand
                },
            },
            (WorkerPhase::Reading, WorkerEvent::ReadIdle) => {
                self.phase = WorkerPhase::Polling;
                WorkerAction::PollCommand
            },
            (WorkerPhase::Reading, WorkerEvent::ReadFailed) => {
                self.phase = WorkerPhase::Exited;
                WorkerAction::Exit { clear_activity: false, reason: ExitReason::ReadFailed }
            },
            (WorkerPhase::AnsweringPing, WorkerEvent::PongSent(ok)) => {
                if ok {
                    self.phase = WorkerPhase::Polling;
                    WorkerAction::PollCommand
                } else {
                    self.phase = WorkerPhase::Exited;
                    WorkerAction::Exit { clear_activity: false, reason: ExitReason::PongFailed }
                }
            },
            _ => WorkerAction::Nothing,
        }
    }
}

/// While reading, only a close frame, an RPC error or a failed read end the
/// worker: an ordinary frame, or nothing to read, sends it back to look for
/// a command with the presence still set, and a ping is answered.
pub proof fn lemma_reading_ends_only_on_close_error_or_failure(event: WorkerEvent)
    ensures
        (next_phase(WorkerPhase::Reading, event) == WorkerPhase::Exited) <==> (event is ReadFailed || (
        event matches WorkerEvent::Incoming(i) && (i is Close || i is RpcError))),
        event matches WorkerEvent::Incoming(i) && i is Other ==> next_phase(WorkerPhase::Reading, event)
            == WorkerPhase::Polling,
        event is ReadIdle ==> next_phase(WorkerPhase::Reading, event) == WorkerPhase::Polling,
        event matches WorkerEvent::Incoming(i) && i is Ping ==> next_phase(WorkerPhase::Reading, event)
            == WorkerPhase::AnsweringPing,
{
}

/// A finished worker stays finished and does nothing more, whatever it is
/// told.
pub proof fn lemma_exited_is_final(event: WorkerEvent)
    ensures
        next_phase(WorkerPhase::Exited, event) == WorkerPhase::Exited,
{
}

/// A running worker that is told to stop, or loses its command channel,
/// finishes.
pub proof fn lemma_stop_finishes()
    ensures
        next_phase(WorkerPhase::Polling, WorkerEvent::StopCommand) == WorkerPhase::Exited,
        next_phase(WorkerPhase::Polling, WorkerEvent::ChannelDisconnected) == WorkerPhase::Exited,
{
}

} // verus!
