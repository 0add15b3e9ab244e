//! The delivery vocabulary the priming send shares with the other carriers:
//! which carrier an agent session is reached by, what a delivery attempt
//! reports, and which ledger events close a send.
use vstd::prelude::*;
use vstd::string::{StringExecFns, StringSliceAdditionalSpecFns};

verus! {

/// Text is typed into a pane in chunks of at most this many bytes.
pub const CHUNK_BYTES: usize = 1024;

/// The deliver budget, in seconds: how long a send may watch for its turn to start.
pub const DELIVER_TIMEOUT_S: u64 = 15;

/// The cadence of every ledger or transcript poll, in milliseconds.
pub const VERIFY_POLL_MS: u64 = 500;

/// How an agent session is reached.
#[derive(Clone, Copy, Debug, PartialEq, Eq, Structural)]
pub enum ClaudeCarrier {
    /// HTTP into the session's MCP relay.
    Relay { port: u16 },
    /// Typed into the session's multiplexer pane.
    MuxPty,
    /// No relay and no joined pane: nothing can receive.
    NoLiveReceivePath,
}

/// The carrier for an agent session: a recorded relay port always wins; with
/// none, a joined pane is typed into.
pub fn claude_carrier(relay_port: Option<u16>, joined_pane: bool) -> (c: ClaudeCarrier)
    ensures
        relay_port matches Some(p) ==> c == (ClaudeCarrier::Relay { port: p }),
        relay_port is None && joined_pane ==> c == ClaudeCarrier::MuxPty,
        relay_port is None && !joined_pane ==> c == ClaudeCarrier::NoLiveReceivePath,
{
    match relay_port {
        Some(port) => ClaudeCarrier::Relay { port },
        None => if joined_pane {
            ClaudeCarrier::MuxPty
        } else {
            ClaudeCarrier::NoLiveReceivePath
        },
    }
}

/// What a went-busy-keyed delivery attempt ends in. The caller's exit
/// contract maps these to 0, 10 and 1.
#[derive(Clone, Copy, Debug, PartialEq, Eq, Structural)]
pub enum DeliverOutcome {
    /// The turn started.
    Accepted,
    /// Delivered, but the turn was not seen to start inside the budget.
    Stalled,
    /// The session's registry row vanished after the message was written.
    PidFileMissing,
}

/// What the bounded read-back of a chunked pane delivery found.
#[derive(Clone, Debug, PartialEq, Eq)]
pub enum PayloadVerifyOutcome {
    /// The whole payload is in the transcript.
    Verified,
    /// A shorter payload is in the transcript: positive truncation evidence.
    Truncated { expected: usize, recorded: usize },
    /// Records appeared, but none can be attributed to this payload.
    Unattributable,
    /// No record appeared inside the budget.
    NoRecord,
    /// The transcript could never be read.
    SourceUnavailable(String),
}

/// A relay sidecar: the port a session's relay listens on.
#[derive(Clone, Debug)]
pub struct RelayHealth {
    pub session_id: String,
    pub port: u16,
    pub pid: u32,
    pub status: String,
}

/// One record of a delivery ledger, as far as closing a send is concerned.
#[derive(Clone, Debug)]
pub struct EventRecord {
    /// The event's name, e.g. `message-seen`.
    pub event: String,
    /// The send it belongs to, when it names one.
    pub send_id: Option<String>,
}

/// The events that close a send.
pub open spec fn is_terminal_event(e: Seq<char>) -> bool {
    ||| e == "message-seen"@
    ||| e == "turn-anchored"@
    ||| e == "turn-anchored-mismatch"@
    ||| e == "pending-abandoned"@
    ||| e == "anchor-timeout"@
}

/// The terminals that close a send as landed.
pub open spec fn is_success_event(e: Seq<char>) -> bool {
    e == "message-seen"@ || e == "turn-anchored"@
}

/// A refusal, with the notes that accumulated before it and the id of the
/// send it refused (when one was already on record).
#[derive(Debug)]
pub struct Refused<E> {
    pub notes: Vec<String>,
    pub error: E,
    pub message_id: Option<String>,
}

/// The ledger key of a session known only by name.
pub open spec fn byname_key_spec(name: Seq<char>) -> Seq<char> {
    "byname-"@ + name
}

/// Whether a pane delivery of `prompt` is chunked, and so gets the payload
/// read-back: more than one chunk's worth of bytes.
pub open spec fn needs_verify(prompt_bytes: nat) -> bool {
    prompt_bytes > CHUNK_BYTES
}

// ---------------------------------------------------------------------------
// Small string operations
// ---------------------------------------------------------------------------

/// `a == b` on string slices.
pub fn str_eq(a: &str, b: &str) -> (r: bool)
    ensures
        r == (a@ == b@),
{
    let ab = a.as_bytes();
    let bb = b.as_bytes();
    proof {
        vstd::utf8::encode_utf8_decode_utf8(a@);
        vstd::utf8::encode_utf8_decode_utf8(b@);
    }
    if ab.len() != bb.len() {
        return false;
    }
    let mut i: usize = 0;
    while i < ab.len()
        invariant
            ab@ == a.spec_bytes(),
            bb@ == b.spec_bytes(),
            ab@.len() == bb@.len(),
            i <= ab@.len(),
            forall|k: int| 0 <= k < i ==> ab@[k] == bb@[k],
        decreases ab@.len() - i,
    {
        if ab[i] != bb[i] {
            return false;
        }
        i = i + 1;
    }
    assert(ab@ =~= bb@);
    true
}

/// Whether `event` closes a send.
pub fn is_terminal(event: &str) -> (r: bool)
    ensures
        r == is_terminal_event(event@),
        r <==> (event@ == "message-seen"@ || event@ == "turn-anchored"@ || event@
            == "turn-anchored-mismatch"@ || event@ == "pending-abandoned"@ || event@
            == "anchor-timeout"@),
{
    str_eq(event, "message-seen") || str_eq(event, "turn-anchored") || str_eq(
        event,
        "turn-anchored-mismatch",
    ) || str_eq(event, "pending-abandoned") || str_eq(event, "anchor-timeout")
}

/// Whether `event` closes a send as landed.
pub fn is_success_terminal(event: &str) -> (r: bool)
    ensures
        r == is_success_event(event@),
        r <==> (event@ == "message-seen"@ || event@ == "turn-anchored"@),
{
    str_eq(event, "message-seen") || str_eq(event, "turn-anchored")
}

/// Appends `t` to `s`.
pub fn push_str(s: &mut String, t: &str)
    ensures
        final(s)@ == old(s)@ + t@,
{
    s.append(t);
}

/// A new `String` holding `t`.
pub fn string_of(t: &str) -> (r: String)
    ensures
        r@ == t@,
{
    String::from_str(t)
}

/// The ledger key of a session known only by name: `byname-<name>`.
pub fn byname_key(name: &str) -> (r: String)
    ensures
        r@ == byname_key_spec(name@),
{
    let mut k = string_of("byname-");
    push_str(&mut k, name);
    k
}

/// Whether a pane delivery of `prompt` is chunked, and so gets the payload read-back.
pub fn payload_needs_verify(prompt: &str) -> (r: bool)
    ensures
        r == needs_verify(prompt.spec_bytes().len()),
{
    prompt.as_bytes().len() > CHUNK_BYTES
}

// ---------------------------------------------------------------------------
// Laws
// ---------------------------------------------------------------------------

/// The terminals, and which of them land a send. A send is closed by exactly
/// `message-seen`, `turn-anchored`, `turn-anchored-mismatch`,
/// `pending-abandoned` and `anchor-timeout`; of those only `message-seen` and
/// `turn-anchored` close it as landed. Every landing event is a terminal, and
/// the three failure terminals close a send without landing it, so none of
/// them can be reported as a started turn.
pub proof fn lemma_terminal_events(e: Seq<char>)
    ensures
        is_terminal_event(e) <==> (e == "message-seen"@ || e == "turn-anchored"@ || e
            == "turn-anchored-mismatch"@ || e == "pending-abandoned"@ || e == "anchor-timeout"@),
        is_success_event(e) <==> (e == "message-seen"@ || e == "turn-anchored"@),
        is_success_event(e) ==> is_terminal_event(e),
        (e == "turn-anchored-mismatch"@ || e == "pending-abandoned"@ || e == "anchor-timeout"@)
            ==> is_terminal_event(e) && !is_success_event(e),
{
    reveal_strlit("message-seen");
    reveal_strlit("turn-anchored");
    reveal_strlit("turn-anchored-mismatch");
    reveal_strlit("pending-abandoned");
    reveal_strlit("anchor-timeout");
    // The five names differ in length.
    assert("message-seen"@.len() == 12);
    assert("turn-anchored"@.len() == 13);
    assert("turn-anchored-mismatch"@.len() == 22);
    assert("pending-abandoned"@.len() == 17);
    assert("anchor-timeout"@.len() == 14);
}

} // verus!
