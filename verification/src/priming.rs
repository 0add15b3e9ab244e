//! The `qd start -p` priming send: delivering a freshly-booted session's first
//! turn over its relay when it has a recorded one, into its pane when it does not.
//!
//! Nothing here prints, exits, sleeps or touches a file. The send is a state
//! machine: [`prime_new_session`] starts it, [`Priming::step`] takes each
//! observation the caller made and answers with the records to write and the
//! next thing to observe, until it answers [`Request::Finish`].
use vstd::prelude::*;
use crate::decimal::{decimal, push_decimal};
use crate::delivery::{
    byname_key, byname_key_spec, claude_carrier, is_success_event, is_success_terminal,
    is_terminal, is_terminal_event, lemma_terminal_events, needs_verify, payload_needs_verify, push_str, str_eq,
    string_of, ClaudeCarrier, DeliverOutcome, EventRecord, PayloadVerifyOutcome, Refused,
    RelayHealth, CHUNK_BYTES, DELIVER_TIMEOUT_S, VERIFY_POLL_MS,
};
use vstd::string::StringSliceAdditionalSpecFns;

verus! {

// ===========================================================================
// The owned inputs, and the two ends
// ===========================================================================

/// The owned inputs of one priming send.
#[derive(Clone, Debug)]
pub struct PrimingParams {
    /// The session name. The send is addressed by name: at `-p` time the
    /// provider id may not have been written yet.
    pub name: String,
    /// The `-p` text. The caller has already established it is non-empty.
    pub prompt: String,
    /// The provider session id, if the caller resolved one when it wrote its
    /// intent record. It decides the ledger key for every event of this send.
    pub session_id: Option<String>,
    /// The send id the caller minted before this body ran.
    pub send_id: String,
}

/// The priming send reached a non-truncation end.
#[derive(Debug)]
pub struct Primed {
    /// Warnings that are not refusals: the send stands.
    pub notes: Vec<String>,
    /// The three-way outcome the caller's exit contract maps (0, 10, 1).
    pub deliver: DeliverOutcome,
    /// Which carrier ran: `true` for the relay, `false` for the pane.
    pub relayed: bool,
}

/// Why the priming send refused.
#[derive(Debug)]
pub enum PrimingError {
    /// Positive truncation evidence from the payload read-back: the turn
    /// started with a shorter payload than was sent.
    PayloadTruncated { name: String, expected: usize, recorded: usize },
    /// The relay carrier refused: the prompt never crossed a transport.
    RelayRefused { name: String, carrier_line: String },
}

/// The operator's line for a priming refusal.
pub open spec fn priming_error_line(e: PrimingError) -> Seq<char> {
    match e {
        PrimingError::PayloadTruncated { name, expected, recorded } => "ERROR: payload truncated in delivery to \""@
            + name@ + "\": expected "@ + decimal(expected as nat) + " bytes, recorded "@ + decimal(
            recorded as nat,
        ) + ".\n  The turn started (went busy) \u{2014} do NOT blindly resend (double-submit risk).\n  Attach: qd attach "@
            + name@,
        PrimingError::RelayRefused { name, carrier_line } => carrier_line@
            + "\n  Session \""@ + name@
            + "\" IS RUNNING; the -p prompt was NOT delivered over its relay.\n  Attach: qd attach "@
            + name@,
    }
}

impl PrimingError {
    /// The operator's line. Both refusals speak, whatever the verb.
    pub fn line(&self, _verb: &str) -> (r: Option<String>)
        ensures
            r matches Some(l) && l@ == priming_error_line(*self),
    {
        match self {
            PrimingError::PayloadTruncated { name, expected, recorded } => {
                let mut s = string_of("ERROR: payload truncated in delivery to \"");
                push_str(&mut s, name.as_str());
                push_str(&mut s, "\": expected ");
                push_decimal(&mut s, *expected as u64, 0);
                push_str(&mut s, " bytes, recorded ");
                push_decimal(&mut s, *recorded as u64, 0);
                push_str(
                    &mut s,
                    ".\n  The turn started (went busy) \u{2014} do NOT blindly resend (double-submit risk).\n  Attach: qd attach ",
                );
                push_str(&mut s, name.as_str());
                proof {
                    assert(crate::decimal::zeros(0 - decimal(*expected as u64 as nat).len())
                        =~= Seq::<char>::empty());
                    assert(crate::decimal::zeros(0 - decimal(*recorded as u64 as nat).len())
                        =~= Seq::<char>::empty());
                }
                assert(s@ =~= priming_error_line(*self));
                Some(s)
            },
            PrimingError::RelayRefused { name, carrier_line } => {
                let mut s = string_of(carrier_line.as_str());
                push_str(&mut s, "\n  Session \"");
                push_str(&mut s, name.as_str());
                push_str(&mut s, "\" IS RUNNING; the -p prompt was NOT delivered over its relay.\n  Attach: qd attach ");
                push_str(&mut s, name.as_str());
                assert(s@ =~= priming_error_line(*self));
                Some(s)
            },
        }
    }

    /// Both refusals are the exit-1 failure class.
    pub fn exit_code(&self) -> (c: i32)
        ensures
            c == 1,
    {
        1
    }
}


// ===========================================================================
// The decisions
// ===========================================================================

/// The index of the first sidecar that names session `sid`, if any.
pub open spec fn first_sidecar_for(sidecars: Seq<RelayHealth>, sid: Seq<char>) -> Option<int> {
    if exists|i: int| 0 <= i < sidecars.len() && (#[trigger] sidecars[i]).session_id@ == sid {
        Some(
            choose|i: int|
                0 <= i < sidecars.len() && (#[trigger] sidecars[i]).session_id@ == sid && (forall|
                    j: int,
                | 0 <= j < i ==> (#[trigger] sidecars[j]).session_id@ != sid),
        )
    } else {
        None
    }
}

/// The relay port recorded for session `sid`: the first sidecar naming that
/// exact id. No id, or an empty one, names no relay.
pub open spec fn sidecar_port_spec(sidecars: Seq<RelayHealth>, sid: Option<Seq<char>>) -> Option<u16> {
    match sid {
        None => None,
        Some(sid) => if sid.len() == 0 {
            None
        } else {
            match first_sidecar_for(sidecars, sid) {
                Some(i) => Some(sidecars[i].port),
                None => None,
            }
        },
    }
}

/// The sidecar → port join. `session_id` is the child's provider id; a sidecar
/// counts only when it names that exact id, so a neighbour's relay is never
/// chosen.
pub fn sidecar_relay_port(sidecars: &Vec<RelayHealth>, session_id: Option<&str>) -> (r: Option<u16>)
    ensures
        r == sidecar_port_spec(
            sidecars@,
            match session_id {
                Some(s) => Some(s@),
                None => None,
            },
        ),
{
    let sid = match session_id {
        None => return None,
        Some(s) => s,
    };
    if sid.is_empty() {
        return None;
    }
    let ghost sv = sid@;
    let mut i: usize = 0;
    while i < sidecars.len()
        invariant
            i <= sidecars@.len(),
            sv == sid@,
            sv.len() > 0,
            session_id == Some(sid),
            forall|j: int| 0 <= j < i ==> (#[trigger] sidecars@[j]).session_id@ != sv,
        decreases sidecars@.len() - i,
    {
        if str_eq(sidecars[i].session_id.as_str(), sid) {
            proof {
                let sc = sidecars@;
                assert(sc[i as int].session_id@ == sv);
                assert(0 <= i < sc.len() && (#[trigger] sc[i as int]).session_id@ == sv && (forall|
                    j: int,
                | 0 <= j < i ==> (#[trigger] sc[j]).session_id@ != sv));
                let k = choose|k: int|
                    0 <= k < sc.len() && (#[trigger] sc[k]).session_id@ == sv && (forall|j: int|
                        0 <= j < k ==> (#[trigger] sc[j]).session_id@ != sv);
                assert(k == i) by {
                    if k > i {
                        assert(sc[i as int].session_id@ != sv);
                    }
                }
                assert(first_sidecar_for(sc, sv) == Some(i as int));
                assert(sv.len() != 0);
                assert(sidecar_port_spec(sc, Some(sv)) == Some(sc[i as int].port));
            }
            return Some(sidecars[i].port);
        }
        i = i + 1;
    }
    None
}

/// The receipt, mapped onto the caller's went-busy exit contract: a success
/// terminal for our message is `Accepted`; nothing, or a terminal that closed
/// it otherwise, is `Stalled` (unconfirmed, never a transport failure).
pub fn receipt_outcome(terminal: Option<&EventRecord>) -> (r: DeliverOutcome)
    ensures
        r == (match terminal {
            Some(rec) => if is_success_event(rec.event@) {
                DeliverOutcome::Accepted
            } else {
                DeliverOutcome::Stalled
            },
            None => DeliverOutcome::Stalled,
        }),
        r == DeliverOutcome::Accepted || r == DeliverOutcome::Stalled,
        r == DeliverOutcome::Accepted <==> (terminal matches Some(rec) && (rec.event@
            == "message-seen"@ || rec.event@ == "turn-anchored"@)),
{
    match terminal {
        Some(rec) => if is_success_terminal(rec.event.as_str()) {
            DeliverOutcome::Accepted
        } else {
            DeliverOutcome::Stalled
        },
        None => DeliverOutcome::Stalled,
    }
}

/// What is left of the priming budget ([`DELIVER_TIMEOUT_S`]) at `now_ms`, for
/// a wait that started at `started_ms`; never negative.
pub fn remaining_budget_ms(started_ms: i64, now_ms: i64) -> (r: i64)
    requires
        i64::MIN <= now_ms - started_ms <= i64::MAX,
        DELIVER_TIMEOUT_S * 1000 - (now_ms - started_ms) <= i64::MAX,
    ensures
        r == (if DELIVER_TIMEOUT_S * 1000 - (now_ms - started_ms) > 0 {
            DELIVER_TIMEOUT_S * 1000 - (now_ms - started_ms)
        } else {
            0
        }),
{
    let left = DELIVER_TIMEOUT_S as i64 * 1000 - (now_ms - started_ms);
    if left > 0 {
        left
    } else {
        0
    }
}

/// Whether the chunked-payload read-back applies: on the pane, exactly when
/// the payload is chunked; on the relay, never (one atomic body, closed by
/// the child's own receipt).
pub fn payload_verify_applies(carrier: ClaudeCarrier, prompt: &str) -> (r: bool)
    ensures
        r == (match carrier {
            ClaudeCarrier::Relay { .. } => false,
            _ => needs_verify(prompt.spec_bytes().len()),
        }),
{
    match carrier {
        ClaudeCarrier::Relay { .. } => false,
        ClaudeCarrier::MuxPty | ClaudeCarrier::NoLiveReceivePath => payload_needs_verify(prompt),
    }
}

/// The first record that closes message `id`.
pub open spec fn first_terminal_for(records: Seq<EventRecord>, id: Seq<char>) -> Option<int> {
    let closes = |r: EventRecord| r.send_id matches Some(s) && s@ == id && is_terminal_event(r.event@);
    if exists|i: int| 0 <= i < records.len() && closes(#[trigger] records[i]) {
        Some(
            choose|i: int|
                0 <= i < records.len() && closes(#[trigger] records[i]) && (forall|j: int|
                    0 <= j < i ==> !closes(#[trigger] records[j])),
        )
    } else {
        None
    }
}

/// The first record of the ledger that closes message `id`, joined on the id alone.
pub fn find_terminal(records: &Vec<EventRecord>, id: &str) -> (r: Option<usize>)
    ensures
        match r {
            Some(i) => first_terminal_for(records@, id@) == Some(i as int) && i < records@.len(),
            None => first_terminal_for(records@, id@) is None,
        },
        r matches Some(i) ==> ends_wait(records@[i as int], id@),
        forall|j: int|
            0 <= j < (match r {
                Some(i) => i as int,
                None => records@.len() as int,
            }) ==> !ends_wait(#[trigger] records@[j], id@),
{
    proof {
        lemma_receipt_wait_takes_first_terminal(records@, id@);
    }
    let ghost closes = |r: EventRecord| r.send_id matches Some(s) && s@ == id@ && is_terminal_event(r.event@);
    let mut i: usize = 0;
    while i < records.len()
        invariant
            i <= records@.len(),
            closes == (|r: EventRecord| r.send_id matches Some(s) && s@ == id@ && is_terminal_event(r.event@)),
            forall|j: int| 0 <= j < i ==> !closes(#[trigger] records@[j]),
        decreases records@.len() - i,
    {
        let rec = &records[i];
        let hit = match &rec.send_id {
            Some(s) => str_eq(s.as_str(), id) && is_terminal(rec.event.as_str()),
            None => false,
        };
        if hit {
            proof {
                assert(closes(records@[i as int]));
                let k = choose|k: int|
                    0 <= k < records@.len() && closes(#[trigger] records@[k]) && (forall|j: int|
                        0 <= j < k ==> !closes(#[trigger] records@[j]));
                assert(k == i) by {
                    if k > i {
                        assert(!closes(records@[i as int]));
                    }
                }
            }
            return Some(i);
        }
        i = i + 1;
    }
    None
}


// ===========================================================================
// What the caller observes and does for the send
// ===========================================================================

/// The registry row a relay send addresses the session by.
#[derive(Clone, Debug)]
pub struct SessionRow {
    /// The resolved provider id, never a display name.
    pub session_id: String,
    pub name: Option<String>,
    pub pid: u32,
}

/// The session's transcript when the pane send began.
#[derive(Clone, Debug)]
pub struct TranscriptSnapshot {
    /// Where the transcript is.
    pub path: String,
    /// Its length in bytes, when it could be read.
    pub len: Option<u64>,
}

/// What typing the prompt into the pane reported.
#[derive(Clone, Copy, Debug)]
pub struct DeliveryReport {
    pub outcome: DeliverOutcome,
    /// Text chunks written, and how many of those writes were acknowledged.
    pub acks_total: u32,
    pub acks_acked: u32,
}

/// The relay carrier took the message.
#[derive(Clone, Debug)]
pub struct RelayDelivered {
    pub notes: Vec<String>,
    /// The id the relay minted; the child's receipt joins on it.
    pub message_id: String,
}

/// The relay carrier refused the message.
#[derive(Clone, Debug)]
pub struct RelayRefusal {
    pub notes: Vec<String>,
    /// The carrier's own refusal sentence for the `start` verb, if it has one.
    pub line: Option<String>,
}

/// How the content of a `send-initiated` record is cut into chunks.
#[derive(Clone, Copy, Debug, PartialEq, Eq, Structural)]
pub enum Chunking {
    /// One chunk: the whole payload crosses as a single body.
    Whole,
    /// The pane carrier's splitter, at this many bytes.
    Split { chunk_bytes: usize },
}

/// A `send-initiated` ledger record, less what the ledger writer derives from
/// the payload itself (content and chunk digests, the redacted preview).
#[derive(Clone, Debug)]
pub struct SendInitiated {
    pub send_id: String,
    pub verb: String,
    pub send_path: String,
    pub content_len: u64,
    pub chunking: Chunking,
    pub transcript: Option<String>,
    pub transcript_offset: Option<u64>,
}

/// A record to write, or a guard to arm or drop, before the next request.
#[derive(Clone, Debug)]
pub enum Effect {
    /// Open this send's ledger under `key` (the session id when resolvable, else
    /// `byname-<name>`): every later record goes there.
    OpenLedger { key: String, session_id: Option<String>, name: String },
    SendInitiated(SendInitiated),
    ChunksDelivered { send_id: String, chunks_acked: u32 },
    TurnAnchored { send_id: String, transcript: String, offset: u64, line_index: u64 },
    TurnAnchoredMismatch {
        send_id: String,
        transcript: String,
        offset: u64,
        expected: usize,
        recorded: usize,
    },
    /// Arm the watch guard: an exit without a terminal records the watch as interrupted.
    ArmWatchGuard { send_id: String },
    DisarmWatchGuard,
}

/// What the caller must observe or do next.
#[derive(Debug)]
pub enum Request {
    /// Read the relay sidecars. Answer: [`PrimingEvent::Sidecars`].
    ReadSidecars,
    /// Look up the registry row with this exact id. Answer: [`PrimingEvent::Row`].
    LookupRow { session_id: String },
    /// Resolve the session's transcript and read its length. Answer: [`PrimingEvent::Transcript`].
    SnapshotTranscript,
    /// Read the clock. Answer: [`PrimingEvent::Clock`].
    ReadClock,
    /// Post the message over the relay. Answer: [`PrimingEvent::RelayPosted`].
    PostRelay { port: u16, session: SessionRow, message: String, send_id: String },
    /// Read this session's merged ledger. Answer: [`PrimingEvent::Ledger`].
    ReadLedger,
    /// Sleep. Answer: [`PrimingEvent::Slept`].
    Sleep { ms: u64 },
    /// Type the message into the pane (chunked, then submitted) and watch for
    /// the turn to start. Answer: [`PrimingEvent::Delivered`].
    DeliverToPane { message: String },
    /// Read back the chunked payload from the transcript past `offset`.
    /// Answer: [`PrimingEvent::Verified`].
    VerifyPayload { offset: u64 },
    /// The send is over.
    Finish(Result<Primed, Refused<PrimingError>>),
}

/// The records to write, then the next request.
#[derive(Debug)]
pub struct PrimingAction {
    pub effects: Vec<Effect>,
    pub request: Request,
}

/// An observation, answering the last [`Request`].
#[derive(Debug)]
pub enum PrimingEvent {
    Sidecars(Vec<RelayHealth>),
    Row(Option<SessionRow>),
    Transcript(Option<TranscriptSnapshot>),
    Clock(i64),
    RelayPosted(Result<RelayDelivered, RelayRefusal>),
    Ledger(Vec<EventRecord>),
    Slept,
    Delivered(DeliveryReport),
    Verified(PayloadVerifyOutcome),
}

/// Where the send stands.
#[derive(Debug)]
pub enum Stage {
    AwaitSidecars { sid: String },
    AwaitRow { port: u16 },
    AwaitTranscript,
    AwaitPaneDelivery { transcript: Option<String>, verify_offset: u64 },
    AwaitPaneVerify { transcript: Option<String>, verify_offset: u64 },
    AwaitPostClock { port: u16, session: SessionRow },
    AwaitPost { started_ms: i64 },
    AwaitBudgetClock { started_ms: i64, message_id: String },
    AwaitLedger { message_id: String, watch_start: i64, budget_ms: i64 },
    AwaitWatchClock { message_id: String, watch_start: i64, budget_ms: i64 },
    AwaitSleep { message_id: String, watch_start: i64, budget_ms: i64 },
    Finished,
}

/// A priming send in progress.
#[derive(Debug)]
pub struct Priming {
    pub params: PrimingParams,
    pub notes: Vec<String>,
    pub stage: Stage,
}

/// Whether `e` answers what stage `s` asked for.
pub open spec fn answers(s: Stage, e: PrimingEvent) -> bool {
    match s {
        Stage::AwaitSidecars { .. } => e is Sidecars,
        Stage::AwaitRow { .. } => e is Row,
        Stage::AwaitTranscript => e is Transcript,
        Stage::AwaitPaneDelivery { .. } => e is Delivered,
        Stage::AwaitPaneVerify { .. } => e is Verified,
        Stage::AwaitPostClock { .. } => e is Clock,
        Stage::AwaitPost { .. } => e is RelayPosted,
        Stage::AwaitBudgetClock { .. } => e is Clock,
        Stage::AwaitLedger { .. } => e is Ledger,
        Stage::AwaitWatchClock { .. } => e is Clock,
        Stage::AwaitSleep { .. } => e is Slept,
        Stage::Finished => false,
    }
}


// ===========================================================================
// The transitions, stated
// ===========================================================================

/// The prompt's length in bytes.
pub open spec fn prompt_len(p: PrimingParams) -> nat {
    vstd::utf8::encode_utf8(p.prompt@).len()
}

/// The warning when the read-back found records it could not attribute.
pub open spec fn unattributable_note(name: Seq<char>) -> Seq<char> {
    "WARNING: could not attribute the delivered payload in \""@ + name
        + "\"'s transcript \u{2014} check: qd attach "@ + name
}

/// The warning when the read-back could not read the transcript at all.
pub open spec fn unverifiable_note(name: Seq<char>) -> Seq<char> {
    "WARNING: could not verify payload delivery to \""@ + name
        + "\" (transcript not yet resolvable) \u{2014} check: qd attach "@ + name
}

/// The refusal line when the relay carrier gave none of its own.
pub open spec fn no_relay_line(name: Seq<char>) -> Seq<char> {
    "Session \""@ + name + "\" has no relay."@
}

/// The receipt budget left at `now`, for a send whose budget started at
/// `started`: [`remaining_budget_ms`], or nothing left when the two clock
/// readings are too far apart for 64-bit arithmetic.
pub open spec fn receipt_budget(started: i64, now: i64) -> i64 {
    let spent = now - started;
    if i64::MIN <= spent <= i64::MAX && DELIVER_TIMEOUT_S * 1000 - spent <= i64::MAX {
        if DELIVER_TIMEOUT_S * 1000 - spent > 0 {
            (DELIVER_TIMEOUT_S * 1000 - spent) as i64
        } else {
            0
        }
    } else {
        0
    }
}

/// A `send-initiated` for the relay: the priming send's own identity (verb
/// `new-p`, the caller's send id), path `relay`, one chunk, no transcript anchor.
pub open spec fn relay_send_initiated(p: PrimingParams, si: SendInitiated) -> bool {
    &&& si.send_id == p.send_id
    &&& si.verb@ == "new-p"@
    &&& si.send_path@ == "relay"@
    &&& si.content_len == prompt_len(p)
    &&& si.chunking == Chunking::Whole
    &&& si.transcript is None
    &&& si.transcript_offset is None
}

/// The byte offset of a transcript snapshot: its length, else 0.
pub open spec fn snapshot_offset(snap: Option<TranscriptSnapshot>) -> u64 {
    match snap {
        Some(t) => match t.len {
            Some(l) => l,
            None => 0,
        },
        None => 0,
    }
}

/// A `send-initiated` for the pane: verb `new-p`, path `idle`, the pane's
/// splitter, and the transcript anchor when the transcript resolved.
pub open spec fn pane_send_initiated(
    p: PrimingParams,
    snap: Option<TranscriptSnapshot>,
    si: SendInitiated,
) -> bool {
    &&& si.send_id == p.send_id
    &&& si.verb@ == "new-p"@
    &&& si.send_path@ == "idle"@
    &&& si.content_len == prompt_len(p)
    &&& si.chunking == (Chunking::Split { chunk_bytes: CHUNK_BYTES })
    &&& match snap {
        Some(t) => si.transcript == Some(t.path) && si.transcript_offset == Some(
            snapshot_offset(snap),
        ),
        None => si.transcript is None && si.transcript_offset is None,
    }
}

/// The pane path begins: the transcript is snapshotted before anything is written.
pub open spec fn begins_pane(m: Priming, m2: Priming, a: PrimingAction) -> bool {
    &&& m2.params == m.params
    &&& m2.notes == m.notes
    &&& m2.stage is AwaitTranscript
    &&& a.effects@.len() == 0
    &&& a.request is SnapshotTranscript
}

/// The send ends with `result`, having written `effects`.
pub open spec fn finishes(
    m: Priming,
    m2: Priming,
    a: PrimingAction,
    result: spec_fn(Result<Primed, Refused<PrimingError>>) -> bool,
) -> bool {
    &&& m2.params == m.params
    &&& m2.stage is Finished
    &&& a.request matches Request::Finish(res) && result(res)
}

/// The send finished with `Primed { notes, deliver, relayed }`.
pub open spec fn primed_as(
    res: Result<Primed, Refused<PrimingError>>,
    notes: Seq<String>,
    deliver: DeliverOutcome,
    relayed: bool,
) -> bool {
    res matches Ok(pr) && pr.notes@ == notes && pr.deliver == deliver && pr.relayed == relayed
}

/// One step of the priming send: what `m` does on observing `e`.
pub open spec fn steps_to(m: Priming, e: PrimingEvent, m2: Priming, a: PrimingAction) -> bool {
    let p = m.params;
    match m.stage {
        Stage::AwaitSidecars { sid } => e matches PrimingEvent::Sidecars(v) && match sidecar_port_spec(
            v@,
            Some(sid@),
        ) {
            None => begins_pane(m, m2, a),
            Some(port) => {
                &&& m2.params == p && m2.notes == m.notes
                &&& m2.stage == (Stage::AwaitRow { port })
                &&& a.effects@.len() == 0
                &&& a.request matches Request::LookupRow { session_id } && session_id@ == sid@
            },
        },
        Stage::AwaitRow { port } => e matches PrimingEvent::Row(row) && match row {
            None => begins_pane(m, m2, a),
            Some(r) => {
                &&& m2.params == p && m2.notes == m.notes
                &&& m2.stage == (Stage::AwaitPostClock { port, session: r })
                &&& a.effects@.len() == 1
                &&& a.effects@[0] matches Effect::SendInitiated(si) && relay_send_initiated(p, si)
                &&& a.request is ReadClock
            },
        },
        Stage::AwaitTranscript => e matches PrimingEvent::Transcript(snap) && {
            let verify_offset = if needs_verify(prompt_len(p)) {
                snapshot_offset(snap)
            } else {
                0
            };
            &&& m2.params == p && m2.notes == m.notes
            &&& m2.stage == (Stage::AwaitPaneDelivery {
                transcript: match snap {
                    Some(t) => Some(t.path),
                    None => None,
                },
                verify_offset,
            })
            &&& a.effects@.len() == 2
            &&& a.effects@[0] matches Effect::SendInitiated(si) && pane_send_initiated(p, snap, si)
            &&& a.effects@[1] == (Effect::ArmWatchGuard { send_id: p.send_id })
            &&& a.request matches Request::DeliverToPane { message } && message@ == p.prompt@
        },
        Stage::AwaitPaneDelivery { transcript, verify_offset } => e matches PrimingEvent::Delivered(
            rep,
        ) && {
            let all_acked = rep.acks_total > 0 && rep.acks_acked == rep.acks_total;
            let acked_effects = if all_acked {
                seq![Effect::ChunksDelivered { send_id: p.send_id, chunks_acked: rep.acks_acked }]
            } else {
                Seq::empty()
            };
            if rep.outcome == DeliverOutcome::Accepted && needs_verify(prompt_len(p)) {
                &&& m2.params == p && m2.notes == m.notes
                &&& m2.stage == (Stage::AwaitPaneVerify { transcript, verify_offset })
                &&& a.effects@ == acked_effects
                &&& a.request == (Request::VerifyPayload { offset: verify_offset })
            } else {
                &&& a.effects@ == acked_effects.push(Effect::DisarmWatchGuard)
                &&& finishes(
                    m,
                    m2,
                    a,
                    |res| primed_as(res, m.notes@, rep.outcome, false),
                )
            }
        },
        Stage::AwaitPaneVerify { transcript, verify_offset } => e matches PrimingEvent::Verified(
            v,
        ) && match v {
            PayloadVerifyOutcome::Verified => {
                &&& a.effects@.len() == 2
                &&& a.effects@[0] matches Effect::TurnAnchored {
                    send_id,
                    transcript: t,
                    offset,
                    line_index,
                } && send_id == p.send_id && offset == verify_offset && line_index == 0 && match transcript {
                    Some(path) => t == path,
                    None => t@ == Seq::<char>::empty(),
                }
                &&& a.effects@[1] == Effect::DisarmWatchGuard
                &&& finishes(
                    m,
                    m2,
                    a,
                    |res| primed_as(res, m.notes@, DeliverOutcome::Accepted, false),
                )
            },
            PayloadVerifyOutcome::Truncated { expected, recorded } => {
                &&& a.effects@.len() == 2
                &&& a.effects@[0] matches Effect::TurnAnchoredMismatch {
                    send_id,
                    transcript: t,
                    offset,
                    expected: x,
                    recorded: y,
                } && send_id == p.send_id && offset == verify_offset && x == expected && y
                    == recorded && match transcript {
                    Some(path) => t == path,
                    None => t@ == Seq::<char>::empty(),
                }
                &&& a.effects@[1] == Effect::DisarmWatchGuard
                &&& finishes(
                    m,
                    m2,
                    a,
                    |res: Result<Primed, Refused<PrimingError>>|
                        match res {
                            Err(r) => r.notes@ == m.notes@ && r.message_id == Some(p.send_id)
                                && match r.error {
                                PrimingError::PayloadTruncated { name, expected: x, recorded: y } =>
                                    name@ == p.name@ && x == expected && y == recorded,
                                _ => false,
                            },
                            Ok(_) => false,
                        },
                )
            },
            PayloadVerifyOutcome::Unattributable => {
                &&& a.effects@ == seq![Effect::DisarmWatchGuard]
                &&& finishes(
                    m,
                    m2,
                    a,
                    |res: Result<Primed, Refused<PrimingError>>|
                        res matches Ok(pr) && pr.deliver == DeliverOutcome::Accepted && !pr.relayed
                            && pr.notes@.len() == m.notes@.len() + 1 && pr.notes@.drop_last()
                            == m.notes@ && pr.notes@.last()@ == unattributable_note(p.name@),
                )
            },
            _ => {
                &&& a.effects@ == seq![Effect::DisarmWatchGuard]
                &&& finishes(
                    m,
                    m2,
                    a,
                    |res: Result<Primed, Refused<PrimingError>>|
                        res matches Ok(pr) && pr.deliver == DeliverOutcome::Accepted && !pr.relayed
                            && pr.notes@.len() == m.notes@.len() + 1 && pr.notes@.drop_last()
                            == m.notes@ && pr.notes@.last()@ == unverifiable_note(p.name@),
                )
            },
        },
        Stage::AwaitPostClock { port, session } => e matches PrimingEvent::Clock(t) && {
            &&& m2.params == p && m2.notes == m.notes
            &&& m2.stage == (Stage::AwaitPost { started_ms: t })
            &&& a.effects@.len() == 0
            &&& a.request matches Request::PostRelay { port: q, session: r, message, send_id }
                && q == port && r == session && message@ == p.prompt@ && send_id == p.send_id
        },
        Stage::AwaitPost { started_ms } => e matches PrimingEvent::RelayPosted(res) && match res {
            Err(refusal) => {
                &&& a.effects@.len() == 0
                &&& finishes(
                    m,
                    m2,
                    a,
                    |r: Result<Primed, Refused<PrimingError>>|
                        match r {
                            Err(rf) => rf.notes@ == m.notes@ + refusal.notes@ && rf.message_id == Some(
                                p.send_id,
                            ) && match rf.error {
                                PrimingError::RelayRefused { name, carrier_line } => name@ == p.name@
                                    && carrier_line@ == match refusal.line {
                                    Some(l) => l@,
                                    None => no_relay_line(p.name@),
                                },
                                _ => false,
                            },
                            Ok(_) => false,
                        },
                )
            },
            Ok(d) => {
                &&& m2.params == p
                &&& m2.notes@ == m.notes@ + d.notes@
                &&& m2.stage == (Stage::AwaitBudgetClock { started_ms, message_id: d.message_id })
                &&& a.effects@.len() == 0
                &&& a.request is ReadClock
            },
        },
        Stage::AwaitBudgetClock { started_ms, message_id } => e matches PrimingEvent::Clock(now)
            && {
            &&& m2.params == p && m2.notes == m.notes
            &&& m2.stage == (Stage::AwaitLedger {
                message_id,
                watch_start: now,
                budget_ms: receipt_budget(started_ms, now),
            })
            &&& a.effects@.len() == 0
            &&& a.request is ReadLedger
        },
        Stage::AwaitLedger { message_id, watch_start, budget_ms } => e matches PrimingEvent::Ledger(
            recs,
        ) && match first_terminal_for(recs@, message_id@) {
            Some(i) => {
                &&& a.effects@.len() == 0
                &&& finishes(
                    m,
                    m2,
                    a,
                    |res|
                        primed_as(
                            res,
                            m.notes@,
                            if is_success_event(recs@[i].event@) {
                                DeliverOutcome::Accepted
                            } else {
                                DeliverOutcome::Stalled
                            },
                            true,
                        ),
                )
            },
            None => {
                &&& m2.params == p && m2.notes == m.notes
                &&& m2.stage == (Stage::AwaitWatchClock { message_id, watch_start, budget_ms })
                &&& a.effects@.len() == 0
                &&& a.request is ReadClock
            },
        },
        Stage::AwaitWatchClock { message_id, watch_start, budget_ms } => e matches PrimingEvent::Clock(
            t,
        ) && if t - watch_start >= budget_ms {
            &&& a.effects@.len() == 0
            &&& finishes(m, m2, a, |res| primed_as(res, m.notes@, DeliverOutcome::Stalled, true))
        } else {
            &&& m2.params == p && m2.notes == m.notes
            &&& m2.stage == (Stage::AwaitSleep { message_id, watch_start, budget_ms })
            &&& a.effects@.len() == 0
            &&& a.request == (Request::Sleep { ms: VERIFY_POLL_MS })
        },
        Stage::AwaitSleep { message_id, watch_start, budget_ms } => e is Slept && {
            &&& m2.params == p && m2.notes == m.notes
            &&& m2.stage == (Stage::AwaitLedger { message_id, watch_start, budget_ms })
            &&& a.effects@.len() == 0
            &&& a.request is ReadLedger
        },
        Stage::Finished => false,
    }
}


/// How a priming send starts: its ledger opened under the session id when the
/// caller resolved one (else `byname-<name>`), then the relay sidecars read
/// when there is a non-empty id to join them on, else straight to the pane.
pub open spec fn starts_as(p: PrimingParams, m: Priming, a: PrimingAction) -> bool {
    &&& m.params == p
    &&& m.notes@.len() == 0
    &&& a.effects@.len() == 1
    &&& a.effects@[0] matches Effect::OpenLedger { key, session_id, name } && session_id
        == p.session_id && name@ == p.name@ && key@ == match p.session_id {
        Some(sid) => sid@,
        None => byname_key_spec(p.name@),
    }
    &&& match p.session_id {
        Some(sid) if sid@.len() > 0 => m.stage == (Stage::AwaitSidecars { sid }) && a.request is ReadSidecars,
        _ => m.stage is AwaitTranscript && a.request is SnapshotTranscript,
    }
}

// ===========================================================================
// The machine
// ===========================================================================

fn clone_opt_string(o: &Option<String>) -> (r: Option<String>)
    ensures
        r == *o,
{
    match o {
        Some(s) => Some(s.clone()),
        None => None,
    }
}

/// Deliver `qd start -p`'s first turn into the freshly-booted session: over
/// its relay when it has a recorded one, into its pane when it does not.
/// Starts the send; [`Priming::step`] carries it on.
pub fn prime_new_session(params: PrimingParams) -> (r: (Priming, PrimingAction))
    ensures
        starts_as(params, r.0, r.1),
{
    let key = match &params.session_id {
        Some(sid) => string_of(sid.as_str()),
        None => byname_key(params.name.as_str()),
    };
    let mut effects: Vec<Effect> = Vec::new();
    effects.push(
        Effect::OpenLedger {
            key,
            session_id: clone_opt_string(&params.session_id),
            name: string_of(params.name.as_str()),
        },
    );
    let sid = match &params.session_id {
        Some(s) => if s.as_str().is_empty() {
            None
        } else {
            Some(s.clone())
        },
        None => None,
    };
    match sid {
        Some(sid) => {
            let m = Priming { params, notes: Vec::new(), stage: Stage::AwaitSidecars { sid } };
            (m, PrimingAction { effects, request: Request::ReadSidecars })
        },
        None => {
            let m = Priming { params, notes: Vec::new(), stage: Stage::AwaitTranscript };
            (m, PrimingAction { effects, request: Request::SnapshotTranscript })
        },
    }
}


fn begin_pane(params: PrimingParams, notes: Vec<String>) -> (r: (Priming, PrimingAction))
    ensures
        r.0.params == params,
        r.0.notes == notes,
        r.0.stage is AwaitTranscript,
        r.1.effects@.len() == 0,
        r.1.request is SnapshotTranscript,
{
    (
        Priming { params, notes, stage: Stage::AwaitTranscript },
        PrimingAction { effects: Vec::new(), request: Request::SnapshotTranscript },
    )
}

fn finish(
    params: PrimingParams,
    notes: Vec<String>,
    effects: Vec<Effect>,
    result: Result<Primed, Refused<PrimingError>>,
) -> (r: (Priming, PrimingAction))
    ensures
        r.0.params == params,
        r.0.notes@.len() == 0,
        r.0.stage is Finished,
        r.1.effects == effects,
        r.1.request == Request::Finish(result),
{
    let _ = notes;
    (
        Priming { params, notes: Vec::new(), stage: Stage::Finished },
        PrimingAction { effects, request: Request::Finish(result) },
    )
}

fn on_sidecars(params: PrimingParams, notes: Vec<String>, sid: String, sidecars: Vec<RelayHealth>) -> (r: (
    Priming,
    PrimingAction,
))
    ensures
        steps_to(
            Priming { params, notes, stage: Stage::AwaitSidecars { sid } },
            PrimingEvent::Sidecars(sidecars),
            r.0,
            r.1,
        ),
{
    match sidecar_relay_port(&sidecars, Some(sid.as_str())) {
        None => begin_pane(params, notes),
        Some(port) => (
            Priming { params, notes, stage: Stage::AwaitRow { port } },
            PrimingAction { effects: Vec::new(), request: Request::LookupRow { session_id: sid } },
        ),
    }
}

fn on_row(params: PrimingParams, notes: Vec<String>, port: u16, row: Option<SessionRow>) -> (r: (
    Priming,
    PrimingAction,
))
    ensures
        steps_to(
            Priming { params, notes, stage: Stage::AwaitRow { port } },
            PrimingEvent::Row(row),
            r.0,
            r.1,
        ),
{
    match row {
        None => begin_pane(params, notes),
        Some(session) => {
            let carrier = claude_carrier(Some(port), true);
            match carrier {
                ClaudeCarrier::Relay { port } => {
                    let si = SendInitiated {
                        send_id: params.send_id.clone(),
                        verb: string_of("new-p"),
                        send_path: string_of("relay"),
                        content_len: params.prompt.as_str().as_bytes().len() as u64,
                        chunking: Chunking::Whole,
                        transcript: None,
                        transcript_offset: None,
                    };
                    let mut effects: Vec<Effect> = Vec::new();
                    effects.push(Effect::SendInitiated(si));
                    (
                        Priming { params, notes, stage: Stage::AwaitPostClock { port, session } },
                        PrimingAction { effects, request: Request::ReadClock },
                    )
                },
                _ => begin_pane(params, notes),
            }
        },
    }
}


fn on_transcript(params: PrimingParams, notes: Vec<String>, snap: Option<TranscriptSnapshot>) -> (r: (
    Priming,
    PrimingAction,
))
    ensures
        steps_to(
            Priming { params, notes, stage: Stage::AwaitTranscript },
            PrimingEvent::Transcript(snap),
            r.0,
            r.1,
        ),
{
    // The snapshot offset is taken whenever the transcript resolves; the
    // read-back window starts there when the read-back will run.
    let offset: u64 = match &snap {
        Some(t) => match t.len {
            Some(l) => l,
            None => 0,
        },
        None => 0,
    };
    let verify_offset: u64 = if payload_verify_applies(ClaudeCarrier::MuxPty, params.prompt.as_str()) {
        offset
    } else {
        0
    };
    let (transcript, anchor, anchor_offset) = match &snap {
        Some(t) => (Some(t.path.clone()), Some(t.path.clone()), Some(offset)),
        None => (None, None, None),
    };
    let si = SendInitiated {
        send_id: params.send_id.clone(),
        verb: string_of("new-p"),
        send_path: string_of("idle"),
        content_len: params.prompt.as_str().as_bytes().len() as u64,
        chunking: Chunking::Split { chunk_bytes: CHUNK_BYTES },
        transcript: anchor,
        transcript_offset: anchor_offset,
    };
    let mut effects: Vec<Effect> = Vec::new();
    effects.push(Effect::SendInitiated(si));
    effects.push(Effect::ArmWatchGuard { send_id: params.send_id.clone() });
    let message = string_of(params.prompt.as_str());
    (
        Priming { params, notes, stage: Stage::AwaitPaneDelivery { transcript, verify_offset } },
        PrimingAction { effects, request: Request::DeliverToPane { message } },
    )
}

fn on_delivered(
    params: PrimingParams,
    notes: Vec<String>,
    transcript: Option<String>,
    verify_offset: u64,
    rep: DeliveryReport,
) -> (r: (Priming, PrimingAction))
    ensures
        steps_to(
            Priming { params, notes, stage: Stage::AwaitPaneDelivery { transcript, verify_offset } },
            PrimingEvent::Delivered(rep),
            r.0,
            r.1,
        ),
{
    let mut effects: Vec<Effect> = Vec::new();
    // Every text chunk acknowledged: the chunks are on record as delivered.
    if rep.acks_total > 0 && rep.acks_acked == rep.acks_total {
        effects.push(
            Effect::ChunksDelivered { send_id: params.send_id.clone(), chunks_acked: rep.acks_acked },
        );
    }
    let accepted = match rep.outcome {
        DeliverOutcome::Accepted => true,
        _ => false,
    };
    if accepted && payload_verify_applies(ClaudeCarrier::MuxPty, params.prompt.as_str()) {
        (
            Priming { params, notes, stage: Stage::AwaitPaneVerify { transcript, verify_offset } },
            PrimingAction { effects, request: Request::VerifyPayload { offset: verify_offset } },
        )
    } else {
        // No arm of the deliver outcome closes the send: each is a possibly
        // landed prompt whose fate the ledger's recovery sweep settles.
        effects.push(Effect::DisarmWatchGuard);
        let primed = Primed { notes, deliver: rep.outcome, relayed: false };
        finish(params, Vec::new(), effects, Ok(primed))
    }
}

fn unattributable_warning(name: &str) -> (r: String)
    ensures
        r@ == unattributable_note(name@),
{
    let mut s = string_of("WARNING: could not attribute the delivered payload in \"");
    push_str(&mut s, name);
    push_str(&mut s, "\"'s transcript \u{2014} check: qd attach ");
    push_str(&mut s, name);
    assert(s@ =~= unattributable_note(name@));
    s
}

fn unverifiable_warning(name: &str) -> (r: String)
    ensures
        r@ == unverifiable_note(name@),
{
    let mut s = string_of("WARNING: could not verify payload delivery to \"");
    push_str(&mut s, name);
    push_str(&mut s, "\" (transcript not yet resolvable) \u{2014} check: qd attach ");
    push_str(&mut s, name);
    assert(s@ =~= unverifiable_note(name@));
    s
}

fn transcript_or_empty(transcript: &Option<String>) -> (r: String)
    ensures
        match transcript {
            Some(path) => r == path,
            None => r@ == Seq::<char>::empty(),
        },
{
    match transcript {
        Some(path) => path.clone(),
        None => String::new(),
    }
}

fn on_verified(
    params: PrimingParams,
    notes: Vec<String>,
    transcript: Option<String>,
    verify_offset: u64,
    v: PayloadVerifyOutcome,
) -> (r: (Priming, PrimingAction))
    ensures
        steps_to(
            Priming { params, notes, stage: Stage::AwaitPaneVerify { transcript, verify_offset } },
            PrimingEvent::Verified(v),
            r.0,
            r.1,
        ),
{
    let mut notes = notes;
    let ghost notes0 = notes@;
    let mut effects: Vec<Effect> = Vec::new();
    match v {
        PayloadVerifyOutcome::Verified => {
            // A verified read-back is the landed signal.
            effects.push(
                Effect::TurnAnchored {
                    send_id: params.send_id.clone(),
                    transcript: transcript_or_empty(&transcript),
                    offset: verify_offset,
                    line_index: 0,
                },
            );
            effects.push(Effect::DisarmWatchGuard);
            let primed = Primed { notes, deliver: DeliverOutcome::Accepted, relayed: false };
            finish(params, Vec::new(), effects, Ok(primed))
        },
        PayloadVerifyOutcome::Truncated { expected, recorded } => {
            // Positive truncation evidence: the turn started with less than was
            // sent. Recorded, then refused; never retried.
            effects.push(
                Effect::TurnAnchoredMismatch {
                    send_id: params.send_id.clone(),
                    transcript: transcript_or_empty(&transcript),
                    offset: verify_offset,
                    expected,
                    recorded,
                },
            );
            effects.push(Effect::DisarmWatchGuard);
            let refused = Refused {
                notes,
                error: PrimingError::PayloadTruncated {
                    name: string_of(params.name.as_str()),
                    expected,
                    recorded,
                },
                message_id: Some(params.send_id.clone()),
            };
            finish(params, Vec::new(), effects, Err(refused))
        },
        PayloadVerifyOutcome::Unattributable => {
            // No terminal: the send stays outstanding by design.
            notes.push(unattributable_warning(params.name.as_str()));
            assert(notes@.drop_last() =~= notes0);
            effects.push(Effect::DisarmWatchGuard);
            assert(effects@ =~= seq![Effect::DisarmWatchGuard]);
            let primed = Primed { notes, deliver: DeliverOutcome::Accepted, relayed: false };
            finish(params, Vec::new(), effects, Ok(primed))
        },
        _ => {
            notes.push(unverifiable_warning(params.name.as_str()));
            assert(notes@.drop_last() =~= notes0);
            effects.push(Effect::DisarmWatchGuard);
            assert(effects@ =~= seq![Effect::DisarmWatchGuard]);
            let primed = Primed { notes, deliver: DeliverOutcome::Accepted, relayed: false };
            finish(params, Vec::new(), effects, Ok(primed))
        },
    }
}


fn on_post_clock(params: PrimingParams, notes: Vec<String>, port: u16, session: SessionRow, t: i64) -> (r: (
    Priming,
    PrimingAction,
))
    ensures
        steps_to(
            Priming { params, notes, stage: Stage::AwaitPostClock { port, session } },
            PrimingEvent::Clock(t),
            r.0,
            r.1,
        ),
{
    // The budget is priming's own, taken from before the POST.
    let message = string_of(params.prompt.as_str());
    let send_id = params.send_id.clone();
    (
        Priming { params, notes, stage: Stage::AwaitPost { started_ms: t } },
        PrimingAction {
            effects: Vec::new(),
            request: Request::PostRelay { port, session, message, send_id },
        },
    )
}

fn no_relay_sentence(name: &str) -> (r: String)
    ensures
        r@ == no_relay_line(name@),
{
    let mut s = string_of("Session \"");
    push_str(&mut s, name);
    push_str(&mut s, "\" has no relay.");
    assert(s@ =~= no_relay_line(name@));
    s
}

fn append_notes(notes: &mut Vec<String>, more: Vec<String>)
    ensures
        final(notes)@ == old(notes)@ + more@,
{
    let mut i: usize = 0;
    let ghost start = notes@;
    while i < more.len()
        invariant
            i <= more@.len(),
            notes@ == start + more@.subrange(0, i as int),
        decreases more@.len() - i,
    {
        notes.push(more[i].clone());
        assert(more@.subrange(0, i + 1) =~= more@.subrange(0, i as int).push(more@[i as int]));
        i = i + 1;
    }
    assert(more@.subrange(0, more@.len() as int) =~= more@);
}

fn on_posted(
    params: PrimingParams,
    notes: Vec<String>,
    started_ms: i64,
    res: Result<RelayDelivered, RelayRefusal>,
) -> (r: (Priming, PrimingAction))
    ensures
        steps_to(
            Priming { params, notes, stage: Stage::AwaitPost { started_ms } },
            PrimingEvent::RelayPosted(res),
            r.0,
            r.1,
        ),
{
    let mut notes = notes;
    match res {
        Err(refusal) => {
            // A transport refusal where a relay was expected: the prompt never
            // crossed, so this is the exit-1 class. The carrier's own sentence is
            // carried verbatim; the send-initiated is already on record, so the
            // refusal stays keyed.
            append_notes(&mut notes, refusal.notes);
            let carrier_line = match refusal.line {
                Some(l) => l,
                None => no_relay_sentence(params.name.as_str()),
            };
            let refused = Refused {
                notes,
                error: PrimingError::RelayRefused { name: string_of(params.name.as_str()), carrier_line },
                message_id: Some(params.send_id.clone()),
            };
            finish(params, Vec::new(), Vec::new(), Err(refused))
        },
        Ok(delivered) => {
            append_notes(&mut notes, delivered.notes);
            (
                Priming {
                    params,
                    notes,
                    stage: Stage::AwaitBudgetClock { started_ms, message_id: delivered.message_id },
                },
                PrimingAction { effects: Vec::new(), request: Request::ReadClock },
            )
        },
    }
}

/// [`receipt_budget`], computed.
fn budget_at(started_ms: i64, now_ms: i64) -> (r: i64)
    ensures
        r == receipt_budget(started_ms, now_ms),
{
    let spent = now_ms as i128 - started_ms as i128;
    if spent < i64::MIN as i128 || spent > i64::MAX as i128 || DELIVER_TIMEOUT_S as i128 * 1000
        - spent > i64::MAX as i128 {
        0
    } else {
        remaining_budget_ms(started_ms, now_ms)
    }
}

fn on_budget_clock(
    params: PrimingParams,
    notes: Vec<String>,
    started_ms: i64,
    message_id: String,
    now: i64,
) -> (r: (Priming, PrimingAction))
    ensures
        steps_to(
            Priming { params, notes, stage: Stage::AwaitBudgetClock { started_ms, message_id } },
            PrimingEvent::Clock(now),
            r.0,
            r.1,
        ),
{
    let budget_ms = budget_at(started_ms, now);
    (
        Priming { params, notes, stage: Stage::AwaitLedger { message_id, watch_start: now, budget_ms } },
        PrimingAction { effects: Vec::new(), request: Request::ReadLedger },
    )
}

fn on_ledger(
    params: PrimingParams,
    notes: Vec<String>,
    message_id: String,
    watch_start: i64,
    budget_ms: i64,
    recs: Vec<EventRecord>,
) -> (r: (Priming, PrimingAction))
    ensures
        steps_to(
            Priming { params, notes, stage: Stage::AwaitLedger { message_id, watch_start, budget_ms } },
            PrimingEvent::Ledger(recs),
            r.0,
            r.1,
        ),
{
    // The receipt is joined on the relay-minted id only.
    match find_terminal(&recs, message_id.as_str()) {
        Some(i) => {
            let deliver = receipt_outcome(Some(&recs[i]));
            let primed = Primed { notes, deliver, relayed: true };
            finish(params, Vec::new(), Vec::new(), Ok(primed))
        },
        None => (
            Priming {
                params,
                notes,
                stage: Stage::AwaitWatchClock { message_id, watch_start, budget_ms },
            },
            PrimingAction { effects: Vec::new(), request: Request::ReadClock },
        ),
    }
}

fn on_watch_clock(
    params: PrimingParams,
    notes: Vec<String>,
    message_id: String,
    watch_start: i64,
    budget_ms: i64,
    t: i64,
) -> (r: (Priming, PrimingAction))
    ensures
        steps_to(
            Priming {
                params,
                notes,
                stage: Stage::AwaitWatchClock { message_id, watch_start, budget_ms },
            },
            PrimingEvent::Clock(t),
            r.0,
            r.1,
        ),
{
    if t as i128 - watch_start as i128 >= budget_ms as i128 {
        // Delivered, unconfirmed: the session exists and we decline to claim
        // its first turn started.
        let primed = Primed { notes, deliver: DeliverOutcome::Stalled, relayed: true };
        finish(params, Vec::new(), Vec::new(), Ok(primed))
    } else {
        (
            Priming { params, notes, stage: Stage::AwaitSleep { message_id, watch_start, budget_ms } },
            PrimingAction { effects: Vec::new(), request: Request::Sleep { ms: VERIFY_POLL_MS } },
        )
    }
}

impl Priming {
    /// Whether `e` answers what this send asked for last.
    pub fn expects(&self, e: &PrimingEvent) -> (r: bool)
        ensures
            r == answers(self.stage, *e),
    {
        match (&self.stage, e) {
            (Stage::AwaitSidecars { .. }, PrimingEvent::Sidecars(_)) => true,
            (Stage::AwaitRow { .. }, PrimingEvent::Row(_)) => true,
            (Stage::AwaitTranscript, PrimingEvent::Transcript(_)) => true,
            (Stage::AwaitPaneDelivery { .. }, PrimingEvent::Delivered(_)) => true,
            (Stage::AwaitPaneVerify { .. }, PrimingEvent::Verified(_)) => true,
            (Stage::AwaitPostClock { .. }, PrimingEvent::Clock(_)) => true,
            (Stage::AwaitPost { .. }, PrimingEvent::RelayPosted(_)) => true,
            (Stage::AwaitBudgetClock { .. }, PrimingEvent::Clock(_)) => true,
            (Stage::AwaitLedger { .. }, PrimingEvent::Ledger(_)) => true,
            (Stage::AwaitWatchClock { .. }, PrimingEvent::Clock(_)) => true,
            (Stage::AwaitSleep { .. }, PrimingEvent::Slept) => true,
            _ => false,
        }
    }

    /// Carries the send on with the observation `e`, which answers the last request.
    pub fn step(self, e: PrimingEvent) -> (r: (Priming, PrimingAction))
        requires
            answers(self.stage, e),
        ensures
            steps_to(self, e, r.0, r.1),
    {
        let Priming { params, notes, stage } = self;
        match (stage, e) {
            (Stage::AwaitSidecars { sid }, PrimingEvent::Sidecars(v)) => on_sidecars(params, notes, sid, v),
            (Stage::AwaitRow { port }, PrimingEvent::Row(row)) => on_row(params, notes, port, row),
            (Stage::AwaitTranscript, PrimingEvent::Transcript(snap)) => on_transcript(params, notes, snap),
            (
                Stage::AwaitPaneDelivery { transcript, verify_offset },
                PrimingEvent::Delivered(rep),
            ) => on_delivered(params, notes, transcript, verify_offset, rep),
            (
                Stage::AwaitPaneVerify { transcript, verify_offset },
                PrimingEvent::Verified(v),
            ) => on_verified(params, notes, transcript, verify_offset, v),
            (Stage::AwaitPostClock { port, session }, PrimingEvent::Clock(t)) => on_post_clock(
                params,
                notes,
                port,
                session,
                t,
            ),
            (Stage::AwaitPost { started_ms }, PrimingEvent::RelayPosted(res)) => on_posted(
                params,
                notes,
                started_ms,
                res,
            ),
            (Stage::AwaitBudgetClock { started_ms, message_id }, PrimingEvent::Clock(now)) => on_budget_clock(
                params,
                notes,
                started_ms,
                message_id,
                now,
            ),
            (
                Stage::AwaitLedger { message_id, watch_start, budget_ms },
                PrimingEvent::Ledger(recs),
            ) => on_ledger(params, notes, message_id, watch_start, budget_ms, recs),
            (
                Stage::AwaitWatchClock { message_id, watch_start, budget_ms },
                PrimingEvent::Clock(t),
            ) => on_watch_clock(params, notes, message_id, watch_start, budget_ms, t),
            (Stage::AwaitSleep { message_id, watch_start, budget_ms }, PrimingEvent::Slept) => (
                Priming { params, notes, stage: Stage::AwaitLedger { message_id, watch_start, budget_ms } },
                PrimingAction { effects: Vec::new(), request: Request::ReadLedger },
            ),
            (stage, e) => {
                proof {
                    assert(false);
                }
                (Priming { params, notes, stage }, PrimingAction { effects: Vec::new(), request: Request::ReadLedger })
            },
        }
    }
}


// ===========================================================================
// A boot that never got as far as priming
// ===========================================================================

/// The boot phase a `-p` boot timed out in.
#[derive(Clone, Copy, Debug, PartialEq, Eq, Structural)]
pub enum BootPhase {
    Idle,
    PidFile,
    Relay,
}

/// The boot's overall deadline, in ms (the idle and relay phases share it).
pub const BOOT_OVERALL_MS: i64 = 60_000;

/// The pid-file phase's deadline, in ms.
pub const BOOT_PID_PHASE_MS: i64 = 40_000;

/// A `priming-readiness-timeout` record, and the ledger it goes to.
#[derive(Clone, Debug)]
pub struct PrimingTimeoutRecord {
    /// The ledger key: always `byname-<name>`, since a boot that timed out
    /// never gave the session an id.
    pub key: String,
    /// The session name the record is filed under (and no session id).
    pub name: String,
    /// `idle`, `pid-file` or `relay`.
    pub phase: String,
    /// The phase's configured deadline.
    pub waited_ms: u64,
}

/// The `priming-readiness-timeout` record for a `-p` boot that timed out in
/// `phase`: filed by name, with the phase read from its type and the phase's
/// configured deadline as the time waited. The caller writes it; it is the one
/// record of this send that can exist.
pub fn emit_priming_timeout(name: &str, phase: BootPhase) -> (r: PrimingTimeoutRecord)
    ensures
        r.key@ == byname_key_spec(name@),
        r.name@ == name@,
        phase == BootPhase::Idle ==> r.phase@ == "idle"@ && r.waited_ms == 60_000,
        phase == BootPhase::PidFile ==> r.phase@ == "pid-file"@ && r.waited_ms == 40_000,
        phase == BootPhase::Relay ==> r.phase@ == "relay"@ && r.waited_ms == 60_000,
{
    let (label, waited_ms) = match phase {
        BootPhase::Idle => (string_of("idle"), if BOOT_OVERALL_MS > 0 { BOOT_OVERALL_MS as u64 } else { 0 }),
        BootPhase::PidFile => (string_of("pid-file"), if BOOT_PID_PHASE_MS > 0 { BOOT_PID_PHASE_MS as u64 } else { 0 }),
        BootPhase::Relay => (string_of("relay"), if BOOT_OVERALL_MS > 0 { BOOT_OVERALL_MS as u64 } else { 0 }),
    };
    PrimingTimeoutRecord { key: byname_key(name), name: string_of(name), phase: label, waited_ms }
}


// ===========================================================================
// Laws
// ===========================================================================

/// Relay precedence: a send whose session id has a sidecar and a registry
/// row is primed over the relay (its `send-initiated` says `relay`, one
/// chunk, verb `new-p`), and the pane is never typed into.
pub proof fn lemma_recorded_relay_is_used(
    p: PrimingParams,
    m0: Priming,
    a0: PrimingAction,
    sidecars: Vec<RelayHealth>,
    m1: Priming,
    a1: PrimingAction,
    row: SessionRow,
    m2: Priming,
    a2: PrimingAction,
)
    requires
        starts_as(p, m0, a0),
        p.session_id matches Some(sid) && sid@.len() > 0 && sidecar_port_spec(
            sidecars@,
            Some(sid@),
        ) is Some,
        steps_to(m0, PrimingEvent::Sidecars(sidecars), m1, a1),
        steps_to(m1, PrimingEvent::Row(Some(row)), m2, a2),
    ensures
        a2.effects@.len() == 1,
        a2.effects@[0] matches Effect::SendInitiated(si) && relay_send_initiated(p, si),
        m2.stage is AwaitPostClock,
{
}

/// Pane fallback: a send whose session id has no sidecar naming it goes to
/// the pane, and never posts to a relay.
pub proof fn lemma_no_sidecar_is_the_pane(
    p: PrimingParams,
    m0: Priming,
    a0: PrimingAction,
    sidecars: Vec<RelayHealth>,
    m1: Priming,
    a1: PrimingAction,
)
    requires
        starts_as(p, m0, a0),
        p.session_id matches Some(sid) && sid@.len() > 0 && sidecar_port_spec(
            sidecars@,
            Some(sid@),
        ) is None,
        steps_to(m0, PrimingEvent::Sidecars(sidecars), m1, a1),
    ensures
        begins_pane(m0, m1, a1),
{
}

/// The relay arm's exit contract: once the message is posted, the send ends
/// `Primed` and `relayed` with `Accepted` or `Stalled`, never
/// `PidFileMissing`; it is `Accepted` only on a success terminal that names
/// the relay-minted message id. A refused post ends in the keyed
/// `RelayRefused` refusal.
pub proof fn lemma_relay_arm_outcomes(m: Priming, e: PrimingEvent, m2: Priming, a: PrimingAction)
    requires
        m.stage is AwaitPost || m.stage is AwaitBudgetClock || m.stage is AwaitLedger
            || m.stage is AwaitWatchClock || m.stage is AwaitSleep,
        steps_to(m, e, m2, a),
        a.request is Finish,
    ensures
        a.effects@.len() == 0,
        a.request matches Request::Finish(Ok(pr)) ==> pr.relayed && (pr.deliver
            == DeliverOutcome::Accepted || pr.deliver == DeliverOutcome::Stalled),
        a.request matches Request::Finish(Ok(pr)) && pr.deliver == DeliverOutcome::Accepted ==> (
        m.stage matches Stage::AwaitLedger { message_id, .. } && e matches PrimingEvent::Ledger(
            recs,
        ) && first_terminal_for(recs@, message_id@) matches Some(i) && is_success_event(
            recs@[i].event@,
        )),
        a.request matches Request::Finish(Err(rf)) ==> rf.message_id == Some(m.params.send_id)
            && rf.error is RelayRefused,
{
}

/// No arm of the pane's deliver outcome closes the send: finishing on the
/// outcome writes at most `chunks-delivered` and drops the watch guard; only
/// the read-back writes `turn-anchored` or `turn-anchored-mismatch`.
pub proof fn lemma_deliver_outcome_mints_no_terminal(
    m: Priming,
    e: PrimingEvent,
    m2: Priming,
    a: PrimingAction,
)
    requires
        m.stage is AwaitPaneDelivery,
        steps_to(m, e, m2, a),
    ensures
        forall|i: int|
            0 <= i < a.effects@.len() ==> !(#[trigger] a.effects@[i] is TurnAnchored) && !(
            a.effects@[i] is TurnAnchoredMismatch),
        a.request is Finish ==> a.effects@.last() == Effect::DisarmWatchGuard,
{
}

/// The ledger key is sticky: it is chosen once, when the send starts, and no
/// later step opens another ledger, so both halves of the send are filed
/// under one key.
pub proof fn lemma_ledger_opened_once(m: Priming, e: PrimingEvent, m2: Priming, a: PrimingAction)
    requires
        steps_to(m, e, m2, a),
    ensures
        forall|i: int| 0 <= i < a.effects@.len() ==> !(#[trigger] a.effects@[i] is OpenLedger),
        m2.params == m.params,
{
    match m.stage {
        Stage::AwaitPaneDelivery { .. } => {
            assert forall|i: int| 0 <= i < a.effects@.len() implies !(
            #[trigger] a.effects@[i] is OpenLedger) by {
                if let PrimingEvent::Delivered(rep) = e {
                    if rep.acks_total > 0 && rep.acks_acked == rep.acks_total {
                        assert(a.effects@[0] is ChunksDelivered);
                    }
                }
            }
        },
        _ => {},
    }
}

/// Every end of the pane arm drops the watch guard it armed before typing.
pub proof fn lemma_pane_finish_disarms(m: Priming, e: PrimingEvent, m2: Priming, a: PrimingAction)
    requires
        m.stage is AwaitPaneDelivery || m.stage is AwaitPaneVerify,
        steps_to(m, e, m2, a),
        a.request is Finish,
    ensures
        a.effects@.len() > 0,
        a.effects@.last() == Effect::DisarmWatchGuard,
        a.request matches Request::Finish(Ok(pr)) ==> !pr.relayed,
{
}

/// A ledger record that ends the receipt wait for message `id`: it names `id`
/// and its event is one of the five terminals.
pub open spec fn ends_wait(r: EventRecord, id: Seq<char>) -> bool {
    &&& r.send_id matches Some(s) && s@ == id
    &&& (r.event@ == "message-seen"@ || r.event@ == "turn-anchored"@ || r.event@
        == "turn-anchored-mismatch"@ || r.event@ == "pending-abandoned"@ || r.event@
        == "anchor-timeout"@)
}

/// The receipt is the first terminal for the message: the record the wait
/// takes names the relay-minted id and is a terminal, and no record before it
/// is; a ledger with no such record yields none. A non-terminal record for the
/// id (the carrier's own `send-initiated` or `relay-delivered`) never ends the
/// wait, and neither does a terminal for another message.
pub proof fn lemma_receipt_wait_takes_first_terminal(recs: Seq<EventRecord>, id: Seq<char>)
    ensures
        match first_terminal_for(recs, id) {
            Some(i) => 0 <= i < recs.len() && ends_wait(recs[i], id) && forall|j: int|
                0 <= j < i ==> !ends_wait(#[trigger] recs[j], id),
            None => forall|j: int| 0 <= j < recs.len() ==> !ends_wait(#[trigger] recs[j], id),
        },
{
    assert forall|j: int| 0 <= j < recs.len() implies (ends_wait(#[trigger] recs[j], id) <==> (
    recs[j].send_id matches Some(s) && s@ == id && is_terminal_event(recs[j].event@))) by {
        lemma_terminal_events(recs[j].event@);
    }
    let closes = |r: EventRecord| r.send_id matches Some(s) && s@ == id && is_terminal_event(r.event@);
    if exists|i: int| 0 <= i < recs.len() && closes(#[trigger] recs[i]) {
        let w = choose|i: int| 0 <= i < recs.len() && closes(#[trigger] recs[i]);
        lemma_first_index(recs, closes, w);
        let i = first_terminal_for(recs, id).unwrap();
        assert(closes(recs[i]));
        assert forall|j: int| 0 <= j < i implies !ends_wait(#[trigger] recs[j], id) by {
            assert(!closes(recs[j]));
        }
    } else {
        assert forall|j: int| 0 <= j < recs.len() implies !ends_wait(#[trigger] recs[j], id) by {
            assert(!closes(recs[j]));
        }
    }
}

/// A sequence with an element satisfying `p` has a first such element.
proof fn lemma_first_index(s: Seq<EventRecord>, p: spec_fn(EventRecord) -> bool, w: int)
    requires
        0 <= w < s.len(),
        p(s[w]),
    ensures
        exists|i: int| 0 <= i < s.len() && p(#[trigger] s[i]) && (forall|j: int| 0 <= j < i ==> !p(#[trigger] s[j])),
    decreases w,
{
    if exists|j: int| 0 <= j < w && p(#[trigger] s[j]) {
        let j = choose|j: int| 0 <= j < w && p(#[trigger] s[j]);
        lemma_first_index(s, p, j);
    } else {
        assert(forall|j: int| 0 <= j < w ==> !p(#[trigger] s[j]));
    }
}

/// One read of the ledger while waiting for the receipt. The send ends exactly
/// when the read holds a terminal for the relay-minted id, and then it ends
/// `Primed` over the relay with its notes unchanged: `Accepted` exactly when
/// the first such terminal is `message-seen` or `turn-anchored`, `Stalled`
/// otherwise. With no terminal for the id the wait goes on to read the clock.
pub proof fn lemma_receipt_wait_step(
    m: Priming,
    message_id: String,
    watch_start: i64,
    budget_ms: i64,
    recs: Vec<EventRecord>,
    m2: Priming,
    a: PrimingAction,
)
    requires
        m.stage == (Stage::AwaitLedger { message_id, watch_start, budget_ms }),
        steps_to(m, PrimingEvent::Ledger(recs), m2, a),
    ensures
        a.request is Finish <==> exists|i: int| 0 <= i < recs@.len() && ends_wait(#[trigger] recs@[i], message_id@),
        a.request matches Request::Finish(res) ==> res matches Ok(pr) && pr.relayed && pr.notes@
            == m.notes@ && (pr.deliver == DeliverOutcome::Accepted || pr.deliver
            == DeliverOutcome::Stalled) && (pr.deliver == DeliverOutcome::Accepted <==> exists|i: int|
            0 <= i < recs@.len() && ends_wait(#[trigger] recs@[i], message_id@) && (forall|j: int|
                0 <= j < i ==> !ends_wait(#[trigger] recs@[j], message_id@)) && (recs@[i].event@
                == "message-seen"@ || recs@[i].event@ == "turn-anchored"@)),
        !(a.request is Finish) ==> a.request is ReadClock && m2.stage == (Stage::AwaitWatchClock {
            message_id,
            watch_start,
            budget_ms,
        }) && m2.notes == m.notes,
        a.effects@.len() == 0,
{
    let id = message_id@;
    lemma_receipt_wait_takes_first_terminal(recs@, id);
    match first_terminal_for(recs@, id) {
        Some(i) => {
            lemma_terminal_events(recs@[i].event@);
            assert(ends_wait(recs@[i], id));
            if exists|k: int| 0 <= k < recs@.len() && ends_wait(#[trigger] recs@[k], id) && (forall|j: int|
                0 <= j < k ==> !ends_wait(#[trigger] recs@[j], id)) && (recs@[k].event@
                == "message-seen"@ || recs@[k].event@ == "turn-anchored"@) {
                let k = choose|k: int| 0 <= k < recs@.len() && ends_wait(#[trigger] recs@[k], id) && (forall|j: int|
                    0 <= j < k ==> !ends_wait(#[trigger] recs@[j], id)) && (recs@[k].event@
                    == "message-seen"@ || recs@[k].event@ == "turn-anchored"@);
                assert(k == i) by {
                    if k < i {
                        assert(!ends_wait(recs@[k], id));
                    } else if i < k {
                        assert(!ends_wait(recs@[i], id));
                    }
                }
            }
        },
        None => {},
    }
}

/// Every poll of the receipt wait re-reads the ledger: after the poll's sleep
/// the next request is a ledger read, for the same message, watch start and
/// budget.
pub proof fn lemma_poll_rereads_ledger(
    m: Priming,
    message_id: String,
    watch_start: i64,
    budget_ms: i64,
    e: PrimingEvent,
    m2: Priming,
    a: PrimingAction,
)
    requires
        m.stage == (Stage::AwaitSleep { message_id, watch_start, budget_ms }),
        steps_to(m, e, m2, a),
    ensures
        a.request is ReadLedger,
        a.effects@.len() == 0,
        m2.stage == (Stage::AwaitLedger { message_id, watch_start, budget_ms }),
        m2.params == m.params && m2.notes == m.notes,
{
}

/// The clock read of the receipt wait: the send ends, `Primed` over the relay
/// and `Stalled`, exactly when the budget is spent; otherwise it sleeps one
/// poll interval (500 ms) and waits on.
pub proof fn lemma_stall_needs_spent_budget(
    m: Priming,
    message_id: String,
    watch_start: i64,
    budget_ms: i64,
    t: i64,
    m2: Priming,
    a: PrimingAction,
)
    requires
        m.stage == (Stage::AwaitWatchClock { message_id, watch_start, budget_ms }),
        steps_to(m, PrimingEvent::Clock(t), m2, a),
    ensures
        a.request is Finish <==> t - watch_start >= budget_ms,
        a.request matches Request::Finish(res) ==> res matches Ok(pr) && pr.relayed && pr.deliver
            == DeliverOutcome::Stalled && pr.notes@ == m.notes@,
        !(a.request is Finish) ==> a.request == (Request::Sleep { ms: 500 }) && m2.stage == (
        Stage::AwaitSleep { message_id, watch_start, budget_ms }),
{
}

/// The clock of the receipt wait is read only after a ledger read that held no
/// terminal for the message: no step reaches that stage any other way, so the
/// send can end `Stalled` only after such a read.
pub proof fn lemma_clock_follows_an_empty_read(
    m: Priming,
    e: PrimingEvent,
    m2: Priming,
    a: PrimingAction,
)
    requires
        steps_to(m, e, m2, a),
        m2.stage is AwaitWatchClock,
    ensures
        m.stage matches Stage::AwaitLedger { message_id, watch_start, budget_ms } && e matches PrimingEvent::Ledger(
            recs,
        ) && m2.stage == (Stage::AwaitWatchClock { message_id, watch_start, budget_ms }) && forall|i: int|
            0 <= i < recs@.len() ==> !ends_wait(#[trigger] recs@[i], message_id@),
{
}

/// A full poll of the receipt wait: a ledger read with no terminal for the
/// message, a clock read inside the budget, and the poll's sleep bring the
/// send back to reading the ledger, with nothing written and nothing else
/// changed. A receipt that lands after the first read is found by a later one.
pub proof fn lemma_receipt_poll_cycle(
    m0: Priming,
    message_id: String,
    watch_start: i64,
    budget_ms: i64,
    recs: Vec<EventRecord>,
    m1: Priming,
    a1: PrimingAction,
    t: i64,
    m2: Priming,
    a2: PrimingAction,
    m3: Priming,
    a3: PrimingAction,
)
    requires
        m0.stage == (Stage::AwaitLedger { message_id, watch_start, budget_ms }),
        forall|i: int| 0 <= i < recs@.len() ==> !ends_wait(#[trigger] recs@[i], message_id@),
        steps_to(m0, PrimingEvent::Ledger(recs), m1, a1),
        t - watch_start < budget_ms,
        steps_to(m1, PrimingEvent::Clock(t), m2, a2),
        steps_to(m2, PrimingEvent::Slept, m3, a3),
    ensures
        a1.request is ReadClock,
        a2.request == (Request::Sleep { ms: 500 }),
        a3.request is ReadLedger,
        a1.effects@.len() == 0 && a2.effects@.len() == 0 && a3.effects@.len() == 0,
        m3.stage == m0.stage,
        m3.params == m0.params && m3.notes == m0.notes,
{
    lemma_receipt_wait_step(m0, message_id, watch_start, budget_ms, recs, m1, a1);
}

/// A pane send that finishes on the deliver outcome reports that outcome: it
/// ends `Primed` over the pane with the outcome the delivery reported and its
/// notes unchanged. It finishes there exactly unless the turn was accepted and
/// the prompt is longer than one 1024-byte chunk (then the payload is read
/// back first).
pub proof fn lemma_pane_reports_its_outcome(
    m: Priming,
    transcript: Option<String>,
    verify_offset: u64,
    rep: DeliveryReport,
    m2: Priming,
    a: PrimingAction,
)
    requires
        m.stage == (Stage::AwaitPaneDelivery { transcript, verify_offset }),
        steps_to(m, PrimingEvent::Delivered(rep), m2, a),
    ensures
        a.request is Finish <==> !(rep.outcome == DeliverOutcome::Accepted && prompt_len(m.params)
            > 1024),
        a.request matches Request::Finish(res) ==> res matches Ok(pr) && pr.deliver == rep.outcome
            && !pr.relayed && pr.notes@ == m.notes@,
{
}

} // verus!
