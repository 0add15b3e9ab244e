use std::cell::{Cell, RefCell};

use quorum::delivery::{
    claude_carrier, ClaudeCarrier, DeliverOutcome, EventRecord, PayloadVerifyOutcome, Refused,
    RelayHealth, CHUNK_BYTES, DELIVER_TIMEOUT_S,
};
use quorum::priming::{
    emit_priming_timeout, payload_verify_applies, prime_new_session, receipt_outcome,
    remaining_budget_ms, sidecar_relay_port, BootPhase, Chunking, DeliveryReport, Effect, Primed,
    PrimingError, PrimingEvent, PrimingParams, RelayDelivered, RelayRefusal, Request, SessionRow,
    TranscriptSnapshot,
};

// --- carrier selection -----------------------------------------------------

#[test]
fn a_recorded_relay_port_selects_the_relay_carrier() {
    assert_eq!(
        claude_carrier(Some(4711), true),
        ClaudeCarrier::Relay { port: 4711 },
        "a recorded port is the relay, pane or no pane"
    );
}

#[test]
fn no_relay_port_falls_back_to_the_pane() {
    assert_eq!(claude_carrier(None, true), ClaudeCarrier::MuxPty);
}

#[test]
fn sidecar_port_joins_on_the_session_uuid() {
    let sidecars = vec![
        RelayHealth {
            session_id: "neighbour".to_string(),
            port: 1111,
            pid: 10,
            status: "ok".to_string(),
        },
        RelayHealth {
            session_id: "sid-1".to_string(),
            port: 4711,
            pid: 20,
            status: "ok".to_string(),
        },
    ];
    assert_eq!(sidecar_relay_port(&sidecars, Some("sid-1")), Some(4711));
    assert_eq!(sidecar_relay_port(&sidecars, Some("unknown")), None);
    assert_eq!(sidecar_relay_port(&sidecars, None), None);
    assert_eq!(sidecar_relay_port(&sidecars, Some("")), None);
    assert_eq!(sidecar_relay_port(&Vec::new(), Some("sid-1")), None);
}

// --- the exit contract -----------------------------------------------------

fn record(event: &str, send_id: &str) -> EventRecord {
    EventRecord { event: event.to_string(), send_id: Some(send_id.to_string()) }
}

#[test]
fn receipt_inside_the_budget_is_accepted() {
    let rec = record("message-seen", "mid-1");
    assert_eq!(receipt_outcome(Some(&rec)), DeliverOutcome::Accepted);
}

#[test]
fn no_receipt_inside_the_budget_is_stalled_not_accepted() {
    assert_eq!(receipt_outcome(None), DeliverOutcome::Stalled);
}

#[test]
fn a_failure_terminal_is_stalled_not_a_transport_failure() {
    let rec = record("pending-abandoned", "mid-1");
    assert_eq!(receipt_outcome(Some(&rec)), DeliverOutcome::Stalled);
}

#[test]
fn a_transport_refusal_is_exit_one_and_says_the_session_is_running() {
    let err = PrimingError::RelayRefused {
        name: "wk".to_string(),
        carrier_line: "Failed to send message: connection failed".to_string(),
    };
    assert_eq!(err.exit_code(), 1);
    let line = err.line("start").expect("the refusal speaks");
    assert!(
        line.contains("Failed to send message: connection failed"),
        "the carrier's own sentence is carried verbatim: {line}"
    );
    assert!(
        line.contains("IS RUNNING"),
        "an exit 1 from a CREATE verb must not read as \"nothing happened\": {line}"
    );
}

// --- the payload read-back ruling -----------------------------------------

#[test]
fn the_chunked_verify_is_pane_only() {
    let chunked = "x".repeat(CHUNK_BYTES * 2);
    assert!(
        !payload_verify_applies(ClaudeCarrier::Relay { port: 4711 }, &chunked),
        "a relay body is atomic and receipt-closed — nothing to read back"
    );
    assert!(
        payload_verify_applies(ClaudeCarrier::MuxPty, &chunked),
        "the pane path is byte-for-byte unchanged"
    );
    assert!(
        !payload_verify_applies(ClaudeCarrier::MuxPty, "short"),
        "a single-chunk pane send never verified and still does not"
    );
}

#[test]
fn the_receipt_wait_spends_primings_own_budget() {
    assert_eq!(remaining_budget_ms(0, 0), DELIVER_TIMEOUT_S as i64 * 1000);
    assert_eq!(remaining_budget_ms(1_000, 1_500), 14_500);
    assert_eq!(remaining_budget_ms(0, 99_000), 0);
}

// --- the body, end to end --------------------------------------------------

/// A relay transport that answers from a script and records what it was asked
/// to send.
struct FakeRelay {
    answer: Result<String, String>,
    sent: RefCell<Vec<String>>,
}

impl FakeRelay {
    fn ok(id: &str) -> Self {
        FakeRelay { answer: Ok(id.to_string()), sent: RefCell::new(Vec::new()) }
    }
    fn err(line: &str) -> Self {
        FakeRelay { answer: Err(line.to_string()), sent: RefCell::new(Vec::new()) }
    }
    fn sent(&self) -> Vec<String> {
        self.sent.borrow().clone()
    }
}

/// A session as the engine would leave it just after boot: a registry row,
/// optionally a relay sidecar, a ledger, a clock that advances on every read,
/// and a pane.
struct Jail {
    session_id: String,
    name: String,
    send_id: String,
    sidecar: bool,
    ledger: RefCell<Vec<EventRecord>>,
    effects: RefCell<Vec<Effect>>,
    clock: Cell<i64>,
    pane_typed: RefCell<Vec<String>>,
}

impl Jail {
    fn build(session_id: &str, name: &str, sidecar: bool) -> Self {
        Jail {
            session_id: session_id.to_string(),
            name: name.to_string(),
            send_id: "1-2-3".to_string(),
            sidecar,
            ledger: RefCell::new(Vec::new()),
            effects: RefCell::new(Vec::new()),
            clock: Cell::new(1_770_000_000_000),
            pane_typed: RefCell::new(Vec::new()),
        }
    }
    fn new(session_id: &str, name: &str) -> Self {
        Self::build(session_id, name, true)
    }
    fn without_sidecar(session_id: &str, name: &str) -> Self {
        Self::build(session_id, name, false)
    }
    fn send_id(&self) -> &str {
        &self.send_id
    }

    /// Pre-write the `message-seen` the relay server's observer would write for `mid`.
    fn write_receipt(&self, mid: &str) {
        self.ledger.borrow_mut().push(record("message-seen", mid));
    }

    /// The priming `send-initiated` this send wrote.
    fn our_send_initiated(&self) -> quorum::priming::SendInitiated {
        self.effects
            .borrow()
            .iter()
            .find_map(|e| match e {
                Effect::SendInitiated(si) if si.send_id == self.send_id => Some(si.clone()),
                _ => None,
            })
            .expect("the priming send-initiated")
    }

    fn now(&self) -> i64 {
        let v = self.clock.get();
        self.clock.set(v + 1_000);
        v
    }

    fn prime(&self, relay: &FakeRelay, prompt: &str) -> Result<Primed, Refused<PrimingError>> {
        let params = PrimingParams {
            name: self.name.clone(),
            prompt: prompt.to_string(),
            session_id: Some(self.session_id.clone()),
            send_id: self.send_id.clone(),
        };
        let (mut m, mut a) = prime_new_session(params);
        loop {
            for e in a.effects {
                if let Effect::SendInitiated(si) = &e {
                    self.ledger.borrow_mut().push(record("send-initiated", &si.send_id));
                }
                self.effects.borrow_mut().push(e);
            }
            let ev = match a.request {
                Request::Finish(res) => return res,
                Request::ReadSidecars => PrimingEvent::Sidecars(if self.sidecar {
                    vec![RelayHealth {
                        session_id: self.session_id.clone(),
                        port: 4711,
                        pid: 4243,
                        status: "ok".to_string(),
                    }]
                } else {
                    Vec::new()
                }),
                Request::LookupRow { session_id } => {
                    PrimingEvent::Row(if session_id == self.session_id {
                        Some(SessionRow {
                            session_id: self.session_id.clone(),
                            name: Some(self.name.clone()),
                            pid: 4242,
                        })
                    } else {
                        None
                    })
                }
                Request::SnapshotTranscript => PrimingEvent::Transcript(None),
                Request::ReadClock => PrimingEvent::Clock(self.now()),
                Request::PostRelay { message, .. } => {
                    relay.sent.borrow_mut().push(message);
                    PrimingEvent::RelayPosted(match &relay.answer {
                        Ok(id) => Ok(RelayDelivered { notes: Vec::new(), message_id: id.clone() }),
                        Err(line) => {
                            Err(RelayRefusal { notes: Vec::new(), line: Some(line.clone()) })
                        }
                    })
                }
                Request::ReadLedger => PrimingEvent::Ledger(self.ledger.borrow().clone()),
                Request::Sleep { .. } => PrimingEvent::Slept,
                Request::DeliverToPane { message } => {
                    self.pane_typed.borrow_mut().push(message);
                    PrimingEvent::Delivered(DeliveryReport {
                        outcome: DeliverOutcome::PidFileMissing,
                        acks_total: 1,
                        acks_acked: 1,
                    })
                }
                Request::VerifyPayload { .. } => PrimingEvent::Verified(PayloadVerifyOutcome::NoRecord),
            };
            assert!(m.expects(&ev), "the driver answered what was asked");
            let (m2, a2) = m.step(ev);
            m = m2;
            a = a2;
        }
    }
}

#[test]
fn a_receipted_relay_prime_is_accepted_and_keeps_the_new_p_identity() {
    let jail = Jail::new("sid-1", "wk");
    jail.write_receipt("mid-1");
    let relay = FakeRelay::ok("mid-1");
    let primed = match jail.prime(&relay, "hello prompt") {
        Ok(p) => p,
        Err(_) => panic!("no refusal"),
    };

    assert_eq!(primed.deliver, DeliverOutcome::Accepted);
    assert_eq!(relay.sent(), vec!["hello prompt".to_string()], "relayed");

    let ours = jail.our_send_initiated();
    assert_eq!(ours.verb, "new-p");
    assert_eq!(ours.send_path, "relay");
    assert_eq!(ours.chunking, Chunking::Whole, "one chunk");
    assert!(ours.transcript.is_none(), "a relay send carries no transcript anchor");
}

#[test]
fn a_relay_prime_with_no_receipt_is_stalled() {
    let jail = Jail::new("sid-1", "wk");
    let relay = FakeRelay::ok("mid-1");
    let primed = match jail.prime(&relay, "hello prompt") {
        Ok(p) => p,
        Err(_) => panic!("no refusal"),
    };
    assert_eq!(primed.deliver, DeliverOutcome::Stalled);
}

#[test]
fn a_foreign_receipt_does_not_close_our_prime() {
    let jail = Jail::new("sid-1", "wk");
    jail.write_receipt("someone-elses-mid");
    let relay = FakeRelay::ok("mid-1");
    let primed = match jail.prime(&relay, "hello prompt") {
        Ok(p) => p,
        Err(_) => panic!("no refusal"),
    };
    assert_eq!(primed.deliver, DeliverOutcome::Stalled);
}

#[test]
fn a_refused_post_refuses_with_exit_one() {
    let jail = Jail::new("sid-1", "wk");
    let relay = FakeRelay::err("Failed to send message: connection failed");
    let refused = match jail.prime(&relay, "hello prompt") {
        Err(e) => e,
        Ok(_) => panic!("a refused POST is a refusal"),
    };
    assert_eq!(refused.error.exit_code(), 1);
    assert_eq!(
        refused.message_id.as_deref(),
        Some(jail.send_id()),
        "the refusal stays KEYED — its send-initiated is already durable"
    );
}

#[test]
fn no_sidecar_falls_back_to_the_pane_body() {
    let jail = Jail::without_sidecar("sid-1", "wk");
    let relay = FakeRelay::ok("mid-1");
    let _ = jail.prime(&relay, "hello prompt");
    assert!(relay.sent().is_empty(), "the relay was never reached");
    let ours = jail.our_send_initiated();
    assert_eq!(ours.send_path, "idle", "the pane path is untouched by this change");
}

// --- further rows of this library's own ------------------------------------

#[test]
fn the_pane_body_types_the_prompt_and_never_closes_the_send() {
    let jail = Jail::without_sidecar("sid-1", "wk");
    let relay = FakeRelay::ok("mid-1");
    let primed = match jail.prime(&relay, "hello prompt") {
        Ok(p) => p,
        Err(_) => panic!("no refusal"),
    };
    assert_eq!(primed.deliver, DeliverOutcome::PidFileMissing);
    assert!(!primed.relayed);
    assert_eq!(*jail.pane_typed.borrow(), vec!["hello prompt".to_string()]);
    let effects = jail.effects.borrow();
    assert!(effects.iter().any(|e| matches!(e, Effect::ChunksDelivered { chunks_acked: 1, .. })));
    assert!(!effects.iter().any(|e| matches!(
        e,
        Effect::TurnAnchored { .. } | Effect::TurnAnchoredMismatch { .. }
    )));
    assert!(matches!(effects.last(), Some(Effect::DisarmWatchGuard)));
    let ours = jail.our_send_initiated();
    assert_eq!(ours.chunking, Chunking::Split { chunk_bytes: CHUNK_BYTES });
    assert_eq!(ours.content_len, 12);
}

#[test]
fn the_ledger_key_is_the_session_id_else_byname() {
    let params = PrimingParams {
        name: "wk".to_string(),
        prompt: "p".to_string(),
        session_id: None,
        send_id: "s".to_string(),
    };
    let (_, a) = prime_new_session(params);
    match &a.effects[0] {
        Effect::OpenLedger { key, session_id, name } => {
            assert_eq!(key, "byname-wk");
            assert!(session_id.is_none());
            assert_eq!(name, "wk");
        }
        other => panic!("expected the ledger first, got {other:?}"),
    }
    assert!(matches!(a.request, Request::SnapshotTranscript), "no id: straight to the pane");

    let params = PrimingParams {
        name: "wk".to_string(),
        prompt: "p".to_string(),
        session_id: Some("sid-9".to_string()),
        send_id: "s".to_string(),
    };
    let (_, a) = prime_new_session(params);
    match &a.effects[0] {
        Effect::OpenLedger { key, .. } => assert_eq!(key, "sid-9"),
        other => panic!("expected the ledger first, got {other:?}"),
    }
    assert!(matches!(a.request, Request::ReadSidecars));
}

#[test]
fn a_refusal_without_a_carrier_line_names_the_missing_relay() {
    let params = PrimingParams {
        name: "wk".to_string(),
        prompt: "hello".to_string(),
        session_id: Some("sid-1".to_string()),
        send_id: "s-1".to_string(),
    };
    let (m, _) = prime_new_session(params);
    let (m, _) = m.step(PrimingEvent::Sidecars(vec![RelayHealth {
        session_id: "sid-1".to_string(),
        port: 9,
        pid: 1,
        status: "ok".to_string(),
    }]));
    let (m, a) = m.step(PrimingEvent::Row(Some(SessionRow {
        session_id: "sid-1".to_string(),
        name: None,
        pid: 1,
    })));
    assert!(matches!(a.request, Request::ReadClock));
    let (m, a) = m.step(PrimingEvent::Clock(5));
    assert!(matches!(a.request, Request::PostRelay { port: 9, .. }));
    let (_, a) = m.step(PrimingEvent::RelayPosted(Err(RelayRefusal {
        notes: vec!["carrier note".to_string()],
        line: None,
    })));
    match a.request {
        Request::Finish(Err(refused)) => {
            assert_eq!(refused.notes, vec!["carrier note".to_string()]);
            match &refused.error {
                PrimingError::RelayRefused { carrier_line, .. } => {
                    assert_eq!(carrier_line, "Session \"wk\" has no relay.")
                }
                other => panic!("wrong refusal {other:?}"),
            }
            assert_eq!(
                refused.error.line("start").unwrap(),
                "Session \"wk\" has no relay.\n  Session \"wk\" IS RUNNING; the -p prompt was NOT \
                 delivered over its relay.\n  Attach: qd attach wk"
            );
        }
        _ => panic!("a refused POST finishes the send"),
    }
}

fn pane_session_to_verify(outcome: PayloadVerifyOutcome) -> (Vec<Effect>, Result<Primed, Refused<PrimingError>>) {
    let params = PrimingParams {
        name: "wk".to_string(),
        prompt: "y".repeat(CHUNK_BYTES + 1),
        session_id: None,
        send_id: "s-7".to_string(),
    };
    let (m, _) = prime_new_session(params);
    let (m, a) = m.step(PrimingEvent::Transcript(Some(TranscriptSnapshot {
        path: "/t.jsonl".to_string(),
        len: Some(77),
    })));
    match &a.effects[0] {
        Effect::SendInitiated(si) => {
            assert_eq!(si.transcript.as_deref(), Some("/t.jsonl"));
            assert_eq!(si.transcript_offset, Some(77));
        }
        other => panic!("expected send-initiated, got {other:?}"),
    }
    assert!(matches!(a.effects[1], Effect::ArmWatchGuard { .. }));
    let (m, a) = m.step(PrimingEvent::Delivered(DeliveryReport {
        outcome: DeliverOutcome::Accepted,
        acks_total: 2,
        acks_acked: 1,
    }));
    assert!(a.effects.is_empty(), "not every chunk acked: no chunks-delivered");
    assert!(matches!(a.request, Request::VerifyPayload { offset: 77 }));
    let (_, a) = m.step(PrimingEvent::Verified(outcome));
    match a.request {
        Request::Finish(res) => (a.effects, res),
        _ => panic!("the read-back ends the send"),
    }
}

#[test]
fn a_verified_read_back_anchors_the_turn() {
    let (effects, res) = pane_session_to_verify(PayloadVerifyOutcome::Verified);
    assert!(matches!(&effects[0], Effect::TurnAnchored { offset: 77, line_index: 0, .. }));
    let primed = res.ok().expect("accepted");
    assert_eq!(primed.deliver, DeliverOutcome::Accepted);
    assert!(primed.notes.is_empty());
}

#[test]
fn a_truncated_read_back_refuses_with_the_payload_truncated_error() {
    let (effects, res) = pane_session_to_verify(PayloadVerifyOutcome::Truncated {
        expected: 1025,
        recorded: 26,
    });
    assert!(matches!(
        &effects[0],
        Effect::TurnAnchoredMismatch { expected: 1025, recorded: 26, offset: 77, .. }
    ));
    let refused = match res {
        Err(r) => r,
        Ok(_) => panic!("truncation refuses"),
    };
    assert_eq!(refused.error.exit_code(), 1);
    assert_eq!(refused.message_id.as_deref(), Some("s-7"));
    assert_eq!(
        refused.error.line("start").unwrap(),
        "ERROR: payload truncated in delivery to \"wk\": expected 1025 bytes, recorded 26.\n  \
         The turn started (went busy) — do NOT blindly resend (double-submit risk).\n  \
         Attach: qd attach wk"
    );
}

#[test]
fn a_degraded_read_back_warns_and_stands() {
    let (_, res) = pane_session_to_verify(PayloadVerifyOutcome::Unattributable);
    let primed = res.ok().expect("stands");
    assert_eq!(
        primed.notes,
        vec![
            "WARNING: could not attribute the delivered payload in \"wk\"'s transcript — \
             check: qd attach wk"
                .to_string()
        ]
    );
    let (_, res) = pane_session_to_verify(PayloadVerifyOutcome::SourceUnavailable("x".to_string()));
    let primed = res.ok().expect("stands");
    assert_eq!(
        primed.notes,
        vec![
            "WARNING: could not verify payload delivery to \"wk\" (transcript not yet \
             resolvable) — check: qd attach wk"
                .to_string()
        ]
    );
}

#[test]
fn priming_timeout_records_are_filed_by_name_with_the_typed_phase() {
    let r = emit_priming_timeout("wk", BootPhase::PidFile);
    assert_eq!(r.key, "byname-wk");
    assert_eq!(r.name, "wk");
    assert_eq!(r.phase, "pid-file");
    assert_eq!(r.waited_ms, 40_000);
    let r = emit_priming_timeout("wk", BootPhase::Idle);
    assert_eq!(r.phase, "idle");
    assert_eq!(r.waited_ms, 60_000);
    let r = emit_priming_timeout("wk", BootPhase::Relay);
    assert_eq!(r.phase, "relay");
    assert_eq!(r.waited_ms, 60_000);
}

#[test]
fn the_first_sidecar_naming_the_session_wins() {
    let sidecar = |sid: &str, port: u16| RelayHealth {
        session_id: sid.to_string(),
        port,
        pid: 1,
        status: "ok".to_string(),
    };
    let sidecars = vec![sidecar("sid-10", 1), sidecar("sid-1", 2), sidecar("sid-1", 3)];
    assert_eq!(sidecar_relay_port(&sidecars, Some("sid-1")), Some(2));
    assert_eq!(sidecar_relay_port(&sidecars, Some("sid")), None, "no prefix matching");
}

#[test]
fn the_receipt_wait_ends_stalled_when_the_budget_is_spent() {
    let params = PrimingParams {
        name: "wk".to_string(),
        prompt: "hi".to_string(),
        session_id: Some("sid-1".to_string()),
        send_id: "s".to_string(),
    };
    let (m, _) = prime_new_session(params);
    let (m, _) = m.step(PrimingEvent::Sidecars(vec![RelayHealth {
        session_id: "sid-1".to_string(),
        port: 7,
        pid: 1,
        status: "ok".to_string(),
    }]));
    let (m, _) = m.step(PrimingEvent::Row(Some(SessionRow {
        session_id: "sid-1".to_string(),
        name: None,
        pid: 1,
    })));
    let (m, _) = m.step(PrimingEvent::Clock(1_000));
    let (m, _) = m.step(PrimingEvent::RelayPosted(Ok(RelayDelivered {
        notes: vec!["posted".to_string()],
        message_id: "mid-9".to_string(),
    })));
    // 500ms of the 15s budget went on the POST.
    let (m, a) = m.step(PrimingEvent::Clock(1_500));
    assert!(matches!(a.request, Request::ReadLedger));
    let (m, a) = m.step(PrimingEvent::Ledger(vec![record("turn-anchored", "other")]));
    assert!(matches!(a.request, Request::ReadClock));
    let (m, a) = m.step(PrimingEvent::Clock(15_999));
    assert!(matches!(a.request, Request::Sleep { ms: 500 }), "14499ms waited: still inside");
    let (m, _) = m.step(PrimingEvent::Slept);
    let (m, _) = m.step(PrimingEvent::Ledger(Vec::new()));
    let (_, a) = m.step(PrimingEvent::Clock(16_000));
    match a.request {
        Request::Finish(Ok(primed)) => {
            assert_eq!(primed.deliver, DeliverOutcome::Stalled);
            assert!(primed.relayed);
            assert_eq!(primed.notes, vec!["posted".to_string()]);
        }
        _ => panic!("the spent budget ends the wait"),
    }
}
