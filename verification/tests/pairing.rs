use std::sync::Arc;

use pax::batch::{active, BatchRun};
use pax::bridge::{consult, reply_to, BridgeLog, Prompt, Reply};
use pax::workflow::{after_attempt, is_final, PairStep};
use pax::{
    pair_device, pair_devices, pair_discovered, AcceptAllAgent, BatchPairOptions, CallbackAgent,
    BdAddr, BluetoothBackend, DeviceId, DiscoveryFilter, FixedPinAgent, MockBackend, MockDevice,
    PairOptions, PairReport, PairingAgent, PairingMethodHint, PairingOutcome, PairingRequest,
    PairingResponse, RejectAllAgent, TransportError,
};

fn id() -> DeviceId {
    "AA:BB:CC:DD:EE:FF".parse().unwrap()
}

// Agents.

#[test]
fn accept_all_confirms_and_supplies_pin() {
    let agent = AcceptAllAgent::new().with_pin("1234");
    assert_eq!(
        agent.respond(PairingRequest::ConfirmJustWorks),
        PairingResponse::Confirm(true)
    );
    assert_eq!(
        agent.respond(PairingRequest::RequestPinCode),
        PairingResponse::Pin("1234".into())
    );
}

#[test]
fn reject_all_refuses() {
    let agent = RejectAllAgent;
    assert_eq!(
        agent.respond(PairingRequest::ConfirmJustWorks),
        PairingResponse::Confirm(false)
    );
}

#[test]
fn callback_runs_policy() {
    let agent = CallbackAgent::new(|req: PairingRequest| match req {
        PairingRequest::ConfirmPasskey { passkey } => PairingResponse::Confirm(passkey % 2 == 0),
        _ => PairingResponse::Cancel,
    });
    assert_eq!(
        agent.respond(PairingRequest::ConfirmPasskey { passkey: 4 }),
        PairingResponse::Confirm(true)
    );
    assert_eq!(
        agent.respond(PairingRequest::ConfirmPasskey { passkey: 5 }),
        PairingResponse::Confirm(false)
    );
}

#[test]
fn fixed_pin_answers_pins_only() {
    let agent = FixedPinAgent::new("0420");
    assert_eq!(
        agent.respond(PairingRequest::RequestPinCode),
        PairingResponse::Pin("0420".into())
    );
    assert_eq!(
        AcceptAllAgent::new().with_passkey(7).respond(PairingRequest::RequestPasskey),
        PairingResponse::Passkey(7)
    );
}

// One device.

#[test]
fn first_try_success() {
    let mut backend = MockBackend::builder()
        .device(MockDevice::new(id(), "ok"))
        .build();
    let agent = Arc::new(AcceptAllAgent::new());
    let report = pair_device(&mut backend, id(), &*agent, PairOptions::default()).unwrap();
    assert_eq!(report.attempts, 1);
    assert!(report.outcome.bonded);
}

#[test]
fn rejection_is_not_retried() {
    let mut backend = MockBackend::builder()
        .device(MockDevice::new(id(), "no"))
        .build();
    let err = pair_device(
        &mut backend,
        id(),
        &RejectAllAgent,
        PairOptions {
            retries: 5,
            ..Default::default()
        },
    )
    .unwrap_err();
    assert!(matches!(err, TransportError::PairingRejected(_)));
}

#[test]
fn transient_failure_is_retried_then_surfaced() {
    let mut backend = MockBackend::builder()
        .device(MockDevice::new(id(), "flaky").failing_pairing("device busy"))
        .build();
    let err = pair_device(
        &mut backend,
        id(),
        &AcceptAllAgent::new(),
        PairOptions {
            retries: 2,
            ..Default::default()
        },
    )
    .unwrap_err();
    assert!(matches!(err, TransportError::PairingFailed(_)));
}

#[test]
fn pairing_under_another_address() {
    let mut backend = MockBackend::builder()
        .device(MockDevice::new(id(), "ok"))
        .build();
    let addr = BdAddr::new([2, 0, 0, 0, 0, 5]);
    let opts = PairOptions::default().spoofing(addr);
    pair_device(&mut backend, id(), &AcceptAllAgent::new(), opts).unwrap();
    assert_eq!(backend.adapter().unwrap().address, addr);
}

#[test]
fn attempts_end_at_a_verdict_or_the_limit() {
    let busy = || TransportError::PairingFailed("busy".into());
    assert!(!is_final(&busy()));
    assert!(is_final(&TransportError::DeviceNotFound(id())));
    assert!(matches!(after_attempt(1, 3, Err(busy())), PairStep::Retry));
    assert!(matches!(after_attempt(3, 3, Err(busy())), PairStep::Done(Err(_))));
    let good = PairingOutcome::bonded(PairingMethodHint::JustWorks);
    match after_attempt(2, 3, Ok(good)) {
        PairStep::Done(Ok(r)) => assert_eq!(r.attempts, 2),
        other => panic!("unexpected: {other:?}"),
    }
}

// Batches.

fn ids(n: u8) -> Vec<DeviceId> {
    (1..=n)
        .map(|i| {
            format!("AA:BB:CC:DD:EE:{i:02X}")
                .parse::<DeviceId>()
                .unwrap()
        })
        .collect()
}

fn backend_with(targets: &[DeviceId]) -> MockBackend {
    let mut b = MockBackend::builder();
    for id in targets {
        b = b.device(MockDevice::new(*id, "dev"));
    }
    b.build()
}

#[test]
fn batch_pairs_all_devices() {
    let targets = ids(5);
    let mut backend = backend_with(&targets);
    let results = pair_devices(
        &mut backend,
        &targets,
        &AcceptAllAgent::new(),
        BatchPairOptions::default(),
    );
    assert_eq!(results.len(), 5);
    assert!(results.iter().all(|r| r.paired()));
    assert_eq!(results[0].id, targets[0]);
}

#[test]
fn batch_partial_success_does_not_abort() {
    let targets = ids(3);
    let mut backend = MockBackend::builder()
        .device(MockDevice::new(targets[0], "ok"))
        .device(MockDevice::new(targets[1], "bad").failing_pairing("nope"))
        .device(MockDevice::new(targets[2], "ok"))
        .build();

    let results = pair_devices(
        &mut backend,
        &targets,
        &AcceptAllAgent::new(),
        BatchPairOptions::default(),
    );
    assert!(results[0].paired());
    assert!(!results[1].paired());
    assert!(results[2].paired());
    assert_eq!(results[1].attempts, 2);
}

#[test]
fn batch_sequential_and_concurrent_agree() {
    let targets = ids(4);
    let mut backend = backend_with(&targets);
    let agent = AcceptAllAgent::new();

    let seq = pair_devices(
        &mut backend,
        &targets,
        &agent,
        BatchPairOptions {
            concurrency: Some(1),
            ..Default::default()
        },
    );
    let conc = pair_devices(&mut backend, &targets, &agent, BatchPairOptions::default());
    assert!(seq.iter().all(|r| r.paired()));
    assert!(conc.iter().all(|r| r.paired()));
}

#[test]
fn repeated_target_is_tried_once() {
    let t = ids(1)[0];
    let mut backend = backend_with(&[t]);
    let results = pair_devices(
        &mut backend,
        &[t, t],
        &AcceptAllAgent::new(),
        BatchPairOptions::default(),
    );
    assert_eq!(results.iter().filter(|r| r.paired()).count(), results.len());
    assert!(results.iter().all(|r| r.attempts == 1));
}

#[test]
fn discovered_devices_are_paired() {
    let targets = ids(2);
    let mut backend = backend_with(&targets);
    let items = pair_discovered(
        &mut backend,
        &DiscoveryFilter::new(),
        &AcceptAllAgent::new(),
        BatchPairOptions::default(),
    )
    .unwrap();
    assert_eq!(items.iter().map(|i| i.id).collect::<Vec<_>>(), targets);
}

#[test]
fn results_may_come_in_any_order() {
    let t = ids(2);
    let good = || {
        Ok(PairReport {
            outcome: PairingOutcome::bonded(PairingMethodHint::JustWorks),
            attempts: 1,
        })
    };
    let bad = || Err(TransportError::PairingFailed("busy".into()));
    let mut a = BatchRun::new(&t);
    a.record_round(vec![(t[0], good()), (t[1], bad())]);
    let mut b = BatchRun::new(&t);
    b.record_round(vec![(t[1], bad()), (t[0], good())]);
    assert!(!a.is_done() && !b.is_done());
    assert_eq!(a.pending, b.pending);
    let (x, y) = (a.finish(), b.finish());
    assert!(x[0].paired() && y[0].paired());
    assert!(!x[1].paired() && !y[1].paired());
}

#[test]
fn concurrency_is_clamped() {
    assert_eq!(active(None, 1, 5), 1);
    assert_eq!(active(None, usize::MAX, 5), 5);
    assert_eq!(active(Some(0), 4, 5), 1);
    assert_eq!(active(Some(9), 4, 5), 5);
}

// Bridging.

#[test]
fn only_the_fitting_answer_goes_through() {
    assert!(matches!(
        reply_to(Prompt::Confirmation { passkey: 1 }, PairingResponse::Confirm(true)),
        Reply::Go
    ));
    assert!(matches!(
        reply_to(Prompt::PinCode, PairingResponse::Confirm(true)),
        Reply::Rejected
    ));
    assert!(matches!(reply_to(Prompt::Passkey, PairingResponse::Passkey(5)), Reply::Passkey(5)));
    assert!(matches!(reply_to(Prompt::Passkey, PairingResponse::Cancel), Reply::Canceled));
    assert!(matches!(
        reply_to(Prompt::Authorization, PairingResponse::Confirm(false)),
        Reply::Rejected
    ));
    match reply_to(Prompt::PinCode, PairingResponse::Pin("77".into())) {
        Reply::Pin(pin) => assert_eq!(pin, "77"),
        other => panic!("unexpected: {other:?}"),
    }
}

#[test]
fn bridge_remembers_who_bonded() {
    let mut log = BridgeLog::new();
    assert_eq!(log.method_used(), PairingMethodHint::JustWorks);
    let agent = AcceptAllAgent::new();
    consult(&agent, &mut log, id(), Prompt::PinCode);
    consult(&agent, &mut log, id(), Prompt::Confirmation { passkey: 9 });
    assert_eq!(log.bonded, vec![id()]);
    assert_eq!(log.method_used(), PairingMethodHint::NumericComparison);
    let mut none = BridgeLog::new();
    consult(&RejectAllAgent, &mut none, id(), Prompt::Authorization);
    assert!(none.bonded.is_empty());
    assert_eq!(none.method, Some(PairingMethodHint::JustWorks));
}
