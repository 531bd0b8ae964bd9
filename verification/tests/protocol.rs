use mcp_core::correlate::{Correlator, Delivery};
use mcp_core::lifecycle::{
    hs_step, life_step, HsAction, HsEvent, HsPhase, LifeEvent, LifeState,
};
use mcp_core::wire::{encode_request, u64_to_dec};

#[test]
fn decimal_rendering_exact() {
    assert_eq!(u64_to_dec(0), "0");
    assert_eq!(u64_to_dec(7), "7");
    assert_eq!(u64_to_dec(10), "10");
    assert_eq!(u64_to_dec(90210), "90210");
    assert_eq!(u64_to_dec(u64::MAX), "18446744073709551615");
}

#[test]
fn request_line_exact() {
    let line = encode_request(2, "tools/call", "{\"name\":\"echo\",\"arguments\":{}}");
    assert_eq!(
        line,
        "{\"jsonrpc\":\"2.0\",\"id\":2,\"method\":\"tools/call\",\"params\":{\"name\":\"echo\",\"arguments\":{}}}\n"
    );
    assert_eq!(line.matches('\n').count(), 1);
}

#[test]
fn correlator_assigns_fresh_ids() {
    let mut c = Correlator::new();
    assert_eq!(c.register(), 0);
    assert_eq!(c.register(), 1);
    assert_eq!(c.register(), 2);
}

#[test]
fn responses_match_regardless_of_arrival_order() {
    let mut c = Correlator::new();
    let a = c.register();
    let b = c.register();
    assert!(matches!(c.deliver(b), Delivery::Matched));
    assert!(matches!(c.deliver(b), Delivery::Unknown));
    assert!(matches!(c.deliver(a), Delivery::Matched));
    assert!(matches!(c.deliver(a), Delivery::Unknown));
}

#[test]
fn unknown_id_is_dropped() {
    let mut c = Correlator::new();
    let a = c.register();
    assert!(matches!(c.deliver(999), Delivery::Unknown));
    assert!(matches!(c.deliver(a), Delivery::Matched));
}

#[test]
fn close_fails_every_outstanding_call() {
    let mut c = Correlator::new();
    let a = c.register();
    let b = c.register();
    let d = c.register();
    let failed = c.close();
    assert_eq!(failed, vec![a, b, d]);
    assert!(matches!(c.deliver(a), Delivery::Unknown));
}

#[test]
fn lifecycle_follows_the_table() {
    assert_eq!(life_step(LifeState::Spawning, LifeEvent::SpawnOk), LifeState::Initializing);
    assert_eq!(life_step(LifeState::Spawning, LifeEvent::SpawnFailed), LifeState::Failed);
    assert_eq!(life_step(LifeState::Initializing, LifeEvent::HandshakeOk), LifeState::Ready);
    assert_eq!(
        life_step(LifeState::Initializing, LifeEvent::HandshakeFailed),
        LifeState::Failed
    );
    assert_eq!(life_step(LifeState::Ready, LifeEvent::ProcessExit), LifeState::Closed);
    assert_eq!(life_step(LifeState::Ready, LifeEvent::Shutdown), LifeState::Closed);
}

#[test]
fn no_transition_revives_a_dead_connection() {
    let events = [
        LifeEvent::SpawnOk,
        LifeEvent::SpawnFailed,
        LifeEvent::HandshakeOk,
        LifeEvent::HandshakeFailed,
        LifeEvent::ProcessExit,
        LifeEvent::Shutdown,
    ];
    for e in events {
        assert_eq!(life_step(LifeState::Failed, e), LifeState::Failed);
        assert_eq!(life_step(LifeState::Closed, e), LifeState::Closed);
    }
}

#[test]
fn handshake_is_strictly_sequential() {
    let (p, a) = hs_step(HsPhase::Start, HsEvent::Begin);
    assert_eq!(p, HsPhase::AwaitInit);
    assert_eq!(a, HsAction::SendInitialize);
    let (p, a) = hs_step(p, HsEvent::InitResult(true));
    assert_eq!(p, HsPhase::AwaitTools);
    assert_eq!(a, HsAction::SendToolsList);
    let (p, a) = hs_step(p, HsEvent::ToolsResult(true));
    assert_eq!(p, HsPhase::Done);
    assert_eq!(a, HsAction::Publish);
}

#[test]
fn handshake_failure_aborts_this_connection() {
    let (p, a) = hs_step(HsPhase::AwaitInit, HsEvent::InitResult(false));
    assert_eq!(p, HsPhase::Aborted);
    assert_eq!(a, HsAction::Abort);
    let (p, a) = hs_step(HsPhase::AwaitTools, HsEvent::ToolsResult(false));
    assert_eq!(p, HsPhase::Aborted);
    assert_eq!(a, HsAction::Abort);
    let (p, a) = hs_step(HsPhase::AwaitInit, HsEvent::ConnectionLost);
    assert_eq!(p, HsPhase::Aborted);
    assert_eq!(a, HsAction::Abort);
}
