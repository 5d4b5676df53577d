use ezsockets::backoff_delay;
use ezsockets::ClientAction;
use ezsockets::ClientConfig;
use ezsockets::ClientEvent;
use ezsockets::ClientState;

fn policy(max_attempts: Option<u64>) -> ClientConfig {
    ClientConfig { initial_delay_ms: 100, max_delay_ms: 5000, multiplier: 2, max_attempts }
}

#[test]
fn backoff_schedule_doubles_and_caps() {
    let cfg = policy(None);
    let expected = [100, 200, 400, 800, 1600, 3200, 5000, 5000];
    for (attempt, want) in expected.iter().enumerate() {
        assert_eq!(backoff_delay(&cfg, attempt as u64), *want);
    }
}

#[test]
fn backoff_with_initial_above_cap_is_capped_at_once() {
    let cfg = ClientConfig {
        initial_delay_ms: 7000,
        max_delay_ms: 5000,
        multiplier: 2,
        max_attempts: None,
    };
    assert_eq!(backoff_delay(&cfg, 0), 5000);
    assert_eq!(backoff_delay(&cfg, 3), 5000);
}

#[test]
fn backoff_with_multiplier_one_stays_at_initial() {
    let cfg = ClientConfig {
        initial_delay_ms: 250,
        max_delay_ms: 5000,
        multiplier: 1,
        max_attempts: None,
    };
    assert_eq!(backoff_delay(&cfg, 0), 250);
    assert_eq!(backoff_delay(&cfg, 5), 250);
}

#[test]
fn client_reconnects_after_n_failures_with_scheduled_waits() {
    let cfg = policy(None);
    let n = 4;
    let mut state = ClientState::Connecting { attempt: 0 };
    let mut waits: Vec<u64> = Vec::new();
    for _ in 0..n {
        let (next, action) = state.step(&cfg, ClientEvent::ConnectFailed);
        match action {
            ClientAction::Wait { delay_ms } => waits.push(delay_ms),
            other => panic!("expected a wait, got {:?}", other),
        }
        state = next;
        let (next, action) = state.step(&cfg, ClientEvent::BackoffElapsed);
        assert_eq!(action, ClientAction::Connect);
        state = next;
    }
    let (next, _) = state.step(&cfg, ClientEvent::ConnectOk);
    assert_eq!(next, ClientState::Connected);
    assert_eq!(waits, vec![100, 200, 400, 800]);
}

#[test]
fn exhausted_attempts_end_in_failed() {
    let cfg = policy(Some(2));
    let s0 = ClientState::Connecting { attempt: 0 };
    let (s1, a1) = s0.step(&cfg, ClientEvent::ConnectFailed);
    assert_eq!(s1, ClientState::Backoff { attempt: 0 });
    assert_eq!(a1, ClientAction::Wait { delay_ms: 100 });
    let (s2, a2) = s1.step(&cfg, ClientEvent::BackoffElapsed);
    assert_eq!(s2, ClientState::Connecting { attempt: 1 });
    assert_eq!(a2, ClientAction::Connect);
    // the second attempt is the last one the policy allows
    let (s3, a3) = s2.step(&cfg, ClientEvent::ConnectFailed);
    assert_eq!(s3, ClientState::Failed);
    assert_eq!(a3, ClientAction::Stop);
}

#[test]
fn zero_attempts_allowed_fails_immediately() {
    let cfg = policy(Some(0));
    let s0 = ClientState::Connecting { attempt: 0 };
    let (s1, a1) = s0.step(&cfg, ClientEvent::ConnectFailed);
    assert_eq!(s1, ClientState::Failed);
    assert_eq!(a1, ClientAction::Stop);
}

#[test]
fn transport_error_while_connected_starts_backoff() {
    let cfg = policy(None);
    let (s1, a1) = ClientState::Connected.step(&cfg, ClientEvent::TransportError);
    assert_eq!(s1, ClientState::Backoff { attempt: 0 });
    assert_eq!(a1, ClientAction::Wait { delay_ms: 100 });
}

#[test]
fn disconnect_is_terminal_from_every_state() {
    let cfg = policy(None);
    for state in [
        ClientState::Connecting { attempt: 3 },
        ClientState::Connected,
        ClientState::Backoff { attempt: 1 },
        ClientState::Failed,
        ClientState::Closed,
    ] {
        let (next, action) = state.step(&cfg, ClientEvent::Disconnect);
        assert_eq!(next, ClientState::Closed);
        assert_eq!(action, ClientAction::Stop);
    }
}

#[test]
fn extension_fault_stops_without_retry() {
    let cfg = policy(None);
    let (s1, a1) = ClientState::Connected.step(&cfg, ClientEvent::ExtensionFault);
    assert_eq!(s1, ClientState::Failed);
    assert_eq!(a1, ClientAction::Stop);
    // terminal: further events change nothing
    let (s2, a2) = s1.step(&cfg, ClientEvent::ConnectOk);
    assert_eq!(s2, ClientState::Failed);
    assert_eq!(a2, ClientAction::Idle);
}
