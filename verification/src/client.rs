//! The client actor's decision logic: the reconnection policy and the
//! state machine that maintains the illusion of one continuous logical
//! connection across transport failures. The embedding runtime performs
//! the actions — connection attempts, cancellable timed waits, frame
//! I/O — and hands the outcomes back as events.

use vstd::arithmetic::mul::lemma_mul_nonnegative;
use vstd::arithmetic::mul::lemma_mul_upper_bound;
use vstd::math::min;
use vstd::prelude::*;

verus! {

/// The reconnection policy of one client actor. Immutable once the
/// actor starts.
#[derive(Clone, Copy, Debug)]
pub struct ClientConfig {
    /// The wait before the first retry, in milliseconds.
    pub initial_delay_ms: u64,
    /// The upper bound on any wait, in milliseconds.
    pub max_delay_ms: u64,
    /// The factor a wait grows by after each further failure.
    pub multiplier: u64,
    /// A bound on the number of connection attempts per outage;
    /// reconnection is unbounded when absent.
    pub max_attempts: Option<u64>,
}

/// The wait before retry number `n` of one outage, counting from zero:
/// the initial delay, grown by the multiplier once per further failure,
/// capped at the maximum delay.
pub open spec fn backoff_delay_spec(cfg: ClientConfig, n: nat) -> int
    decreases n,
{
    if n == 0 {
        min(cfg.initial_delay_ms as int, cfg.max_delay_ms as int)
    } else {
        min(
            backoff_delay_spec(cfg, (n - 1) as nat) * cfg.multiplier as int,
            cfg.max_delay_ms as int,
        )
    }
}

/// Every wait of the schedule is non-negative and capped at the maximum
/// delay.
pub proof fn lemma_backoff_delay_bounds(cfg: ClientConfig, n: nat)
    ensures
        0 <= backoff_delay_spec(cfg, n) <= cfg.max_delay_ms as int,
    decreases n,
{
    if n > 0 {
        lemma_backoff_delay_bounds(cfg, (n - 1) as nat);
        lemma_mul_nonnegative(backoff_delay_spec(cfg, (n - 1) as nat), cfg.multiplier as int);
    }
}

/// Computes the wait before retry number `attempt` under the policy.
#[verifier::loop_isolation(false)]
pub fn backoff_delay(cfg: &ClientConfig, attempt: u64) -> (d: u64)
    ensures
        d as int == backoff_delay_spec(*cfg, attempt as nat),
{
    let mut d: u64 = if cfg.initial_delay_ms < cfg.max_delay_ms {
        cfg.initial_delay_ms
    } else {
        cfg.max_delay_ms
    };
    let mut k: u64 = 0;
    while k < attempt
        invariant
            k <= attempt,
            d as int == backoff_delay_spec(*cfg, k as nat),
            d <= cfg.max_delay_ms,
        decreases attempt - k,
    {
        proof {
            lemma_mul_upper_bound(
                d as int,
                u64::MAX as int,
                cfg.multiplier as int,
                u64::MAX as int,
            );
            lemma_mul_nonnegative(d as int, cfg.multiplier as int);
        }
        let prod: u128 = (d as u128) * (cfg.multiplier as u128);
        let next: u64 = if prod >= cfg.max_delay_ms as u128 {
            cfg.max_delay_ms
        } else {
            prod as u64
        };
        d = next;
        k = k + 1;
    }
    d
}

/// The phase of the client actor.
#[derive(Clone, Copy, PartialEq, Eq, Structural, Debug)]
pub enum ClientState {
    /// Attempting transport establishment. `attempt` counts the failures
    /// suffered so far in this outage; the very first connection of the
    /// actor's life starts at zero.
    Connecting { attempt: u64 },
    /// A transport is established; the inbound and outbound loop of a
    /// session is delegated to.
    Connected,
    /// Waiting out backoff wait number `attempt` of this outage
    /// (zero-based), of duration `backoff_delay_spec(cfg, attempt)`.
    Backoff { attempt: u64 },
    /// Terminal: the attempt bound was exhausted; surfaced as a fatal
    /// error.
    Failed,
    /// Terminal: the user disconnected explicitly.
    Closed,
}

/// One event the client actor's loop can wake on.
#[derive(Clone, Copy, PartialEq, Eq, Structural, Debug)]
pub enum ClientEvent {
    /// A connection attempt succeeded.
    ConnectOk,
    /// A connection attempt failed at the transport level.
    ConnectFailed,
    /// The established transport failed mid-session, or the peer closed
    /// it.
    TransportError,
    /// The backoff wait elapsed.
    BackoffElapsed,
    /// The user requested an explicit disconnect.
    Disconnect,
    /// The extension logic's own callback faulted; an application bug is
    /// never retried.
    ExtensionFault,
}

/// What the runtime must do after a step.
#[derive(Clone, Copy, PartialEq, Eq, Structural, Debug)]
pub enum ClientAction {
    /// Nothing: keep waiting for events.
    Idle,
    /// Begin a transport connection attempt.
    Connect,
    /// Wait the given number of milliseconds; the wait must be
    /// cancellable by a concurrent disconnect request.
    Wait { delay_ms: u64 },
    /// Stop the actor for good.
    Stop,
}

/// The attempt counter, stepped without wrapping.
pub open spec fn next_attempt(a: u64) -> u64 {
    if a == u64::MAX {
        a
    } else {
        (a + 1) as u64
    }
}

/// Whether a failure at `attempt` failures exhausts the policy's attempt
/// bound.
pub open spec fn attempts_exhausted(cfg: ClientConfig, attempt: u64) -> bool {
    match cfg.max_attempts {
        Some(bound) => attempt as int + 1 >= bound as int,
        None => false,
    }
}

/// The client state after one event. A user disconnect is terminal from
/// every state; an extension fault stops a running actor; transport
/// failures lead to backoff, never to an immediate crash, until the
/// attempt bound is exhausted.
pub open spec fn client_next(cfg: ClientConfig, s: ClientState, ev: ClientEvent) -> ClientState {
    if ev is Disconnect {
        ClientState::Closed
    } else {
        match s {
            ClientState::Connecting { attempt } => match ev {
                ClientEvent::ConnectOk => ClientState::Connected,
                ClientEvent::ConnectFailed => if attempts_exhausted(cfg, attempt) {
                    ClientState::Failed
                } else {
                    ClientState::Backoff { attempt }
                },
                ClientEvent::ExtensionFault => ClientState::Failed,
                _ => s,
            },
            ClientState::Connected => match ev {
                ClientEvent::TransportError => ClientState::Backoff { attempt: 0 },
                ClientEvent::ExtensionFault => ClientState::Failed,
                _ => s,
            },
            ClientState::Backoff { attempt } => match ev {
                ClientEvent::BackoffElapsed => ClientState::Connecting {
                    attempt: next_attempt(attempt),
                },
                ClientEvent::ExtensionFault => ClientState::Failed,
                _ => s,
            },
            ClientState::Failed => s,
            ClientState::Closed => s,
        }
    }
}

/// The action one event makes the runtime perform.
pub open spec fn client_action(cfg: ClientConfig, s: ClientState, ev: ClientEvent) -> ClientAction {
    if ev is Disconnect {
        ClientAction::Stop
    } else {
        match s {
            ClientState::Connecting { attempt } => match ev {
                ClientEvent::ConnectFailed => if attempts_exhausted(cfg, attempt) {
                    ClientAction::Stop
                } else {
                    ClientAction::Wait { delay_ms: backoff_delay_spec(cfg, attempt as nat) as u64 }
                },
                ClientEvent::ExtensionFault => ClientAction::Stop,
                _ => ClientAction::Idle,
            },
            ClientState::Connected => match ev {
                ClientEvent::TransportError => ClientAction::Wait {
                    delay_ms: backoff_delay_spec(cfg, 0) as u64,
                },
                ClientEvent::ExtensionFault => ClientAction::Stop,
                _ => ClientAction::Idle,
            },
            ClientState::Backoff { .. } => match ev {
                ClientEvent::BackoffElapsed => ClientAction::Connect,
                ClientEvent::ExtensionFault => ClientAction::Stop,
                _ => ClientAction::Idle,
            },
            ClientState::Failed => ClientAction::Idle,
            ClientState::Closed => ClientAction::Idle,
        }
    }
}

impl ClientState {
    /// One iteration of the client loop, processing exactly one ready
    /// event: the next state, and the action the runtime must perform.
    pub fn step(&self, cfg: &ClientConfig, ev: ClientEvent) -> (r: (ClientState, ClientAction))
        ensures
            r.0 == client_next(*cfg, *self, ev),
            r.1 == client_action(*cfg, *self, ev),
    {
        if let ClientEvent::Disconnect = ev {
            return (ClientState::Closed, ClientAction::Stop);
        }
        match *self {
            ClientState::Connecting { attempt } => match ev {
                ClientEvent::ConnectOk => (ClientState::Connected, ClientAction::Idle),
                ClientEvent::ConnectFailed => {
                    let exhausted = match cfg.max_attempts {
                        Some(bound) => bound == 0 || attempt >= bound - 1,
                        None => false,
                    };
                    if exhausted {
                        (ClientState::Failed, ClientAction::Stop)
                    } else {
                        let d = backoff_delay(cfg, attempt);
                        proof {
                            lemma_backoff_delay_bounds(*cfg, attempt as nat);
                        }
                        (
                            ClientState::Backoff { attempt },
                            ClientAction::Wait { delay_ms: d },
                        )
                    }
                },
                ClientEvent::ExtensionFault => (ClientState::Failed, ClientAction::Stop),
                _ => (*self, ClientAction::Idle),
            },
            ClientState::Connected => match ev {
                ClientEvent::TransportError => {
                    let d = backoff_delay(cfg, 0);
                    proof {
                        lemma_backoff_delay_bounds(*cfg, 0);
                    }
                    (ClientState::Backoff { attempt: 0 }, ClientAction::Wait { delay_ms: d })
                },
                ClientEvent::ExtensionFault => (ClientState::Failed, ClientAction::Stop),
                _ => (*self, ClientAction::Idle),
            },
            ClientState::Backoff { attempt } => match ev {
                ClientEvent::BackoffElapsed => {
                    let a = if attempt == u64::MAX {
                        attempt
                    } else {
                        attempt + 1
                    };
                    (ClientState::Connecting { attempt: a }, ClientAction::Connect)
                },
                ClientEvent::ExtensionFault => (ClientState::Failed, ClientAction::Stop),
                _ => (*self, ClientAction::Idle),
            },
            ClientState::Failed => (*self, ClientAction::Idle),
            ClientState::Closed => (*self, ClientAction::Idle),
        }
    }
}

/// One whole run of the client loop: the final state and the backoff
/// waits performed, in order.
pub struct ClientRun {
    pub state: ClientState,
    pub waits: Seq<int>,
}

/// The client loop over an event sequence, one event per iteration,
/// first event first, recording every wait the runtime is told to
/// perform.
pub open spec fn client_run(cfg: ClientConfig, s: ClientState, evs: Seq<ClientEvent>) -> ClientRun
    decreases evs.len(),
{
    if evs.len() == 0 {
        ClientRun { state: s, waits: Seq::empty() }
    } else {
        let rest = client_run(cfg, client_next(cfg, s, evs[0]), evs.drop_first());
        let w = match client_action(cfg, s, evs[0]) {
            ClientAction::Wait { delay_ms } => seq![delay_ms as int],
            _ => Seq::empty(),
        };
        ClientRun { state: rest.state, waits: w + rest.waits }
    }
}

/// The event sequence of an outage that fails `n` times and then
/// succeeds: each failure is followed by the elapse of its backoff wait,
/// and the last attempt connects.
pub open spec fn outage_events(n: nat) -> Seq<ClientEvent>
    decreases n,
{
    if n == 0 {
        seq![ClientEvent::ConnectOk]
    } else {
        seq![ClientEvent::ConnectFailed, ClientEvent::BackoffElapsed] + outage_events(
            (n - 1) as nat,
        )
    }
}

/// Whether the policy admits `n` further failures starting from
/// `attempt` failures already suffered.
pub open spec fn outage_allowed(cfg: ClientConfig, attempt: u64, n: nat) -> bool {
    match cfg.max_attempts {
        Some(bound) => attempt as int + n < bound as int,
        None => true,
    }
}

/// Law: against a transport that fails `n` times and then accepts, a
/// connecting client reaches Connected after exactly `n` backoff cycles,
/// and the waits follow the configured schedule, one schedule entry per
/// failure, in order.
pub proof fn lemma_client_reconnects(cfg: ClientConfig, attempt: u64, n: nat)
    requires
        attempt as int + n <= u64::MAX as int,
        outage_allowed(cfg, attempt, n),
    ensures
        client_run(cfg, ClientState::Connecting { attempt }, outage_events(n)).state
            is Connected,
        client_run(cfg, ClientState::Connecting { attempt }, outage_events(n)).waits
            == Seq::new(n, |k: int| backoff_delay_spec(cfg, (attempt + k) as nat)),
    decreases n,
{
    let s0 = ClientState::Connecting { attempt };
    let evs = outage_events(n);
    if n == 0 {
        assert(evs =~= seq![ClientEvent::ConnectOk]);
        let s1 = client_next(cfg, s0, evs[0]);
        assert(s1 is Connected);
        assert(evs.drop_first().len() == 0);
        assert(client_run(cfg, s1, evs.drop_first()).waits =~= Seq::<int>::empty());
        assert(client_run(cfg, s0, evs).state is Connected);
        assert(client_run(cfg, s0, evs).waits =~= Seq::new(
            n,
            |k: int| backoff_delay_spec(cfg, (attempt + k) as nat),
        ));
    } else {
        lemma_backoff_delay_bounds(cfg, attempt as nat);
        assert(evs[0] == ClientEvent::ConnectFailed);
        assert(!attempts_exhausted(cfg, attempt));
        let s1 = client_next(cfg, s0, evs[0]);
        assert(s1 == ClientState::Backoff { attempt });
        let evs1 = evs.drop_first();
        assert(evs1[0] == ClientEvent::BackoffElapsed);
        let s2 = client_next(cfg, s1, evs1[0]);
        assert(s2 == ClientState::Connecting { attempt: (attempt + 1) as u64 });
        let evs2 = evs1.drop_first();
        assert(evs2 =~= outage_events((n - 1) as nat));
        lemma_client_reconnects(cfg, (attempt + 1) as u64, (n - 1) as nat);
        let w0 = backoff_delay_spec(cfg, attempt as nat);
        assert(client_run(cfg, s1, evs1).waits == client_run(cfg, s2, evs2).waits);
        assert(client_run(cfg, s0, evs).waits =~= seq![w0] + client_run(cfg, s2, evs2).waits);
        assert(client_run(cfg, s0, evs).waits =~= Seq::new(
            n,
            |k: int| backoff_delay_spec(cfg, (attempt + k) as nat),
        ));
    }
}

} // verus!
