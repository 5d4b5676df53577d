//! A connection-management core for bidirectional, message-oriented
//! protocols: frame types, a connection registry with lowest-free-id
//! allocation, and the decision logic of the server, session and client
//! actors, stated as step functions from state and event to next state
//! and action. The embedding runtime owns the queues and transports and
//! performs the actions these functions decide.

mod client;
mod registry;
mod server;
mod session;
mod socket;

pub use client::attempts_exhausted;
pub use client::backoff_delay;
pub use client::backoff_delay_spec;
pub use client::client_action;
pub use client::client_next;
pub use client::client_run;
pub use client::lemma_backoff_delay_bounds;
pub use client::lemma_client_reconnects;
pub use client::next_attempt;
pub use client::outage_allowed;
pub use client::outage_events;
pub use client::ClientAction;
pub use client::ClientConfig;
pub use client::ClientEvent;
pub use client::ClientRun;
pub use client::ClientState;

pub use registry::contains_id;
pub use registry::is_lowest_free;
pub use registry::lemma_registry_after_finite;
pub use registry::lemma_registry_ids_unique;
pub use registry::lowest_free_of;
pub use registry::registry_after;
pub use registry::Registry;
pub use registry::RegistryOp;
pub use registry::SessionHandle;

pub use server::Server;

pub use session::frames_of_sends;
pub use session::is_closing;
pub use session::lemma_disconnect_reported_once;
pub use session::lemma_sends_fifo;
pub use session::non_pong;
pub use session::session_delivery;
pub use session::session_next;
pub use session::session_reports;
pub use session::session_run;
pub use session::session_writes;
pub use session::Delivery;
pub use session::Session;
pub use session::SessionEffect;
pub use session::SessionEvent;
pub use session::SessionRun;

pub use socket::close_code_value;
pub use socket::lemma_close_code_round_trip;
pub use socket::lemma_message_round_trip;
pub use socket::message_of;
pub use socket::raw_of;
pub use socket::CloseCode;
pub use socket::CloseFrame;
pub use socket::Message;
pub use socket::RawMessage;
