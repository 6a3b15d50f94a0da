use vstd::prelude::*;
use tokio::sync::mpsc::UnboundedSender;
use crate::scheduler::Tick;

verus! {

/// A tokio unbounded channel sender, declared so a sink can hold one.
#[verifier::external_type_specification]
#[verifier::external_body]
#[verifier::reject_recursive_types(T)]
pub struct ExUnboundedSender<T>(UnboundedSender<T>);

/// A milestone of a run, delivered to an observer.
#[derive(Clone)]
pub enum Event {
    TickExecuted { tick: Tick },
    RequestFinished { ok: bool, latency_ms: u32 },
    InFlight { value: i32 },
    RunFinished,
}

/// A best-effort observer channel: events are sent without blocking, and a
/// closed or absent receiver is silently ignored.
#[derive(Clone)]
#[verifier::reject_recursive_types(E)]
pub struct EventSink<E> {
    pub tx: Option<UnboundedSender<E>>,
}

impl<E> EventSink<E> {
    /// A sink that drops every event.
    pub fn noop() -> (r: Self)
        ensures
            r.tx.is_none(),
    {
        EventSink { tx: None }
    }

    /// A sink over a real channel.
    pub fn new(tx: UnboundedSender<E>) -> (r: Self)
        ensures
            r.tx.is_some(),
    {
        EventSink { tx: Some(tx) }
    }

    /// Relies on tokio's UnboundedSender::send: the send never blocks, and a
    /// send onto a closed channel only returns the event, which is dropped
    /// here.
    #[verifier::external_body]
    pub fn send(&self, ev: E) {
        if let Some(tx) = &self.tx {
            let _ = tx.send(ev);
        }
    }

    /// Whether events go anywhere.
    pub fn is_enabled(&self) -> (r: bool)
        ensures
            r == self.tx.is_some(),
    {
        self.tx.is_some()
    }
}

} // verus!
