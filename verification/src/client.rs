//! The client facade: the one object application code touches.
//!
//! It composes the connection state machine, the topic router, the event
//! dispatcher and the call correlator, and decides — from plain values
//! the surrounding program feeds it — what every inbound frame, deadline
//! and drop means. The surrounding program performs the I/O and acts on
//! the decisions.

use vstd::prelude::*;

use crate::conn::{ConnState, Connection, ReconnectPolicy};
use crate::correlate::{
    spec_alive, spec_deadline, spec_expired_ids, spec_ids, spec_resolve, Correlator, PendingCall,
    has_pending,
};
use crate::dispatch::{spec_schedule, Event, EventDispatcher};
use crate::errors::{ConnError, RouteError, SendError};
use crate::router::{contains_handle, spec_route, spec_unsubscribe, Delivery, TopicRouter};

verus! {

/// One outbound frame, ready for the transport: fire-and-forget unless a
/// correlation id ties it to a pending call.
pub struct OutboundMessage {
    pub topic: String,
    pub payload: String,
    pub correlation_id: Option<u64>,
}

/// What one inbound frame is owed: the subscriptions it matched, the
/// handlers scheduled for its tag in registration order, and whether its
/// correlation id resolved a pending call.
pub struct InboundDispatch {
    pub deliveries: Vec<Delivery>,
    pub scheduled: Vec<u64>,
    pub resolved: bool,
}

/// The composed client.
pub struct Client {
    pub conn: Connection,
    pub router: TopicRouter,
    pub dispatcher: EventDispatcher,
    pub correlator: Correlator,
}

impl Client {
    /// Well-formed: handles and correlation ids are unique and below
    /// their counters.
    pub open spec fn wf(self) -> bool {
        self.router.wf() && self.correlator.wf()
    }

    /// A fresh client under this reconnect policy: disconnected, with no
    /// subscriptions, no handlers and no pending calls.
    pub fn new(policy: ReconnectPolicy) -> (r: Client)
        ensures
            r.wf(),
            r.conn.state == ConnState::Disconnected,
            r.conn.retries == 0,
            r.conn.policy == policy,
            r.router.subs@.len() == 0,
            r.dispatcher.regs@.len() == 0,
            r.correlator.pending@.len() == 0,
    {
        Client {
            conn: Connection::new(policy),
            router: TopicRouter::new(),
            dispatcher: EventDispatcher::new(),
            correlator: Correlator::new(),
        }
    }

    /// Register interest in a topic pattern; sugar over the router. Only
    /// the subscription table changes.
    pub fn subscribe(&mut self, pattern: String, handler: u64) -> (h: u64)
        requires
            old(self).wf(),
            old(self).router.next_handle < u64::MAX,
        ensures
            final(self).wf(),
            h == old(self).router.next_handle,
            final(self).router.subs@ == old(self).router.subs@.push(
                crate::router::Subscription { handle: h, pattern: pattern, handler: handler },
            ),
            final(self).router.next_handle == h + 1,
            final(self).conn == old(self).conn,
            final(self).dispatcher.regs@ == old(self).dispatcher.regs@,
            final(self).correlator == old(self).correlator,
    {
        self.router.subscribe(pattern, handler)
    }

    /// Drop the registration a handle names; safe to repeat, the second
    /// call finds nothing and changes nothing.
    pub fn unsubscribe(&mut self, handle: u64) -> (was: bool)
        requires
            old(self).wf(),
        ensures
            final(self).wf(),
            was == contains_handle(old(self).router.subs@, handle),
            final(self).router.subs@ == spec_unsubscribe(old(self).router.subs@, handle),
            final(self).router.next_handle == old(self).router.next_handle,
            final(self).conn == old(self).conn,
            final(self).dispatcher.regs@ == old(self).dispatcher.regs@,
            final(self).correlator == old(self).correlator,
    {
        self.router.unsubscribe(handle)
    }

    /// Append a handler for an event tag; sugar over the dispatcher.
    pub fn on(&mut self, tag: String, handler: u64)
        requires
            old(self).wf(),
        ensures
            final(self).wf(),
            final(self).dispatcher.regs@ == old(self).dispatcher.regs@.push(
                crate::dispatch::Registration { tag: tag, handler: handler },
            ),
            final(self).conn == old(self).conn,
            final(self).router.subs@ == old(self).router.subs@,
            final(self).router.next_handle == old(self).router.next_handle,
            final(self).correlator == old(self).correlator,
    {
        self.dispatcher.on(tag, handler);
    }

    /// A fire-and-forget publish: admitted exactly when the link is up
    /// and the payload fits, and then carrying no correlation id.
    pub fn send(&self, topic: String, payload: String) -> (r: Result<OutboundMessage, SendError>)
        ensures
            r is Ok <==> self.conn.state == ConnState::Connected
                && payload@.len() <= self.conn.policy.max_payload,
            r is Ok ==> r->Ok_0.topic@ == topic@ && r->Ok_0.payload@ == payload@
                && r->Ok_0.correlation_id is None,
            r is Err ==> r->Err_0 == self.conn.send_refusal(payload@.len() as int),
    {
        let len = payload.unicode_len();
        match self.conn.send_check(len) {
            Ok(()) => Ok(OutboundMessage { topic, payload, correlation_id: None }),
            Err(e) => Err(e),
        }
    }

    /// Open a synchronous-looking call: admitted exactly when a
    /// fire-and-forget send would be; then a fresh correlation id is
    /// pending with deadline `now + timeout_ms` and tags the outbound
    /// frame. Refused, nothing changes.
    pub fn call_open(
        &mut self,
        topic: String,
        payload: String,
        now: u64,
        timeout_ms: u64,
    ) -> (r: Result<(u64, OutboundMessage), SendError>)
        requires
            old(self).wf(),
            old(self).correlator.next_id < u64::MAX,
        ensures
            final(self).wf(),
            r is Ok <==> old(self).conn.state == ConnState::Connected
                && payload@.len() <= old(self).conn.policy.max_payload,
            r is Ok ==> ({
                let (id, msg) = r->Ok_0;
                &&& id == old(self).correlator.next_id
                &&& !has_pending(old(self).correlator.pending@, id)
                &&& final(self).correlator.pending@ == old(self).correlator.pending@.push(
                    PendingCall { id: id, deadline: spec_deadline(now, timeout_ms) },
                )
                &&& final(self).correlator.next_id == id + 1
                &&& msg.topic@ == topic@
                &&& msg.payload@ == payload@
                &&& msg.correlation_id == Some(id)
            }),
            r is Err ==> *final(self) == *old(self)
                && r->Err_0 == old(self).conn.send_refusal(payload@.len() as int),
            final(self).conn == old(self).conn,
            final(self).router.subs@ == old(self).router.subs@,
            final(self).router.next_handle == old(self).router.next_handle,
            final(self).dispatcher.regs@ == old(self).dispatcher.regs@,
    {
        let len = payload.unicode_len();
        match self.conn.send_check(len) {
            Ok(()) => {
                let id = self.correlator.begin_call(now, timeout_ms);
                Ok((id, OutboundMessage { topic, payload, correlation_id: Some(id) }))
            },
            Err(e) => Err(e),
        }
    }

    /// Decide what one inbound frame is owed. An event without a tag is
    /// malformed: it is dropped with an error and nothing changes. Any
    /// other frame yields its matched deliveries, the handlers scheduled
    /// for its tag in registration order, and — when its correlation id
    /// names a pending call — the resolution of that call, which normal
    /// tag handlers still observe. A reply for an id no longer pending
    /// resolves nothing.
    pub fn handle_inbound(&mut self, topic: &str, ev: &Event) -> (r: Result<
        InboundDispatch,
        RouteError,
    >)
        requires
            old(self).wf(),
        ensures
            final(self).wf(),
            r is Err <==> ev.tag@.len() == 0,
            r is Err ==> *final(self) == *old(self) && r->Err_0 == RouteError::EmptyTag,
            r is Ok ==> ({
                let d = r->Ok_0;
                &&& d.deliveries@ == spec_route(old(self).router.subs@, topic@)
                &&& d.scheduled@ == spec_schedule(old(self).dispatcher.regs@, ev.tag@)
                &&& d.resolved == (ev.correlation_id is Some
                    && has_pending(old(self).correlator.pending@, ev.correlation_id->0))
                &&& final(self).correlator.pending@ == (if ev.correlation_id is Some {
                    spec_resolve(old(self).correlator.pending@, ev.correlation_id->0)
                } else {
                    old(self).correlator.pending@
                })
            }),
            final(self).conn == old(self).conn,
            final(self).router.subs@ == old(self).router.subs@,
            final(self).router.next_handle == old(self).router.next_handle,
            final(self).dispatcher.regs@ == old(self).dispatcher.regs@,
            final(self).correlator.next_id == old(self).correlator.next_id,
    {
        if ev.tag.as_str().is_empty() {
            return Err(RouteError::EmptyTag);
        }
        let deliveries = self.router.route(topic);
        let scheduled = self.dispatcher.schedule(ev.tag.as_str());
        let resolved = match ev.correlation_id {
            Some(id) => self.correlator.resolve_reply(id),
            None => false,
        };
        Ok(InboundDispatch { deliveries, scheduled, resolved })
    }

    /// Resolve by timeout every call whose deadline has elapsed at `now`;
    /// their ids come back in creation order and are pending no more.
    pub fn poll_timeouts(&mut self, now: u64) -> (r: Vec<u64>)
        requires
            old(self).wf(),
        ensures
            final(self).wf(),
            r@ == spec_expired_ids(old(self).correlator.pending@, now),
            final(self).correlator.pending@ == spec_alive(old(self).correlator.pending@, now),
            final(self).correlator.next_id == old(self).correlator.next_id,
            final(self).conn == old(self).conn,
            final(self).router.subs@ == old(self).router.subs@,
            final(self).router.next_handle == old(self).router.next_handle,
            final(self).dispatcher.regs@ == old(self).dispatcher.regs@,
    {
        self.correlator.take_expired(now)
    }

    /// The transport dropped: an established link turns to reconnecting,
    /// and every pending call resolves with the loss — their ids come
    /// back so each caller can be told exactly once. A connect made
    /// afterwards starts with no pending calls, so no late reply can
    /// resurrect one.
    pub fn transport_dropped(&mut self, err: ConnError) -> (r: Vec<u64>)
        requires
            old(self).wf(),
        ensures
            final(self).wf(),
            r@ == spec_ids(old(self).correlator.pending@),
            final(self).correlator.pending@ == Seq::<PendingCall>::empty(),
            final(self).correlator.next_id == old(self).correlator.next_id,
            old(self).conn.state == ConnState::Connected ==> final(self).conn == (Connection {
                state: ConnState::Reconnecting,
                retries: 0,
                last_error: Some(err),
                ..old(self).conn
            }),
            old(self).conn.state != ConnState::Connected ==> final(self).conn == old(self).conn,
            final(self).router.subs@ == old(self).router.subs@,
            final(self).router.next_handle == old(self).router.next_handle,
            final(self).dispatcher.regs@ == old(self).dispatcher.regs@,
    {
        self.conn.transport_error(err);
        self.correlator.connection_lost()
    }

    /// Graceful teardown: every pending call resolves with the loss and
    /// every subscription is dropped; the connection closes for good.
    /// Handler registrations stay, as they belong to the client, not to
    /// the broker.
    pub fn disconnect(&mut self) -> (r: Vec<u64>)
        requires
            old(self).wf(),
        ensures
            final(self).wf(),
            r@ == spec_ids(old(self).correlator.pending@),
            final(self).correlator.pending@ == Seq::<PendingCall>::empty(),
            final(self).conn.state == ConnState::Closed,
            final(self).router.subs@ == Seq::<crate::router::Subscription>::empty(),
            final(self).dispatcher.regs@ == old(self).dispatcher.regs@,
    {
        self.conn.close();
        self.router.subs.clear();
        self.correlator.connection_lost()
    }
}

} // verus!
