//! The session dispatcher's decision core: the post-handshake state of
//! one live connection — in-flight table, topic-alias registry and
//! keep-alive deadline — and the pure transition that classifies each
//! inbound packet into the action the connection loop must perform.
//! The loop itself (transport reads and writes, timer arming, handler
//! invocation) lives outside; it hands decoded packets and the current
//! time in, and carries the returned actions out.

use vstd::prelude::*;

use crate::alias::TopicAliasRegistry;
use crate::codec::Packet;
use crate::codec::PacketS;
use crate::codec::Publish;
use crate::error::ProtocolError;
use crate::inflight::InFlightTable;

verus! {

/// What the connection loop must do with one inbound packet.
pub enum SessionAction {
    /// Write this packet to the transport.
    Reply(Packet),
    /// Hand the packet to the application handler; once the handler is
    /// done, write the reply, if any.
    Deliver { packet: Packet, reply: Option<Packet> },
    /// The acknowledgement resolved the pending send with this
    /// identifier: unblock whoever awaits it.
    CompleteSend(u16),
    /// The peer ended the session cleanly; tear down without error.
    PeerDisconnected,
    /// Nothing to do.
    Idle,
}

/// The dispatcher-owned state of one live connection.
pub struct SessionState {
    inflight: InFlightTable,
    aliases: TopicAliasRegistry,
    keep_alive_secs: u32,
    last_activity: u64,
    alive: bool,
}

/// Neither table changed between two states.
pub open spec fn tables_unchanged(pre: SessionState, post: SessionState) -> bool {
    &&& forall|id: u16| post.table().has_pending(id) <==> pre.table().has_pending(id)
    &&& post.table().pending_count() == pre.table().pending_count()
    &&& forall|id: u16|
        pre.table().has_pending(id) ==> post.table().context_of(id) == pre.table().context_of(id)
    &&& forall|id: u16| post.table().has_reserved(id) <==> pre.table().has_reserved(id)
    &&& aliases_unchanged(pre, post)
}

/// The alias registry did not change between two states.
pub open spec fn aliases_unchanged(pre: SessionState, post: SessionState) -> bool {
    &&& forall|a: u16| post.registry().has_alias(a) <==> pre.registry().has_alias(a)
    &&& forall|a: u16|
        pre.registry().has_alias(a) ==> post.registry().topic_of(a) == pre.registry().topic_of(a)
}

/// The outcome the dispatcher owes for an acknowledgement carrying
/// identifier `id` and recorded-context expectation `ctx`: identifier
/// zero is rejected before any lookup, a matching pending send resolves
/// and frees the identifier, anything else is a mismatch.
pub open spec fn ack_outcome(
    pre: SessionState,
    post: SessionState,
    r: Result<SessionAction, ProtocolError>,
    id: u16,
    ctx: u8,
) -> bool {
    if id == 0 {
        r matches Result::Err(e) && e is PacketIdRequired && tables_unchanged(pre, post)
    } else if pre.table().has_pending(id) && pre.table().context_of(id) == ctx {
        &&& r matches Result::Ok(a) && a == SessionAction::CompleteSend(id)
        &&& !post.table().has_pending(id)
        &&& post.table().pending_count() == pre.table().pending_count() - 1
        &&& forall|x: u16| x != id ==> (post.table().has_pending(x) <==> pre.table().has_pending(x))
        &&& forall|x: u16|
            x != id && pre.table().has_pending(x) ==> post.table().context_of(x)
                == pre.table().context_of(x)
        &&& forall|x: u16| post.table().has_reserved(x) <==> pre.table().has_reserved(x)
        &&& aliases_unchanged(pre, post)
    } else {
        r matches Result::Err(e) && e is PacketIdMismatch && tables_unchanged(pre, post)
    }
}

impl SessionState {
    /// The in-flight table, as a mathematical value.
    pub closed spec fn table(&self) -> InFlightTable {
        self.inflight
    }

    /// The topic-alias registry, as a mathematical value.
    pub closed spec fn registry(&self) -> TopicAliasRegistry {
        self.aliases
    }

    /// The negotiated keep-alive interval, in seconds.
    pub closed spec fn spec_keep_alive(&self) -> u32 {
        self.keep_alive_secs
    }

    /// When traffic was last seen, in seconds.
    pub closed spec fn spec_last_activity(&self) -> u64 {
        self.last_activity
    }

    /// The moment the keep-alive timer fires if no traffic arrives:
    /// traffic in either direction pushes it forward, never backward.
    pub open spec fn spec_deadline(&self) -> int {
        self.spec_last_activity() + self.spec_keep_alive()
    }

    /// Whether the session is still live.
    pub closed spec fn is_alive(&self) -> bool {
        self.alive
    }

    /// The session's internal invariant.
    pub open spec fn wf(&self) -> bool {
        &&& self.table().wf()
        &&& self.registry().wf()
    }

    /// A fresh post-handshake session with nothing in flight, no
    /// aliases, and the keep-alive deadline armed from `now`.
    pub fn new(keep_alive_secs: u32, max_inflight: u16, max_topic_alias: u16, now: u64) -> (r:
        SessionState)
        ensures
            r.wf(),
            r.is_alive(),
            r.spec_keep_alive() == keep_alive_secs,
            r.spec_last_activity() == now,
            r.table().capacity() == max_inflight,
            r.table().pending_count() == 0,
            forall|id: u16| !r.table().has_pending(id),
            forall|id: u16| !r.table().has_reserved(id),
            forall|a: u16| !r.registry().has_alias(a),
            r.registry().max_alias() == max_topic_alias,
    {
        SessionState {
            inflight: InFlightTable::new(max_inflight),
            aliases: TopicAliasRegistry::new(max_topic_alias),
            keep_alive_secs,
            last_activity: now,
            alive: true,
        }
    }

    /// Allocates an identifier for an outbound send that will await the
    /// acknowledgement kind `ack_context`, or reports backpressure once
    /// the in-flight maximum is reached; backpressure keeps the session
    /// alive.
    pub fn allocate(&mut self, ack_context: u8) -> (r: Result<u16, ProtocolError>)
        requires
            old(self).wf(),
        ensures
            final(self).wf(),
            final(self).is_alive() == old(self).is_alive(),
            final(self).spec_keep_alive() == old(self).spec_keep_alive(),
            final(self).spec_last_activity() == old(self).spec_last_activity(),
            final(self).registry() == old(self).registry(),
            match r {
                Result::Ok(id) => {
                    &&& id != 0
                    &&& !old(self).table().has_pending(id)
                    &&& final(self).table().has_pending(id)
                    &&& final(self).table().context_of(id) == ack_context
                    &&& old(self).table().pending_count() < old(self).table().capacity()
                    &&& final(self).table().pending_count() == old(self).table().pending_count()
                        + 1
                    &&& forall|x: u16|
                        x != id ==> (final(self).table().has_pending(x) <==> old(
                            self,
                        ).table().has_pending(x))
                },
                Result::Err(e) => {
                    &&& e is PublishReadyError
                    &&& old(self).table().pending_count() == old(self).table().capacity()
                    &&& final(self).table().pending_count() == old(self).table().pending_count()
                    &&& forall|x: u16|
                        final(self).table().has_pending(x) <==> old(self).table().has_pending(x)
                },
            },
    {
        self.inflight.allocate(ack_context)
    }

    /// Releases an outbound identifier without an acknowledgement.
    /// Always succeeds.
    pub fn release(&mut self, id: u16)
        requires
            old(self).wf(),
        ensures
            final(self).wf(),
            final(self).is_alive() == old(self).is_alive(),
            final(self).spec_keep_alive() == old(self).spec_keep_alive(),
            final(self).spec_last_activity() == old(self).spec_last_activity(),
            final(self).registry() == old(self).registry(),
            !final(self).table().has_pending(id),
            forall|x: u16|
                x != id ==> (final(self).table().has_pending(x) <==> old(self).table().has_pending(
                    x,
                )),
    {
        self.inflight.release(id)
    }

    /// Marks outbound traffic at `now`: any traffic resets the
    /// keep-alive deadline, and the reset is monotonic.
    pub fn note_traffic(&mut self, now: u64)
        requires
            old(self).wf(),
            now >= old(self).spec_last_activity(),
        ensures
            final(self).wf(),
            final(self).spec_last_activity() == now,
            final(self).spec_deadline() >= old(self).spec_deadline(),
            final(self).spec_keep_alive() == old(self).spec_keep_alive(),
            final(self).is_alive() == old(self).is_alive(),
            final(self).table() == old(self).table(),
            final(self).registry() == old(self).registry(),
    {
        self.last_activity = now;
    }

    /// Whether the keep-alive timer has fired: no traffic in either
    /// direction for longer than the negotiated interval is the
    /// terminal keep-alive-timeout error; any earlier moment is fine.
    pub fn poll_keep_alive(&self, now: u64) -> (r: Result<(), ProtocolError>)
        requires
            now >= self.spec_last_activity(),
        ensures
            match r {
                Result::Ok(()) => now <= self.spec_deadline(),
                Result::Err(e) => e is KeepAliveTimeout && now > self.spec_deadline(),
            },
    {
        if now - self.last_activity > self.keep_alive_secs as u64 {
            Result::Err(ProtocolError::KeepAliveTimeout)
        } else {
            Result::Ok(())
        }
    }

    /// Tears the session down: marks it dead and returns every
    /// identifier that still awaited an acknowledgement, so that the
    /// loop can fail each such waiter with a disconnected-style error
    /// and nobody awaits forever.
    pub fn terminate(&mut self) -> (r: Vec<u16>)
        requires
            old(self).wf(),
        ensures
            final(self).wf(),
            !final(self).is_alive(),
            r@ == old(self).table().outbound_ids(),
            forall|id: u16|
                old(self).table().has_pending(id) <==> r@.contains(id),
            final(self).table().pending_count() == 0,
            forall|id: u16| !final(self).table().has_pending(id),
            forall|id: u16| !final(self).table().has_reserved(id),
    {
        self.alive = false;
        self.inflight.drain_pending()
    }

    /// Whether the session is still live, computed.
    pub fn alive(&self) -> (r: bool)
        ensures
            r == self.is_alive(),
    {
        self.alive
    }

    /// How many sends await an acknowledgement, computed.
    pub fn pending_len(&self) -> (r: usize)
        ensures
            r == self.table().pending_count(),
    {
        self.inflight.pending_len()
    }

    /// Whether `id` awaits an acknowledgement, computed.
    pub fn is_pending(&self, id: u16) -> (r: bool)
        ensures
            r == self.table().has_pending(id),
    {
        self.inflight.is_pending(id)
    }

    /// Classifies one decoded inbound packet and performs the table and
    /// registry updates it requires.  Any packet is traffic: the
    /// keep-alive deadline is pushed to `now` plus the interval.  An
    /// error return is a protocol violation, terminal for the session;
    /// the caller tears down.
    #[verifier::rlimit(100)]
    pub fn handle_packet(&mut self, packet: &Packet, now: u64) -> (r: Result<
        SessionAction,
        ProtocolError,
    >)
        requires
            old(self).wf(),
            old(self).is_alive(),
            now >= old(self).spec_last_activity(),
        ensures
            final(self).wf(),
            final(self).spec_keep_alive() == old(self).spec_keep_alive(),
            final(self).spec_last_activity() == now,
            final(self).spec_deadline() >= old(self).spec_deadline(),
            final(self).is_alive() == (match packet@ {
                PacketS::Disconnect => false,
                _ => true,
            }),
            match packet@ {
                PacketS::PingRequest => r matches Result::Ok(a) && (a matches SessionAction::Reply(
                    p,
                ) && p@ == PacketS::PingResponse) && tables_unchanged(*old(self), *final(self)),
                PacketS::PingResponse => r matches Result::Ok(a) && a is Idle && tables_unchanged(
                    *old(self),
                    *final(self),
                ),
                PacketS::Disconnect => r matches Result::Ok(a) && a is PeerDisconnected
                    && tables_unchanged(*old(self), *final(self)),
                PacketS::Connect(_) => r matches Result::Err(e) && e matches
                    ProtocolError::Unexpected(t, _) && t == 1 && tables_unchanged(
                    *old(self),
                    *final(self),
                ),
                PacketS::ConnectAck(_) => r matches Result::Err(e) && e matches
                    ProtocolError::Unexpected(t, _) && t == 2 && tables_unchanged(
                    *old(self),
                    *final(self),
                ),
                PacketS::Auth { .. } => r matches Result::Ok(a) && (a matches
                    SessionAction::Deliver { packet: p, reply } && p@ == packet@
                    && reply is None) && tables_unchanged(*old(self), *final(self)),
                PacketS::PublishAck { packet_id } => ack_outcome(
                    *old(self),
                    *final(self),
                    r,
                    packet_id,
                    4,
                ),
                PacketS::PublishComplete { packet_id } => ack_outcome(
                    *old(self),
                    *final(self),
                    r,
                    packet_id,
                    7,
                ),
                PacketS::SubscribeAck { packet_id, .. } => ack_outcome(
                    *old(self),
                    *final(self),
                    r,
                    packet_id,
                    9,
                ),
                PacketS::UnsubscribeAck { packet_id } => ack_outcome(
                    *old(self),
                    *final(self),
                    r,
                    packet_id,
                    11,
                ),
                PacketS::PublishReceived { packet_id } => {
                    if packet_id == 0 {
                        r matches Result::Err(e) && e is PacketIdRequired && tables_unchanged(
                            *old(self),
                            *final(self),
                        )
                    } else if old(self).table().has_pending(packet_id) && old(
                        self,
                    ).table().context_of(packet_id) == 5 {
                        &&& r matches Result::Ok(a) && (a matches SessionAction::Reply(p) && p@
                            == PacketS::PublishRelease { packet_id })
                        &&& final(self).table().has_pending(packet_id)
                        &&& final(self).table().context_of(packet_id) == 7
                        &&& final(self).table().pending_count() == old(
                            self,
                        ).table().pending_count()
                        &&& forall|x: u16|
                            x != packet_id ==> (final(self).table().has_pending(x) <==> old(
                                self,
                            ).table().has_pending(x))
                        &&& aliases_unchanged(*old(self), *final(self))
                    } else {
                        r matches Result::Err(e) && e is PacketIdMismatch && tables_unchanged(
                            *old(self),
                            *final(self),
                        )
                    }
                },
                PacketS::PublishRelease { packet_id } => {
                    if packet_id == 0 {
                        r matches Result::Err(e) && e is PacketIdRequired && tables_unchanged(
                            *old(self),
                            *final(self),
                        )
                    } else {
                        &&& r matches Result::Ok(a) && (a matches SessionAction::Reply(p) && p@
                            == PacketS::PublishComplete { packet_id })
                        &&& !final(self).table().has_reserved(packet_id)
                        &&& forall|x: u16|
                            x != packet_id ==> (final(self).table().has_reserved(x) <==> old(
                                self,
                            ).table().has_reserved(x))
                        &&& forall|x: u16|
                            final(self).table().has_pending(x) <==> old(self).table().has_pending(
                                x,
                            )
                        &&& aliases_unchanged(*old(self), *final(self))
                    }
                },
                PacketS::Subscribe { packet_id, .. } => {
                    if packet_id == 0 {
                        r matches Result::Err(e) && e is PacketIdRequired && tables_unchanged(
                            *old(self),
                            *final(self),
                        )
                    } else {
                        r matches Result::Ok(a) && (a matches SessionAction::Deliver {
                            packet: p,
                            reply,
                        } && p@ == packet@ && reply is None) && tables_unchanged(
                            *old(self),
                            *final(self),
                        )
                    }
                },
                PacketS::Unsubscribe { packet_id, .. } => {
                    if packet_id == 0 {
                        r matches Result::Err(e) && e is PacketIdRequired && tables_unchanged(
                            *old(self),
                            *final(self),
                        )
                    } else {
                        r matches Result::Ok(a) && (a matches SessionAction::Deliver {
                            packet: p,
                            reply,
                        } && p@ == packet@ && reply is None) && tables_unchanged(
                            *old(self),
                            *final(self),
                        )
                    }
                },
                PacketS::Publish(p) => publish_outcome(*old(self), *final(self), r, p),
            },
    {
        self.last_activity = now;
        match packet {
            Packet::PingRequest => Result::Ok(SessionAction::Reply(Packet::PingResponse)),
            Packet::PingResponse => Result::Ok(SessionAction::Idle),
            Packet::Disconnect => {
                self.alive = false;
                Result::Ok(SessionAction::PeerDisconnected)
            },
            Packet::Connect(_) => Result::Err(ProtocolError::Unexpected(1, "CONNECT")),
            Packet::ConnectAck(_) => Result::Err(ProtocolError::Unexpected(2, "CONNACK")),
            Packet::Auth { reason_code } => Result::Ok(
                SessionAction::Deliver {
                    packet: Packet::Auth { reason_code: *reason_code },
                    reply: Option::None,
                },
            ),
            Packet::PublishAck { packet_id } => {
                match self.inflight.complete(*packet_id, 4) {
                    Result::Ok(()) => Result::Ok(SessionAction::CompleteSend(*packet_id)),
                    Result::Err(e) => Result::Err(e),
                }
            },
            Packet::PublishComplete { packet_id } => {
                match self.inflight.complete(*packet_id, 7) {
                    Result::Ok(()) => Result::Ok(SessionAction::CompleteSend(*packet_id)),
                    Result::Err(e) => Result::Err(e),
                }
            },
            Packet::SubscribeAck { packet_id, .. } => {
                match self.inflight.complete(*packet_id, 9) {
                    Result::Ok(()) => Result::Ok(SessionAction::CompleteSend(*packet_id)),
                    Result::Err(e) => Result::Err(e),
                }
            },
            Packet::UnsubscribeAck { packet_id } => {
                match self.inflight.complete(*packet_id, 11) {
                    Result::Ok(()) => Result::Ok(SessionAction::CompleteSend(*packet_id)),
                    Result::Err(e) => Result::Err(e),
                }
            },
            Packet::PublishReceived { packet_id } => {
                match self.inflight.reexpect(*packet_id, 5, 7) {
                    Result::Ok(()) => Result::Ok(
                        SessionAction::Reply(Packet::PublishRelease { packet_id: *packet_id }),
                    ),
                    Result::Err(e) => Result::Err(e),
                }
            },
            Packet::PublishRelease { packet_id } => {
                if *packet_id == 0 {
                    return Result::Err(ProtocolError::PacketIdRequired);
                }
                self.inflight.release_inbound(*packet_id);
                Result::Ok(
                    SessionAction::Reply(Packet::PublishComplete { packet_id: *packet_id }),
                )
            },
            Packet::Subscribe { packet_id, topic_filter, qos } => {
                if *packet_id == 0 {
                    return Result::Err(ProtocolError::PacketIdRequired);
                }
                Result::Ok(
                    SessionAction::Deliver {
                        packet: Packet::Subscribe {
                            packet_id: *packet_id,
                            topic_filter: topic_filter.clone(),
                            qos: *qos,
                        },
                        reply: Option::None,
                    },
                )
            },
            Packet::Unsubscribe { packet_id, topic_filter } => {
                if *packet_id == 0 {
                    return Result::Err(ProtocolError::PacketIdRequired);
                }
                Result::Ok(
                    SessionAction::Deliver {
                        packet: Packet::Unsubscribe {
                            packet_id: *packet_id,
                            topic_filter: topic_filter.clone(),
                        },
                        reply: Option::None,
                    },
                )
            },
            Packet::Publish(p) => self.handle_publish(p),
        }
    }

    /// Outbound alias substitution: a PUBLISH that requests an alias
    /// may only go to the wire if this side populated the registry for
    /// that alias on this connection.  A full packet registers (or
    /// refreshes) the alias; one with an empty topic relies on an
    /// earlier registration, and encoding fails — before any bytes are
    /// written — when there is none.
    pub fn prepare_outbound(&mut self, p: Publish) -> (r: Result<Publish, ProtocolError>)
        requires
            old(self).wf(),
        ensures
            final(self).wf(),
            final(self).is_alive() == old(self).is_alive(),
            final(self).spec_keep_alive() == old(self).spec_keep_alive(),
            final(self).spec_last_activity() == old(self).spec_last_activity(),
            final(self).table() == old(self).table(),
            match p.topic_alias {
                Option::None => r matches Result::Ok(q) && q@ == p@ && aliases_unchanged(
                    *old(self),
                    *final(self),
                ),
                Option::Some(al) => {
                    if p.topic@.len() > 0 {
                        if al == 0 || al > old(self).registry().max_alias() {
                            r matches Result::Err(e) && e is MaxTopicAlias && aliases_unchanged(
                                *old(self),
                                *final(self),
                            )
                        } else {
                            &&& r matches Result::Ok(q) && q@ == p@
                            &&& final(self).registry().has_alias(al)
                            &&& final(self).registry().topic_of(al) == p.topic@
                            &&& forall|x: u16|
                                x != al ==> (final(self).registry().has_alias(x) <==> old(
                                    self,
                                ).registry().has_alias(x))
                        }
                    } else {
                        if old(self).registry().has_alias(al) {
                            r matches Result::Ok(q) && q@ == p@ && aliases_unchanged(
                                *old(self),
                                *final(self),
                            )
                        } else {
                            r matches Result::Err(e) && e is UnknownTopicAlias
                                && aliases_unchanged(*old(self), *final(self))
                        }
                    }
                },
            },
    {
        match p.topic_alias {
            Option::None => Result::Ok(p),
            Option::Some(al) => {
                if !p.topic.as_str().is_empty() {
                    match self.aliases.register(al, p.topic.clone()) {
                        Result::Err(e) => Result::Err(e),
                        Result::Ok(()) => Result::Ok(p),
                    }
                } else {
                    match self.aliases.resolve(al) {
                        Result::Err(e) => Result::Err(e),
                        Result::Ok(_) => Result::Ok(p),
                    }
                }
            },
        }
    }

    /// The PUBLISH path of `handle_packet`: alias resolution or
    /// registration, identifier validation for the acknowledged
    /// qualities of service, and the immediate acknowledgement reply.
    fn handle_publish(&mut self, p: &Publish) -> (r: Result<SessionAction, ProtocolError>)
        requires
            old(self).wf(),
        ensures
            final(self).wf(),
            final(self).spec_keep_alive() == old(self).spec_keep_alive(),
            final(self).spec_last_activity() == old(self).spec_last_activity(),
            final(self).is_alive() == old(self).is_alive(),
            publish_outcome(*old(self), *final(self), r, p@),
    {
        if p.qos > 2 {
            return Result::Err(ProtocolError::Unexpected(3, "PUBLISH"));
        }
        let delivered: Publish = match p.topic_alias {
            Option::Some(al) => {
                if p.topic.as_str().is_empty() {
                    match self.aliases.resolve(al) {
                        Result::Err(e) => {
                            return Result::Err(e);
                        },
                        Result::Ok(topic) => Publish {
                            qos: p.qos,
                            topic,
                            topic_alias: Option::None,
                            packet_id: p.packet_id,
                            payload: clone_bytes(&p.payload),
                        },
                    }
                } else {
                    match self.aliases.register(al, p.topic.clone()) {
                        Result::Err(e) => {
                            return Result::Err(e);
                        },
                        Result::Ok(()) => Publish {
                            qos: p.qos,
                            topic: p.topic.clone(),
                            topic_alias: Option::None,
                            packet_id: p.packet_id,
                            payload: clone_bytes(&p.payload),
                        },
                    }
                }
            },
            Option::None => Publish {
                qos: p.qos,
                topic: p.topic.clone(),
                topic_alias: Option::None,
                packet_id: p.packet_id,
                payload: clone_bytes(&p.payload),
            },
        };
        if p.qos == 0 {
            return Result::Ok(
                SessionAction::Deliver {
                    packet: Packet::Publish(delivered),
                    reply: Option::None,
                },
            );
        }
        if p.packet_id == 0 {
            return Result::Err(ProtocolError::PacketIdRequired);
        }
        if p.qos == 1 {
            return Result::Ok(
                SessionAction::Deliver {
                    packet: Packet::Publish(delivered),
                    reply: Option::Some(Packet::PublishAck { packet_id: p.packet_id }),
                },
            );
        }
        match self.inflight.reserve(p.packet_id) {
            Result::Err(e) => Result::Err(e),
            Result::Ok(()) => Result::Ok(
                SessionAction::Deliver {
                    packet: Packet::Publish(delivered),
                    reply: Option::Some(Packet::PublishReceived { packet_id: p.packet_id }),
                },
            ),
        }
    }
}

/// The outcome the dispatcher owes for an inbound PUBLISH: a carried
/// alias is registered (topic present) or resolved (topic empty); the
/// acknowledged qualities of service validate the identifier and
/// produce the immediate acknowledgement; the packet handed to the
/// handler carries the effective topic and no alias.
pub open spec fn publish_outcome(
    pre: SessionState,
    post: SessionState,
    r: Result<SessionAction, ProtocolError>,
    p: crate::codec::PublishS,
) -> bool {
    if p.qos > 2 {
        r matches Result::Err(e) && e matches ProtocolError::Unexpected(t, _) && t == 3
            && tables_unchanged(pre, post)
    } else if p.topic_alias matches Option::Some(al) && p.topic.len() == 0
        && !pre.registry().has_alias(al) {
        r matches Result::Err(e) && e is UnknownTopicAlias && tables_unchanged(pre, post)
    } else if p.topic_alias matches Option::Some(al) && p.topic.len() > 0 && (al == 0 || al
        > pre.registry().max_alias()) {
        r matches Result::Err(e) && e is MaxTopicAlias && tables_unchanged(pre, post)
    } else {
        let effective_topic = match p.topic_alias {
            Option::Some(al) => if p.topic.len() == 0 {
                pre.registry().topic_of(al)
            } else {
                p.topic
            },
            Option::None => p.topic,
        };
        let registry_ok = match p.topic_alias {
            Option::Some(al) => if p.topic.len() > 0 {
                &&& post.registry().has_alias(al)
                &&& post.registry().topic_of(al) == p.topic
                &&& forall|x: u16|
                    x != al ==> (post.registry().has_alias(x) <==> pre.registry().has_alias(x))
            } else {
                aliases_unchanged(pre, post)
            },
            Option::None => aliases_unchanged(pre, post),
        };
        let delivered_ok = |a: SessionAction, reply_ok: spec_fn(Option<Packet>) -> bool|
            {
                a matches SessionAction::Deliver { packet: dp, reply } && (dp matches
                    Packet::Publish(d) && d@.topic == effective_topic && d@.qos == p.qos && d@.payload
                    == p.payload && d@.topic_alias is None && d@.packet_id == p.packet_id)
                    && reply_ok(reply)
            };
        if p.qos == 0 {
            &&& r matches Result::Ok(a) && delivered_ok(
                a,
                |reply: Option<Packet>| reply is None,
            )
            &&& registry_ok
            &&& forall|x: u16| post.table().has_pending(x) <==> pre.table().has_pending(x)
            &&& forall|x: u16| post.table().has_reserved(x) <==> pre.table().has_reserved(x)
        } else if p.packet_id == 0 {
            r matches Result::Err(e) && e is PacketIdRequired && {
                &&& registry_ok
                &&& forall|x: u16| post.table().has_pending(x) <==> pre.table().has_pending(x)
                &&& forall|x: u16| post.table().has_reserved(x) <==> pre.table().has_reserved(x)
            }
        } else if p.qos == 1 {
            &&& r matches Result::Ok(a) && delivered_ok(
                a,
                |reply: Option<Packet>|
                    reply matches Option::Some(rp) && rp@ == PacketS::PublishAck {
                        packet_id: p.packet_id,
                    },
            )
            &&& registry_ok
            &&& forall|x: u16| post.table().has_pending(x) <==> pre.table().has_pending(x)
            &&& forall|x: u16| post.table().has_reserved(x) <==> pre.table().has_reserved(x)
        } else if pre.table().has_reserved(p.packet_id) {
            r matches Result::Err(e) && e is DuplicatedPacketId && {
                &&& registry_ok
                &&& forall|x: u16| post.table().has_pending(x) <==> pre.table().has_pending(x)
                &&& forall|x: u16| post.table().has_reserved(x) <==> pre.table().has_reserved(x)
            }
        } else {
            &&& r matches Result::Ok(a) && delivered_ok(
                a,
                |reply: Option<Packet>|
                    reply matches Option::Some(rp) && rp@ == PacketS::PublishReceived {
                        packet_id: p.packet_id,
                    },
            )
            &&& registry_ok
            &&& post.table().has_reserved(p.packet_id)
            &&& forall|x: u16|
                x != p.packet_id ==> (post.table().has_reserved(x) <==> pre.table().has_reserved(
                    x,
                ))
            &&& forall|x: u16| post.table().has_pending(x) <==> pre.table().has_pending(x)
        }
    }
}

/// Byte-for-byte copy of a payload.
fn clone_bytes(v: &Vec<u8>) -> (r: Vec<u8>)
    ensures
        r@ == v@,
{
    let mut out: Vec<u8> = Vec::new();
    let mut i: usize = 0;
    while i < v.len()
        invariant
            i <= v@.len(),
            out@ == v@.take(i as int),
        decreases v@.len() - i,
    {
        out.push(v[i]);
        proof {
            assert(v@.take(i as int).push(v@[i as int]) =~= v@.take(i + 1));
        }
        i = i + 1;
    }
    proof {
        assert(v@.take(v@.len() as int) =~= v@);
    }
    out
}

} // verus!
