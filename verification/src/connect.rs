//! Handshake shaping: the decoded CONNECT offered to the acceptance
//! decision, and the CONNECT acknowledgement it builds.  The keep-alive
//! override updates the acknowledgement field and the live timer
//! together, in one operation, so the two can never disagree.

use vstd::prelude::*;

use crate::codec;
use crate::codec::ConnectAckReason;
use crate::sink::MqttSink;

verus! {

/// Connect message: the decoded CONNECT of a fresh connection, with the
/// negotiated bounds, awaiting the accept/reject decision.
pub struct Connect {
    connect: codec::Connect,
    sink: MqttSink,
    inflight: usize,
    max_topic_alias: u16,
    keep_alive_secs: u32,
}

impl Connect {
    /// The CONNECT message under decision.
    pub closed spec fn spec_packet(&self) -> codec::ConnectS {
        self.connect@
    }

    /// The topic-alias maximum that both outcomes will carry.
    pub closed spec fn spec_max_topic_alias(&self) -> u16 {
        self.max_topic_alias
    }

    /// The in-flight bound handed to the session.
    pub closed spec fn spec_in_flight(&self) -> usize {
        self.inflight
    }

    /// The live keep-alive timer's current interval, in seconds.
    pub closed spec fn spec_keep_alive(&self) -> u32 {
        self.keep_alive_secs
    }

    /// What the sink currently queues.
    pub closed spec fn spec_sink_queued(&self) -> Seq<codec::PacketS> {
        self.sink.queued()
    }

    /// Wraps a decoded CONNECT with the connection's sink and
    /// negotiated bounds.
    pub fn new(
        connect: codec::Connect,
        sink: MqttSink,
        max_topic_alias: u16,
        inflight: usize,
        keep_alive_secs: u32,
    ) -> (r: Connect)
        ensures
            r.spec_packet() == connect@,
            r.spec_max_topic_alias() == max_topic_alias,
            r.spec_in_flight() == inflight,
            r.spec_keep_alive() == keep_alive_secs,
            r.spec_sink_queued() == sink.queued(),
    {
        Connect { connect, sink, inflight, max_topic_alias, keep_alive_secs }
    }

    /// The CONNECT message, read-only.
    pub fn packet(&self) -> (r: &codec::Connect)
        ensures
            r@ == self.spec_packet(),
    {
        &self.connect
    }

    /// The CONNECT message, for handshake-time adjustment.
    pub fn packet_mut(&mut self) -> (r: &mut codec::Connect)
        ensures
            (*r)@ == old(self).spec_packet(),
            final(self).spec_packet() == (*final(r))@,
            final(self).spec_max_topic_alias() == old(self).spec_max_topic_alias(),
            final(self).spec_in_flight() == old(self).spec_in_flight(),
            final(self).spec_keep_alive() == old(self).spec_keep_alive(),
            final(self).spec_sink_queued() == old(self).spec_sink_queued(),
    {
        &mut self.connect
    }

    /// The connection's sink.
    pub fn sink(&self) -> (r: &MqttSink)
        ensures
            r.queued() == self.spec_sink_queued(),
    {
        &self.sink
    }

    /// Accepts the connect message: builds the success acknowledgement,
    /// carrying the negotiated topic-alias maximum, and installs the
    /// application's session state.
    pub fn ack<St>(self, st: St) -> (r: ConnectAck<St>)
        ensures
            r.spec_packet().reason_code == ConnectAckReason::Success,
            r.spec_packet().topic_alias_max == self.spec_max_topic_alias(),
            r.spec_packet().session_expiry_interval_secs is None,
            r.spec_packet().session_present == false,
            r.spec_session() is Some,
            r.spec_in_flight() == self.spec_in_flight(),
            r.spec_keep_alive() == self.spec_keep_alive(),
            r.spec_sink_queued() == self.spec_sink_queued(),
            r.timer_consistent(),
    {
        let packet = codec::ConnectAck {
            session_present: false,
            reason_code: ConnectAckReason::Success,
            topic_alias_max: self.max_topic_alias,
            session_expiry_interval_secs: Option::None,
        };
        ConnectAck {
            sink: self.sink,
            inflight: self.inflight,
            session: Option::Some(st),
            keep_alive_secs: self.keep_alive_secs,
            packet,
        }
    }

    /// Rejects the connect message: builds the failure acknowledgement
    /// with the given reason, still carrying the negotiated
    /// topic-alias maximum, and no session.
    pub fn failed<St>(self, reason: ConnectAckReason) -> (r: ConnectAck<St>)
        ensures
            r.spec_packet().reason_code == reason,
            r.spec_packet().topic_alias_max == self.spec_max_topic_alias(),
            r.spec_packet().session_expiry_interval_secs is None,
            r.spec_packet().session_present == false,
            r.spec_session() is None,
            r.spec_in_flight() == self.spec_in_flight(),
            r.spec_keep_alive() == self.spec_keep_alive(),
            r.spec_sink_queued() == self.spec_sink_queued(),
            r.timer_consistent(),
    {
        let packet = codec::ConnectAck {
            session_present: false,
            reason_code: reason,
            topic_alias_max: self.max_topic_alias,
            session_expiry_interval_secs: Option::None,
        };
        ConnectAck {
            sink: self.sink,
            inflight: self.inflight,
            session: Option::None,
            keep_alive_secs: self.keep_alive_secs,
            packet,
        }
    }
}

/// Ack connect message: the outcome the handshake writes back, holding
/// the acknowledgement packet, the session state when accepted, and the
/// live keep-alive timer setting.
pub struct ConnectAck<St> {
    session: Option<St>,
    inflight: usize,
    sink: MqttSink,
    packet: codec::ConnectAck,
    keep_alive_secs: u32,
}

impl<St> ConnectAck<St> {
    /// The acknowledgement packet as built so far.
    pub closed spec fn spec_packet(&self) -> codec::ConnectAckS {
        self.packet@
    }

    /// The application session state, present exactly on acceptance.
    pub closed spec fn spec_session(&self) -> Option<St> {
        self.session
    }

    /// The in-flight bound handed to the session.
    pub closed spec fn spec_in_flight(&self) -> usize {
        self.inflight
    }

    /// The live keep-alive timer's interval, in seconds.
    pub closed spec fn spec_keep_alive(&self) -> u32 {
        self.keep_alive_secs
    }

    /// What the sink currently queues.
    pub closed spec fn spec_sink_queued(&self) -> Seq<codec::PacketS> {
        self.sink.queued()
    }

    /// The consistency coupling: when the acknowledgement carries a
    /// keep-alive override, the live timer holds the very same value.
    pub open spec fn timer_consistent(&self) -> bool {
        match self.spec_packet().session_expiry_interval_secs {
            Option::Some(k) => self.spec_keep_alive() == k,
            Option::None => true,
        }
    }

    /// Sets the idle keep-alive for the connection, in seconds: one
    /// operation that writes the acknowledgement field and re-arms the
    /// live timer together, so the two never disagree.  Must be called
    /// before the acknowledgement is transmitted.
    pub fn keep_alive(self, timeout: u32) -> (r: ConnectAck<St>)
        ensures
            r.spec_packet().session_expiry_interval_secs == Option::Some(timeout),
            r.spec_keep_alive() == timeout,
            r.timer_consistent(),
            r.spec_packet().reason_code == self.spec_packet().reason_code,
            r.spec_packet().topic_alias_max == self.spec_packet().topic_alias_max,
            r.spec_packet().session_present == self.spec_packet().session_present,
            r.spec_session() == self.spec_session(),
            r.spec_in_flight() == self.spec_in_flight(),
            r.spec_sink_queued() == self.spec_sink_queued(),
    {
        let mut packet = self.packet;
        packet.session_expiry_interval_secs = Option::Some(timeout);
        ConnectAck {
            session: self.session,
            inflight: self.inflight,
            sink: self.sink,
            packet,
            keep_alive_secs: timeout,
        }
    }

    /// Allows modifications to the connect acknowledgement packet.
    pub fn with<F: FnOnce(codec::ConnectAck) -> codec::ConnectAck>(self, f: F) -> (r: ConnectAck<
        St,
    >)
        requires
            forall|p: codec::ConnectAck| p@ == self.spec_packet() ==> f.requires((p,)),
        ensures
            exists|p: codec::ConnectAck, q: codec::ConnectAck|
                p@ == self.spec_packet() && #[trigger] f.ensures((p,), q) && r.spec_packet() == q@,
            r.spec_session() == self.spec_session(),
            r.spec_in_flight() == self.spec_in_flight(),
            r.spec_keep_alive() == self.spec_keep_alive(),
            r.spec_sink_queued() == self.spec_sink_queued(),
    {
        let ghost before = self.packet;
        proof {
            assert(before@ == self.spec_packet());
            assert(f.requires((before,)));
        }
        let packet = f(self.packet);
        proof {
            assert(f.ensures((before,), packet));
        }
        ConnectAck {
            session: self.session,
            inflight: self.inflight,
            sink: self.sink,
            packet,
            keep_alive_secs: self.keep_alive_secs,
        }
    }

    /// The acknowledgement packet as built so far, read-only.
    pub fn packet(&self) -> (r: &codec::ConnectAck)
        ensures
            r@ == self.spec_packet(),
    {
        &self.packet
    }

    /// The live keep-alive timer's interval, in seconds.
    pub fn live_keep_alive(&self) -> (r: u32)
        ensures
            r == self.spec_keep_alive(),
    {
        self.keep_alive_secs
    }

    /// Takes the outcome apart: session state, sink, acknowledgement
    /// packet, in-flight bound, and the live keep-alive interval.
    pub fn into_parts(self) -> (r: (Option<St>, MqttSink, codec::ConnectAck, usize, u32))
        ensures
            r.0 == self.spec_session(),
            r.1.queued() == self.spec_sink_queued(),
            r.2@ == self.spec_packet(),
            r.3 == self.spec_in_flight(),
            r.4 == self.spec_keep_alive(),
    {
        (self.session, self.sink, self.packet, self.inflight, self.keep_alive_secs)
    }

    /// Sets the in-flight bound: the total number of concurrently
    /// outstanding outbound packets the session will allow.
    pub fn in_flight(self, in_flight: usize) -> (r: ConnectAck<St>)
        ensures
            r.spec_in_flight() == in_flight,
            r.spec_packet() == self.spec_packet(),
            r.spec_session() == self.spec_session(),
            r.spec_keep_alive() == self.spec_keep_alive(),
            r.spec_sink_queued() == self.spec_sink_queued(),
    {
        ConnectAck {
            session: self.session,
            inflight: in_flight,
            sink: self.sink,
            packet: self.packet,
            keep_alive_secs: self.keep_alive_secs,
        }
    }
}

} // verus!
