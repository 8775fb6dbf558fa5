//! The outbound sink: the ordered queue through which the session and
//! the application submit packets to be written to the transport.  It
//! decouples "decide to send" from "actually written" and preserves
//! submission order.

use vstd::prelude::*;

use crate::codec::Packet;
use crate::codec::PacketS;
use crate::error::ProtocolError;

verus! {

/// The submission endpoint of one connection's outbound queue.
pub struct MqttSink {
    queue: Vec<Packet>,
    closed: bool,
}

impl MqttSink {
    /// The packets submitted and not yet taken by the writer, in
    /// submission order.
    pub closed spec fn queued(&self) -> Seq<PacketS> {
        self.queue@.map_values(|p: Packet| p@)
    }

    /// Whether the sink has been closed; a closed sink accepts nothing.
    pub closed spec fn is_closed(&self) -> bool {
        self.closed
    }

    /// A fresh, open, empty sink.
    pub fn new() -> (r: MqttSink)
        ensures
            !r.is_closed(),
            r.queued() == Seq::<PacketS>::empty(),
    {
        let r = MqttSink { queue: Vec::new(), closed: false };
        proof {
            assert(r.queued() =~= Seq::<PacketS>::empty());
        }
        r
    }

    /// Submits a packet; submission order is preserved.  A sink whose
    /// session has ended reports the disconnected error instead.
    pub fn send(&mut self, packet: Packet) -> (r: Result<(), ProtocolError>)
        ensures
            final(self).is_closed() == old(self).is_closed(),
            match r {
                Result::Ok(()) => !old(self).is_closed() && final(self).queued() == old(
                    self,
                ).queued().push(packet@),
                Result::Err(e) => e is Disconnected && old(self).is_closed() && final(self).queued()
                    == old(self).queued(),
            },
    {
        if self.closed {
            return Result::Err(ProtocolError::Disconnected);
        }
        self.queue.push(packet);
        proof {
            assert(final(self).queued() =~= old(self).queued().push(packet@));
        }
        Result::Ok(())
    }

    /// Takes everything submitted so far, in submission order, for the
    /// single consumer that writes to the transport.
    pub fn drain(&mut self) -> (r: Vec<Packet>)
        ensures
            r@.map_values(|p: Packet| p@) == old(self).queued(),
            final(self).queued() == Seq::<PacketS>::empty(),
            final(self).is_closed() == old(self).is_closed(),
    {
        let mut taken: Vec<Packet> = Vec::new();
        core::mem::swap(&mut taken, &mut self.queue);
        proof {
            assert(final(self).queued() =~= Seq::<PacketS>::empty());
        }
        taken
    }

    /// Closes the sink: later submissions fail with the disconnected
    /// error.
    pub fn close(&mut self)
        ensures
            final(self).is_closed(),
            final(self).queued() == old(self).queued(),
    {
        self.closed = true;
    }
}

} // verus!
