use vstd::prelude::*;
use crate::store::RawPacket;

verus! {

/// Why a packet processor could not interpret a packet.
#[derive(Debug, PartialEq, Eq)]
pub struct DecodeError {
    pub message: String,
}

/// Turns raw packets into derived records. Implementations must depend only on
/// the packet and on the derived state they own, so that replaying the same
/// packets after a reset of that state reproduces the same records.
pub trait PacketProcessor {
    fn process(&mut self, packet: &RawPacket) -> Result<(), DecodeError>;
}

/// One call of a processor: the packet handed over (id and payload) and
/// whether the processor accepted it.
pub type ProcessCall = ((u64, Seq<u8>), bool);

/// A processor together with the record of every call made through it.
pub struct LoggedProcessor<P> {
    pub inner: P,
    calls: Ghost<Seq<ProcessCall>>,
}

impl<P: PacketProcessor> LoggedProcessor<P> {
    /// The calls made so far, oldest first.
    pub closed spec fn log(&self) -> Seq<ProcessCall> {
        self.calls@
    }

    pub fn new(inner: P) -> (r: LoggedProcessor<P>)
        ensures
            r.log() == Seq::<ProcessCall>::empty(),
    {
        LoggedProcessor { inner, calls: Ghost(Seq::empty()) }
    }

    /// Hands `packet` to the processor and records the call and its answer.
    pub fn process(&mut self, packet: &RawPacket) -> (r: Result<(), DecodeError>)
        ensures
            final(self).log() == old(self).log().push((packet@, r is Ok)),
    {
        let r = self.inner.process(packet);
        proof {
            self.calls = Ghost(self.calls@.push((packet@, r is Ok)));
        }
        r
    }
}

} // verus!
