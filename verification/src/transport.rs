//! The bus under the driver: the capability a driver needs, and a record of how
//! it was used.

use vstd::prelude::*;

verus! {

/// A bus that can write a sequence of bytes to the device at an address.
///
/// Nothing is assumed of an implementation: a write may fail at any time, with
/// whatever error the transport defines.
pub trait Transport {
    /// What a failed write reports.
    type Error;

    /// Writes `bytes` to the device at `address` as one transaction.
    fn write(&mut self, address: u8, bytes: &[u8]) -> Result<(), Self::Error>;
}

/// One write handed to a transport, and how it ended.
pub struct BusWrite<E> {
    pub address: u8,
    pub bytes: Seq<u8>,
    /// The error the transport answered with, if the write failed.
    pub failure: Option<E>,
}

/// The error in the answer of a transport, if there is one.
pub open spec fn failure_of<E>(answer: Result<(), E>) -> Option<E> {
    match answer {
        Ok(_) => None,
        Err(error) => Some(error),
    }
}

/// A transport in the hands of a driver, with the record of every write made
/// through it. The record only exists for the verifier.
pub struct Bus<T: Transport> {
    transport: T,
    record: Ghost<Seq<BusWrite<T::Error>>>,
}

impl<T: Transport> Bus<T> {
    /// The transport as it is now.
    pub closed spec fn transport(&self) -> T {
        self.transport
    }

    /// Every write made through this bus so far, oldest first.
    pub closed spec fn history(&self) -> Seq<BusWrite<T::Error>> {
        self.record@
    }

    /// Takes ownership of a transport. Nothing has been written yet.
    pub fn new(transport: T) -> (bus: Self)
        ensures
            bus.transport() == transport,
            bus.history() == Seq::<BusWrite<T::Error>>::empty(),
    {
        Bus { transport, record: Ghost(Seq::empty()) }
    }

    /// Hands one write to the transport and returns what the transport
    /// answered: the transport is called once, with this address and these
    /// bytes. The write is on record whether it succeeded or not.
    pub fn write(&mut self, address: u8, bytes: &[u8]) -> (r: Result<(), T::Error>)
        ensures
            exists|transport: &mut T|
                *transport == old(self).transport()
                    && *final(transport) == final(self).transport()
                    && call_ensures(T::write, (transport, address, bytes), r),
            final(self).history() == old(self).history().push(
                BusWrite { address, bytes: bytes@, failure: failure_of(r) },
            ),
    {
        let r = self.transport.write(address, bytes);
        proof {
            self.record@ = self.record@.push(BusWrite { address, bytes: bytes@, failure: failure_of(r) });
        }
        r
    }
}

} // verus!
