//! The byte transport that a connection talks through.
use vstd::prelude::*;

verus! {

/// Why a transport could not write or read.
#[derive(Debug, Clone, PartialEq, Eq)]
pub enum TransportError {
    /// The stream has ended.
    EndOfStream,
    /// Nothing arrived in time.
    Timeout,
    /// Any other failure, in the transport's own words.
    Other(String),
}

/// The failure of a write, where it failed.
pub open spec fn failure_of(written: Result<(), TransportError>) -> Option<TransportError> {
    match written {
        Ok(_) => None,
        Err(e) => Some(e),
    }
}

/// What a read gave, with the bytes of a frame as a sequence.
pub open spec fn read_view(read: Result<Vec<u8>, TransportError>) -> Result<
    Seq<u8>,
    TransportError,
> {
    match read {
        Ok(frame) => Ok(frame@),
        Err(e) => Err(e),
    }
}

/// A transport that carries whole frames: what is written arrives as one
/// frame, and each read hands out one frame.
pub trait Transport: Sized {
    /// Whether this transport, asked to write `frame`, may fail with
    /// `failure`, or write where there is none, and be `after` then. A
    /// transport that says nothing of itself may do anything.
    open spec fn may_write(
        &self,
        frame: Seq<u8>,
        failure: Option<TransportError>,
        after: Self,
    ) -> bool {
        true
    }

    /// Whether this transport, asked to read, may give `result` and be
    /// `after` then. A transport that says nothing of itself may do
    /// anything.
    open spec fn may_read(&self, result: Result<Seq<u8>, TransportError>, after: Self) -> bool {
        true
    }

    /// Writes one frame.
    fn write(&mut self, frame: &[u8]) -> (written: Result<(), TransportError>)
        ensures
            old(self).may_write(frame@, failure_of(written), *final(self)),
    ;

    /// Reads one frame.
    fn read(&mut self) -> (read: Result<Vec<u8>, TransportError>)
        ensures
            old(self).may_read(read_view(read), *final(self)),
    ;
}

} // verus!
