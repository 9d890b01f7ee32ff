//! A command that is given by its numbers and its payload.
use crate::cbor::decode::CodecError;
use crate::cbor::value::CborValue;
use crate::commands::McuMgrCommand;
use vstd::prelude::*;

verus! {

/// Whether a raw command reads or writes.
#[derive(Debug, Clone, Copy, PartialEq, Eq, Structural)]
pub enum RawCommandOp {
    Read,
    Write,
}

/// A command by its numbers, with any item as its payload. Its response is
/// the item that comes back.
#[derive(Debug, Clone, PartialEq, Eq)]
pub struct RawCommand {
    /// Whether the command reads or writes.
    pub op: RawCommandOp,
    /// The group of the command.
    pub group_id: u16,
    /// The number of the command within its group.
    pub command_id: u8,
    /// The payload.
    pub data: CborValue,
}

impl McuMgrCommand for RawCommand {
    type Response = CborValue;

    fn is_write_operation(&self) -> (w: bool)
        ensures
            w == (self.op == RawCommandOp::Write),
    {
        match self.op {
            RawCommandOp::Read => false,
            RawCommandOp::Write => true,
        }
    }

    fn group_id(&self) -> (g: u16)
        ensures
            g == self.group_id,
    {
        self.group_id
    }

    fn command_id(&self) -> (c: u8)
        ensures
            c == self.command_id,
    {
        self.command_id
    }

    fn data(&self) -> (v: CborValue)
        ensures
            v@ == self.data@,
    {
        self.data.clone()
    }

    fn parse_response(&self, payload: &CborValue) -> (r: Result<CborValue, CodecError>)
        ensures
            r matches Ok(item) && item@ == payload@,
    {
        Ok(payload.clone())
    }
}

} // verus!
