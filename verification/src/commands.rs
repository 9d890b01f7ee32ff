//! What a command is: a group, a number within the group, a direction and a
//! payload, with the shape of the response that answers it.
pub mod errors;
pub mod fs;
pub mod image;
pub mod os;
pub mod raw;
pub mod shell;

use crate::cbor::decode::CodecError;
use crate::cbor::value::CborValue;
use vstd::prelude::*;
use vstd::std_specs::cmp::PartialEqSpec;

verus! {

/// Whether a command reads from the device or writes to it.
#[derive(Debug, Clone, Copy, PartialEq, Eq, Structural)]
pub enum Direction {
    Read,
    Write,
}

/// The identity of a command on the wire.
#[derive(Debug, Clone, Copy, PartialEq, Eq, Structural)]
pub struct CommandIdentity {
    /// The group of the command.
    pub group_id: u16,
    /// The number of the command within its group.
    pub command_id: u8,
    /// Whether the command reads or writes.
    pub direction: Direction,
}

/// The groups of commands.
#[allow(non_camel_case_types)]
#[derive(Debug, Clone, Copy, PartialEq, Eq, Structural)]
pub enum MCUmgrGroup {
    /// Default and operating system commands.
    MGMT_GROUP_ID_OS,
    /// Firmware image commands.
    MGMT_GROUP_ID_IMAGE,
    /// Statistics commands.
    MGMT_GROUP_ID_STAT,
    /// Settings commands.
    MGMT_GROUP_ID_SETTINGS,
    /// Log commands.
    MGMT_GROUP_ID_LOG,
    /// Crash commands.
    MGMT_GROUP_ID_CRASH,
    /// Split image commands.
    MGMT_GROUP_ID_SPLIT,
    /// Run commands.
    MGMT_GROUP_ID_RUN,
    /// File commands.
    MGMT_GROUP_ID_FS,
    /// Shell commands.
    MGMT_GROUP_ID_SHELL,
    /// Enumeration commands.
    MGMT_GROUP_ID_ENUM,
}

impl MCUmgrGroup {
    /// The number of the group on the wire.
    pub open spec fn spec_id(self) -> u16 {
        match self {
            MCUmgrGroup::MGMT_GROUP_ID_OS => 0,
            MCUmgrGroup::MGMT_GROUP_ID_IMAGE => 1,
            MCUmgrGroup::MGMT_GROUP_ID_STAT => 2,
            MCUmgrGroup::MGMT_GROUP_ID_SETTINGS => 3,
            MCUmgrGroup::MGMT_GROUP_ID_LOG => 4,
            MCUmgrGroup::MGMT_GROUP_ID_CRASH => 5,
            MCUmgrGroup::MGMT_GROUP_ID_SPLIT => 6,
            MCUmgrGroup::MGMT_GROUP_ID_RUN => 7,
            MCUmgrGroup::MGMT_GROUP_ID_FS => 8,
            MCUmgrGroup::MGMT_GROUP_ID_SHELL => 9,
            MCUmgrGroup::MGMT_GROUP_ID_ENUM => 10,
        }
    }

    /// The number of the group on the wire.
    #[verifier::when_used_as_spec(spec_id)]
    pub fn id(self) -> (id: u16)
        ensures
            id == self.spec_id(),
    {
        match self {
            MCUmgrGroup::MGMT_GROUP_ID_OS => 0,
            MCUmgrGroup::MGMT_GROUP_ID_IMAGE => 1,
            MCUmgrGroup::MGMT_GROUP_ID_STAT => 2,
            MCUmgrGroup::MGMT_GROUP_ID_SETTINGS => 3,
            MCUmgrGroup::MGMT_GROUP_ID_LOG => 4,
            MCUmgrGroup::MGMT_GROUP_ID_CRASH => 5,
            MCUmgrGroup::MGMT_GROUP_ID_SPLIT => 6,
            MCUmgrGroup::MGMT_GROUP_ID_RUN => 7,
            MCUmgrGroup::MGMT_GROUP_ID_FS => 8,
            MCUmgrGroup::MGMT_GROUP_ID_SHELL => 9,
            MCUmgrGroup::MGMT_GROUP_ID_ENUM => 10,
        }
    }
}

/// A command that a connection can execute.
pub trait McuMgrCommand {
    /// What the device answers.
    type Response;

    /// Whether this command is a write operation.
    fn is_write_operation(&self) -> bool;

    /// The group of the command.
    fn group_id(&self) -> u16;

    /// The number of the command within its group.
    fn command_id(&self) -> u8;

    /// The payload.
    fn data(&self) -> CborValue;

    /// The response that a payload spells.
    fn parse_response(&self, payload: &CborValue) -> Result<Self::Response, CodecError>;
}

/// The direction of a command that is or is not a write operation.
pub open spec fn direction_of(is_write: bool) -> Direction {
    if is_write {
        Direction::Write
    } else {
        Direction::Read
    }
}

/// The identity of `command`.
pub fn identity_of<C: McuMgrCommand>(command: &C) -> (identity: CommandIdentity)
    ensures
        call_ensures(C::group_id, (command,), identity.group_id),
        call_ensures(C::command_id, (command,), identity.command_id),
        exists|is_write: bool| #[trigger]
            call_ensures(C::is_write_operation, (command,), is_write) && identity.direction
                == direction_of(is_write),
{
    let is_write = command.is_write_operation();
    CommandIdentity {
        group_id: command.group_id(),
        command_id: command.command_id(),
        direction: if is_write {
            Direction::Write
        } else {
            Direction::Read
        },
    }
}

/// Whether `val` is the default value of its type. A field that holds its
/// default is left out of a payload.
pub fn is_default<T: Default + PartialEq>(val: &T) -> (r: bool)
    ensures
        T::obeys_eq_spec() ==> exists|d: T| #[trigger]
            call_ensures(T::default, (), d) && r == val.eq_spec(&d),
{
    let d = T::default();
    *val == d
}

} // verus!
