//! The commands of the default group.
use crate::cbor::access::{
    bool_at, bool_value, dict_value, empty_payload, empty_value, entries, entries_of, entry,
    find, find_integer, find_text, integer_at, lookup, named, named_records, optional, put,
    record_entries, required, text_at, text_value, unsigned_max,
};
use crate::commands::errors::{rc_max, rc_min};
use crate::cbor::decode::{decode_value, CodecError, NESTING_LIMIT};
use crate::cbor::laws::{
    lemma_decode_of_encoding, lemma_dict_well_formed, lemma_entries_well_formed_add,
    lemma_field_well_formed,
};
use crate::cbor::value::{encode_value, well_formed};
use crate::commands::fs::field_depth;
use vstd::utf8::encode_utf8;
use crate::cbor::value::{pair_models, CborModel, CborValue};
use crate::commands::{CommandIdentity, Direction, McuMgrCommand};
use vstd::prelude::*;

verus! {

broadcast use vstd::string::group_string_axioms;

/// The number of the default group.
pub const GROUP_OS: u16 = 0;

/// Asks the device to send a text back.
#[derive(Debug, Clone, PartialEq, Eq)]
pub struct Echo {
    /// The text to send back.
    pub d: String,
}

/// The model of [`Echo`].
pub struct EchoView {
    pub d: Seq<char>,
}

impl View for Echo {
    type V = EchoView;

    open spec fn view(&self) -> EchoView {
        EchoView { d: self.d@ }
    }
}

impl EchoView {
    /// The payload: the text under `d`.
    pub open spec fn payload(self) -> CborModel {
        CborModel::Dict(seq![entry("d"@, CborModel::Text(self.d))])
    }

    /// The request that a payload spells.
    pub open spec fn parse(m: CborModel) -> Result<EchoView, CodecError> {
        match entries_of(m) {
            None => Err(CodecError::Mismatch),
            Some(es) => match required(text_at(es, "d"@)) {
                Err(e) => Err(e),
                Ok(d) => Ok(EchoView { d }),
            },
        }
    }
}

/// The text that came back.
#[derive(Debug, Clone, PartialEq, Eq)]
pub struct EchoResponse {
    /// The text that the device sent back.
    pub r: String,
}

/// The model of [`EchoResponse`].
pub struct EchoResponseView {
    pub r: Seq<char>,
}

impl View for EchoResponse {
    type V = EchoResponseView;

    open spec fn view(&self) -> EchoResponseView {
        EchoResponseView { r: self.r@ }
    }
}

impl EchoResponseView {
    /// The payload: the text under `r`.
    pub open spec fn payload(self) -> CborModel {
        CborModel::Dict(seq![entry("r"@, CborModel::Text(self.r))])
    }

    /// The response that a payload spells.
    pub open spec fn parse(m: CborModel) -> Result<EchoResponseView, CodecError> {
        match entries_of(m) {
            None => Err(CodecError::Mismatch),
            Some(es) => match required(text_at(es, "r"@)) {
                Err(e) => Err(e),
                Ok(r) => Ok(EchoResponseView { r }),
            },
        }
    }
}

impl Echo {
    /// The identity of the command: read `0` of the default group.
    pub open spec fn identity() -> CommandIdentity {
        CommandIdentity { group_id: 0, command_id: 0, direction: Direction::Read }
    }

    /// The payload of this request.
    pub fn to_value(&self) -> (v: CborValue)
        ensures
            v@ == self@.payload(),
    {
        let mut es: Vec<(CborValue, CborValue)> = Vec::new();
        put(&mut es, "d", text_value(self.d.as_str()));
        assert(pair_models(es@) =~= seq![entry("d"@, CborModel::Text(self.d@))]);
        dict_value(es)
    }

    /// Reads a request from its payload.
    pub fn from_value(value: &CborValue) -> (r: Result<Echo, CodecError>)
        ensures
            match EchoView::parse(value@) {
                Ok(e) => r matches Ok(x) && x@ == e,
                Err(e) => r matches Err(f) && f == e,
            },
    {
        let es = entries(value)?;
        match find_text(es, "d")? {
            Some(d) => Ok(Echo { d }),
            None => Err(CodecError::Mismatch),
        }
    }
}

impl EchoResponse {
    /// The payload of this response.
    pub fn to_value(&self) -> (v: CborValue)
        ensures
            v@ == self@.payload(),
    {
        let mut es: Vec<(CborValue, CborValue)> = Vec::new();
        put(&mut es, "r", text_value(self.r.as_str()));
        assert(pair_models(es@) =~= seq![entry("r"@, CborModel::Text(self.r@))]);
        dict_value(es)
    }

    /// Reads a response from its payload.
    pub fn from_value(value: &CborValue) -> (r: Result<EchoResponse, CodecError>)
        ensures
            match EchoResponseView::parse(value@) {
                Ok(e) => r matches Ok(x) && x@ == e,
                Err(e) => r matches Err(f) && f == e,
            },
    {
        let es = entries(value)?;
        match find_text(es, "r")? {
            Some(r) => Ok(EchoResponse { r }),
            None => Err(CodecError::Mismatch),
        }
    }
}

impl McuMgrCommand for Echo {
    type Response = EchoResponse;

    fn is_write_operation(&self) -> (w: bool)
        ensures
            !w,
    {
        false
    }

    fn group_id(&self) -> (g: u16)
        ensures
            g == 0,
    {
        0
    }

    fn command_id(&self) -> (c: u8)
        ensures
            c == 0,
    {
        0
    }

    fn data(&self) -> (v: CborValue)
        ensures
            v@ == self@.payload(),
    {
        self.to_value()
    }

    fn parse_response(&self, payload: &CborValue) -> (r: Result<EchoResponse, CodecError>)
        ensures
            match EchoResponseView::parse(payload@) {
                Ok(e) => r matches Ok(x) && x@ == e,
                Err(e) => r matches Err(f) && f == e,
            },
    {
        EchoResponse::from_value(payload)
    }
}

/// Asks the device for the sizes of its buffers.
#[derive(Debug, Clone, Copy, PartialEq, Eq, Structural)]
pub struct MCUmgrParameters;

/// The sizes of the buffers of the device.
#[derive(Debug, Clone, Copy, PartialEq, Eq, Structural)]
pub struct MCUmgrParametersResponse {
    /// The size of one buffer: the largest frame that the device takes.
    pub buf_size: u32,
    /// The number of buffers.
    pub buf_count: u32,
}

impl MCUmgrParameters {
    /// The identity of the command: read `6` of the default group.
    pub open spec fn identity() -> CommandIdentity {
        CommandIdentity { group_id: GROUP_OS, command_id: 6, direction: Direction::Read }
    }

    /// The payload: the empty map.
    pub open spec fn payload(self) -> CborModel {
        empty_payload()
    }
}

impl MCUmgrParametersResponse {
    /// The payload: `buf_size` and `buf_count`.
    pub open spec fn payload(self) -> CborModel {
        CborModel::Dict(
            seq![
                entry("buf_size"@, CborModel::Unsigned(self.buf_size as u64)),
                entry("buf_count"@, CborModel::Unsigned(self.buf_count as u64)),
            ],
        )
    }

    /// The response that a payload spells.
    pub open spec fn parse(m: CborModel) -> Result<MCUmgrParametersResponse, CodecError> {
        match entries_of(m) {
            None => Err(CodecError::Mismatch),
            Some(es) => {
                let size = required(integer_at(es, "buf_size"@, 0, 0xffff_ffff));
                let count = required(integer_at(es, "buf_count"@, 0, 0xffff_ffff));
                if size is Ok && count is Ok {
                    Ok(
                        MCUmgrParametersResponse {
                            buf_size: size->Ok_0 as u32,
                            buf_count: count->Ok_0 as u32,
                        },
                    )
                } else {
                    Err(CodecError::Mismatch)
                }
            },
        }
    }

    /// Reads a response from its payload.
    pub fn from_value(value: &CborValue) -> (r: Result<MCUmgrParametersResponse, CodecError>)
        ensures
            r == Self::parse(value@),
    {
        let es = entries(value)?;
        let size = find_integer(es, "buf_size", 0, 0xffff_ffff)?;
        let count = find_integer(es, "buf_count", 0, 0xffff_ffff)?;
        match (size, count) {
            (Some(size), Some(count)) => Ok(
                MCUmgrParametersResponse { buf_size: size as u32, buf_count: count as u32 },
            ),
            _ => Err(CodecError::Mismatch),
        }
    }
}

impl McuMgrCommand for MCUmgrParameters {
    type Response = MCUmgrParametersResponse;

    fn is_write_operation(&self) -> (w: bool)
        ensures
            !w,
    {
        false
    }

    fn group_id(&self) -> (g: u16)
        ensures
            g == GROUP_OS,
    {
        GROUP_OS
    }

    fn command_id(&self) -> (c: u8)
        ensures
            c == 6,
    {
        6
    }

    fn data(&self) -> (v: CborValue)
        ensures
            v@ == self.payload(),
    {
        empty_value()
    }

    fn parse_response(&self, payload: &CborValue) -> (r: Result<
        MCUmgrParametersResponse,
        CodecError,
    >)
        ensures
            r == MCUmgrParametersResponse::parse(payload@),
    {
        MCUmgrParametersResponse::from_value(payload)
    }
}

/// Asks the device to restart.
#[derive(Debug, Clone, Copy, PartialEq, Eq, Structural)]
pub struct SystemReset {
    /// Whether to restart even where the device would rather not.
    pub force: bool,
    /// The mode to start in; without one, the usual.
    pub boot_mode: Option<u8>,
}

impl SystemReset {
    /// The identity of the command: write `5` of the default group.
    pub open spec fn identity() -> CommandIdentity {
        CommandIdentity { group_id: GROUP_OS, command_id: 5, direction: Direction::Write }
    }

    /// The payload: `force` where it is not `false`, and `boot_mode` where
    /// there is one.
    pub open spec fn payload(self) -> CborModel {
        CborModel::Dict(
            optional(self.force, "force"@, crate::cbor::value::boolean(true)) + optional(
                self.boot_mode is Some,
                "boot_mode"@,
                CborModel::Unsigned(self.boot_mode.unwrap_or(0) as u64),
            ),
        )
    }

    /// The request that a payload spells.
    pub open spec fn parse(m: CborModel) -> Result<SystemReset, CodecError> {
        match entries_of(m) {
            None => Err(CodecError::Mismatch),
            Some(es) => {
                let force = bool_at(es, "force"@);
                let mode = integer_at(es, "boot_mode"@, 0, 0xff);
                if force is Ok && mode is Ok {
                    Ok(
                        SystemReset {
                            force: force->Ok_0.unwrap_or(false),
                            boot_mode: match mode->Ok_0 {
                                Some(m) => Some(m as u8),
                                None => None,
                            },
                        },
                    )
                } else {
                    Err(CodecError::Mismatch)
                }
            },
        }
    }

    /// The payload of this request.
    pub fn to_value(&self) -> (v: CborValue)
        ensures
            v@ == self.payload(),
    {
        let mut es: Vec<(CborValue, CborValue)> = Vec::new();
        if !crate::commands::is_default(&self.force) {
            put(&mut es, "force", bool_value(true));
        }
        match self.boot_mode {
            Some(mode) => {
                put(&mut es, "boot_mode", CborValue::Unsigned(mode as u64));
            },
            None => {},
        }
        assert(pair_models(es@) =~= self.payload()->Dict_0);
        dict_value(es)
    }
}

impl McuMgrCommand for SystemReset {
    type Response = ();

    fn is_write_operation(&self) -> (w: bool)
        ensures
            w,
    {
        true
    }

    fn group_id(&self) -> (g: u16)
        ensures
            g == GROUP_OS,
    {
        GROUP_OS
    }

    fn command_id(&self) -> (c: u8)
        ensures
            c == 5,
    {
        5
    }

    fn data(&self) -> (v: CborValue)
        ensures
            v@ == self.payload(),
    {
        self.to_value()
    }

    fn parse_response(&self, payload: &CborValue) -> (r: Result<(), CodecError>)
        ensures
            r is Ok,
    {
        Ok(())
    }
}

/// Asks the device which bootloader it has.
#[derive(Debug, Clone, Copy, PartialEq, Eq, Structural)]
pub struct BootloaderInfo;

/// The bootloader of the device.
#[derive(Debug, Clone, PartialEq, Eq)]
pub struct BootloaderInfoResponse {
    /// The name of the bootloader.
    pub bootloader: String,
}

/// The model of [`BootloaderInfoResponse`].
pub struct BootloaderInfoResponseView {
    pub bootloader: Seq<char>,
}

impl View for BootloaderInfoResponse {
    type V = BootloaderInfoResponseView;

    open spec fn view(&self) -> BootloaderInfoResponseView {
        BootloaderInfoResponseView { bootloader: self.bootloader@ }
    }
}

impl BootloaderInfo {
    /// The identity of the command: read `8` of the default group.
    pub open spec fn identity() -> CommandIdentity {
        CommandIdentity { group_id: GROUP_OS, command_id: 8, direction: Direction::Read }
    }

    /// The payload: the empty map.
    pub open spec fn payload(self) -> CborModel {
        empty_payload()
    }
}

impl BootloaderInfoResponseView {
    /// The payload: the name under `bootloader`.
    pub open spec fn payload(self) -> CborModel {
        CborModel::Dict(seq![entry("bootloader"@, CborModel::Text(self.bootloader))])
    }

    /// The response that a payload spells.
    pub open spec fn parse(m: CborModel) -> Result<BootloaderInfoResponseView, CodecError> {
        match entries_of(m) {
            None => Err(CodecError::Mismatch),
            Some(es) => match required(text_at(es, "bootloader"@)) {
                Err(e) => Err(e),
                Ok(bootloader) => Ok(BootloaderInfoResponseView { bootloader }),
            },
        }
    }
}

impl BootloaderInfoResponse {
    /// Reads a response from its payload.
    pub fn from_value(value: &CborValue) -> (r: Result<BootloaderInfoResponse, CodecError>)
        ensures
            match BootloaderInfoResponseView::parse(value@) {
                Ok(e) => r matches Ok(x) && x@ == e,
                Err(e) => r matches Err(f) && f == e,
            },
    {
        let es = entries(value)?;
        match find_text(es, "bootloader")? {
            Some(bootloader) => Ok(BootloaderInfoResponse { bootloader }),
            None => Err(CodecError::Mismatch),
        }
    }
}

impl McuMgrCommand for BootloaderInfo {
    type Response = BootloaderInfoResponse;

    fn is_write_operation(&self) -> (w: bool)
        ensures
            !w,
    {
        false
    }

    fn group_id(&self) -> (g: u16)
        ensures
            g == GROUP_OS,
    {
        GROUP_OS
    }

    fn command_id(&self) -> (c: u8)
        ensures
            c == 8,
    {
        8
    }

    fn data(&self) -> (v: CborValue)
        ensures
            v@ == self.payload(),
    {
        empty_value()
    }

    fn parse_response(&self, payload: &CborValue) -> (r: Result<BootloaderInfoResponse, CodecError>)
        ensures
            match BootloaderInfoResponseView::parse(payload@) {
                Ok(e) => r matches Ok(x) && x@ == e,
                Err(e) => r matches Err(f) && f == e,
            },
    {
        BootloaderInfoResponse::from_value(payload)
    }
}

/// Asks for the statistics of the tasks of the device.
#[derive(Debug, Clone, Copy, PartialEq, Eq, Structural)]
pub struct TaskStatistics;

/// The statistics of one task.
#[derive(Debug, Clone, Copy, PartialEq, Eq)]
pub struct TaskStatisticsEntry {
    /// The priority of the task.
    pub prio: i32,
    /// The number of the task.
    pub tid: u32,
    /// The state of the task.
    pub state: u32,
    /// How much of its stack the task uses.
    pub stkuse: Option<u64>,
    /// How large the stack of the task is.
    pub stksiz: Option<u64>,
    /// How often the task was switched to.
    pub cswcnt: Option<u64>,
    /// How long the task has run.
    pub runtime: Option<u64>,
}

/// The statistics of the tasks of the device.
#[derive(Debug, Clone, PartialEq, Eq)]
pub struct TaskStatisticsResponse {
    /// Each task by its name, in the order of the response.
    pub tasks: Vec<(String, TaskStatisticsEntry)>,
}

/// The model of [`TaskStatisticsResponse`].
pub struct TaskStatisticsResponseView {
    pub tasks: Seq<(Seq<char>, TaskStatisticsEntry)>,
}

impl View for TaskStatisticsResponse {
    type V = TaskStatisticsResponseView;

    open spec fn view(&self) -> TaskStatisticsResponseView {
        TaskStatisticsResponseView { tasks: named(self.tasks@) }
    }
}

/// The unsigned integer that was found, where one was.
pub open spec fn found_u64(found: Option<int>) -> Option<u64> {
    match found {
        Some(i) => Some(i as u64),
        None => None,
    }
}

impl TaskStatisticsEntry {
    /// The payload: `prio`, `tid` and `state`, and each of `stkuse`,
    /// `stksiz`, `cswcnt` and `runtime` where there is one.
    pub open spec fn payload(self) -> CborModel {
        CborModel::Dict(
            seq![
                entry("prio"@, crate::cbor::value::integer(self.prio as int)),
                entry("tid"@, CborModel::Unsigned(self.tid as u64)),
                entry("state"@, CborModel::Unsigned(self.state as u64)),
            ] + optional(
                self.stkuse is Some,
                "stkuse"@,
                CborModel::Unsigned(self.stkuse.unwrap_or(0)),
            ) + optional(
                self.stksiz is Some,
                "stksiz"@,
                CborModel::Unsigned(self.stksiz.unwrap_or(0)),
            ) + optional(
                self.cswcnt is Some,
                "cswcnt"@,
                CborModel::Unsigned(self.cswcnt.unwrap_or(0)),
            ) + optional(
                self.runtime is Some,
                "runtime"@,
                CborModel::Unsigned(self.runtime.unwrap_or(0)),
            ),
        )
    }

    /// The record that an item spells.
    pub open spec fn parse(m: CborModel) -> Result<TaskStatisticsEntry, CodecError> {
        match entries_of(m) {
            None => Err(CodecError::Mismatch),
            Some(es) => {
                let prio = required(integer_at(es, "prio"@, rc_min(), rc_max()));
                let tid = required(integer_at(es, "tid"@, 0, 0xffff_ffff));
                let state = required(integer_at(es, "state"@, 0, 0xffff_ffff));
                let stkuse = integer_at(es, "stkuse"@, 0, unsigned_max());
                let stksiz = integer_at(es, "stksiz"@, 0, unsigned_max());
                let cswcnt = integer_at(es, "cswcnt"@, 0, unsigned_max());
                let runtime = integer_at(es, "runtime"@, 0, unsigned_max());
                if prio is Ok && tid is Ok && state is Ok && stkuse is Ok && stksiz is Ok && cswcnt
                    is Ok && runtime is Ok {
                    Ok(
                        TaskStatisticsEntry {
                            prio: prio->Ok_0 as i32,
                            tid: tid->Ok_0 as u32,
                            state: state->Ok_0 as u32,
                            stkuse: found_u64(stkuse->Ok_0),
                            stksiz: found_u64(stksiz->Ok_0),
                            cswcnt: found_u64(cswcnt->Ok_0),
                            runtime: found_u64(runtime->Ok_0),
                        },
                    )
                } else {
                    Err(CodecError::Mismatch)
                }
            },
        }
    }

    /// Reads a record from an item.
    pub fn from_value(value: &CborValue) -> (r: Result<TaskStatisticsEntry, CodecError>)
        ensures
            r == Self::parse(value@),
    {
        let es = entries(value)?;
        let prio = find_integer(es, "prio", -0x8000_0000, 0x7fff_ffff)?;
        let tid = find_integer(es, "tid", 0, 0xffff_ffff)?;
        let state = find_integer(es, "state", 0, 0xffff_ffff)?;
        let stkuse = find_integer(es, "stkuse", 0, 0xffff_ffff_ffff_ffff)?;
        let stksiz = find_integer(es, "stksiz", 0, 0xffff_ffff_ffff_ffff)?;
        let cswcnt = find_integer(es, "cswcnt", 0, 0xffff_ffff_ffff_ffff)?;
        let runtime = find_integer(es, "runtime", 0, 0xffff_ffff_ffff_ffff)?;
        match (prio, tid, state) {
            (Some(prio), Some(tid), Some(state)) => Ok(
                TaskStatisticsEntry {
                    prio: prio as i32,
                    tid: tid as u32,
                    state: state as u32,
                    stkuse: narrow(stkuse),
                    stksiz: narrow(stksiz),
                    cswcnt: narrow(cswcnt),
                    runtime: narrow(runtime),
                },
            ),
            _ => Err(CodecError::Mismatch),
        }
    }
}

/// The unsigned integer that was found, where one was.
fn narrow(found: Option<i128>) -> (r: Option<u64>)
    requires
        found matches Some(i) ==> 0 <= i <= 0xffff_ffff_ffff_ffff,
    ensures
        r == found_u64(
            match found {
                Some(i) => Some(i as int),
                None => None,
            },
        ),
{
    match found {
        Some(i) => Some(i as u64),
        None => None,
    }
}

impl TaskStatistics {
    /// The identity of the command: read `2` of the default group.
    pub open spec fn identity() -> CommandIdentity {
        CommandIdentity { group_id: GROUP_OS, command_id: 2, direction: Direction::Read }
    }

    /// The payload: the empty map.
    pub open spec fn payload(self) -> CborModel {
        empty_payload()
    }
}

impl TaskStatisticsResponseView {
    /// The payload: under `tasks`, a map from each name to its record.
    pub open spec fn payload(self) -> CborModel {
        CborModel::Dict(
            seq![
                entry(
                    "tasks"@,
                    CborModel::Dict(
                        record_entries(self.tasks, |e: TaskStatisticsEntry| e.payload()),
                    ),
                ),
            ],
        )
    }

    /// The response that a payload spells.
    pub open spec fn parse(m: CborModel) -> Result<TaskStatisticsResponseView, CodecError> {
        match entries_of(m) {
            None => Err(CodecError::Mismatch),
            Some(es) => match lookup(es, "tasks"@) {
                Some(CborModel::Dict(inner)) => match named_records(
                    inner,
                    |m: CborModel| TaskStatisticsEntry::parse(m),
                ) {
                    Ok(tasks) => Ok(TaskStatisticsResponseView { tasks }),
                    Err(e) => Err(e),
                },
                _ => Err(CodecError::Mismatch),
            },
        }
    }
}

impl TaskStatisticsResponse {
    /// Reads a response from its payload.
    pub fn from_value(value: &CborValue) -> (r: Result<TaskStatisticsResponse, CodecError>)
        ensures
            match TaskStatisticsResponseView::parse(value@) {
                Ok(e) => r matches Ok(x) && x@ == e,
                Err(e) => r matches Err(f) && f == e,
            },
    {
        let es = entries(value)?;
        let inner = match find(es, "tasks") {
            Some(found) => match found {
                CborValue::Dict(_) => entries(found)?,
                _ => {
                    return Err(CodecError::Mismatch);
                },
            },
            None => {
                return Err(CodecError::Mismatch);
            },
        };
        let ghost ms = pair_models(inner@);
        let ghost parse_one = |m: CborModel| TaskStatisticsEntry::parse(m);
        let mut tasks: Vec<(String, TaskStatisticsEntry)> = Vec::new();
        let mut i: usize = 0;
        while i < inner.len()
            invariant
                i <= inner.len(),
                ms == pair_models(inner@),
                parse_one == (|m: CborModel| TaskStatisticsEntry::parse(m)),
                TaskStatisticsResponseView::parse(value@) == match named_records(ms, parse_one) {
                    Ok(tasks) => Ok::<TaskStatisticsResponseView, CodecError>(
                        TaskStatisticsResponseView { tasks },
                    ),
                    Err(e) => Err(e),
                },
                tasks.len() == i,
                forall|j: int|
                    0 <= j < i ==> (#[trigger] ms[j]).0 is Text && parse_one(ms[j].1) is Ok,
                forall|j: int|
                    0 <= j < i ==> (#[trigger] tasks[j]).0@ == ms[j].0->Text_0 && tasks[j].1
                        == parse_one(ms[j].1)->Ok_0,
            decreases inner.len() - i,
        {
            let name = match &inner[i].0 {
                CborValue::Text(name) => name.clone(),
                _ => {
                    assert(!(ms[i as int].0 is Text));
                    return Err(CodecError::Mismatch);
                },
            };
            let record = match TaskStatisticsEntry::from_value(&inner[i].1) {
                Ok(record) => record,
                Err(e) => {
                    assert(!(parse_one(ms[i as int].1) is Ok));
                    return Err(CodecError::Mismatch);
                },
            };
            tasks.push((name, record));
            i = i + 1;
        }
        assert(named(tasks@) =~= named_records(ms, parse_one)->Ok_0);
        Ok(TaskStatisticsResponse { tasks })
    }
}

impl McuMgrCommand for TaskStatistics {
    type Response = TaskStatisticsResponse;

    fn is_write_operation(&self) -> (w: bool)
        ensures
            !w,
    {
        false
    }

    fn group_id(&self) -> (g: u16)
        ensures
            g == GROUP_OS,
    {
        GROUP_OS
    }

    fn command_id(&self) -> (c: u8)
        ensures
            c == 2,
    {
        2
    }

    fn data(&self) -> (v: CborValue)
        ensures
            v@ == self.payload(),
    {
        empty_value()
    }

    fn parse_response(&self, payload: &CborValue) -> (r: Result<TaskStatisticsResponse, CodecError>)
        ensures
            match TaskStatisticsResponseView::parse(payload@) {
                Ok(e) => r matches Ok(x) && x@ == e,
                Err(e) => r matches Err(f) && f == e,
            },
    {
        TaskStatisticsResponse::from_value(payload)
    }
}

/// The keys of the record of a task differ from one another.
proof fn lemma_task_keys()
    ensures
        "tid"@.len() == 3,
        "prio"@.len() == 4,
        "state"@.len() == 5,
        "stkuse"@.len() == 6 && "stkuse"@[0] == 's' && "stkuse"@[3] == 'u',
        "stksiz"@.len() == 6 && "stksiz"@[0] == 's' && "stksiz"@[3] == 's',
        "cswcnt"@.len() == 6 && "cswcnt"@[0] == 'c',
        "runtime"@.len() == 7,
{
    reveal_strlit("tid");
    reveal_strlit("prio");
    reveal_strlit("state");
    reveal_strlit("stkuse");
    reveal_strlit("stksiz");
    reveal_strlit("cswcnt");
    reveal_strlit("runtime");
}

/// The record of a task reads back from its payload as it was.
pub proof fn lemma_task_entry_round_trip(e: TaskStatisticsEntry)
    ensures
        TaskStatisticsEntry::parse(e.payload()) == Ok::<TaskStatisticsEntry, CodecError>(e),
{
    lemma_task_keys();
    reveal_with_fuel(crate::cbor::access::lookup_from, 8);
}

/// A response of task statistics reads back from its payload as it was.
pub proof fn lemma_task_statistics_response_round_trip(e: TaskStatisticsResponseView)
    ensures
        TaskStatisticsResponseView::parse(e.payload()) == Ok::<
            TaskStatisticsResponseView,
            CodecError,
        >(e),
{
    let payload_one = |e: TaskStatisticsEntry| e.payload();
    let parse_one = |m: CborModel| TaskStatisticsEntry::parse(m);
    let inner = record_entries(e.tasks, payload_one);
    assert forall|i: int| 0 <= i < inner.len() implies (#[trigger] inner[i]).0 is Text
        && parse_one(inner[i].1) == Ok::<TaskStatisticsEntry, CodecError>(e.tasks[i].1) by {
        lemma_task_entry_round_trip(e.tasks[i].1);
    }
    assert(named_records(inner, parse_one)->Ok_0 =~= e.tasks);
}

/// The keys of the payloads of this group differ from one another.
proof fn lemma_keys()
    ensures
        "force"@.len() == 5,
        "buf_size"@.len() == 8,
        "buf_count"@.len() == 9 && "buf_count"@[1] == 'u',
        "boot_mode"@.len() == 9 && "boot_mode"@[1] == 'o',
{
    reveal_strlit("force");
    reveal_strlit("buf_size");
    reveal_strlit("buf_count");
    reveal_strlit("boot_mode");
}

/// A parameters response reads back from its payload as it was.
pub proof fn lemma_parameters_response_round_trip(e: MCUmgrParametersResponse)
    ensures
        MCUmgrParametersResponse::parse(e.payload()) == Ok::<MCUmgrParametersResponse, CodecError>(
            e,
        ),
{
    lemma_keys();
    reveal_with_fuel(crate::cbor::access::lookup_from, 3);
}

/// A reset request reads back from its payload as it was.
pub proof fn lemma_system_reset_round_trip(e: SystemReset)
    ensures
        SystemReset::parse(e.payload()) == Ok::<SystemReset, CodecError>(e),
{
    lemma_keys();
    reveal_with_fuel(crate::cbor::access::lookup_from, 3);
}

/// An echo request that is written out and read back from the bytes is as
/// it was, where its length can be written.
pub proof fn lemma_echo_written_and_read(e: EchoView)
    requires
        encode_utf8(e.d).len() <= u64::MAX,
    ensures
        well_formed(e.payload(), NESTING_LIMIT as nat),
        decode_value(encode_value(e.payload())) == Some(e.payload()),
        EchoView::parse(e.payload()) == Ok::<EchoView, CodecError>(e),
{
    reveal_strlit("d");
    lemma_field_well_formed("d"@, CborModel::Text(e.d), field_depth());
    lemma_dict_well_formed(e.payload()->Dict_0, field_depth());
    lemma_decode_of_encoding(e.payload());
}

/// An echo response that is written out and read back from the bytes is
/// as it was, where its length can be written.
pub proof fn lemma_echo_response_written_and_read(e: EchoResponseView)
    requires
        encode_utf8(e.r).len() <= u64::MAX,
    ensures
        well_formed(e.payload(), NESTING_LIMIT as nat),
        decode_value(encode_value(e.payload())) == Some(e.payload()),
        EchoResponseView::parse(e.payload()) == Ok::<EchoResponseView, CodecError>(e),
{
    reveal_strlit("r");
    lemma_field_well_formed("r"@, CborModel::Text(e.r), field_depth());
    lemma_dict_well_formed(e.payload()->Dict_0, field_depth());
    lemma_decode_of_encoding(e.payload());
}

/// The payload of a command without arguments that is written out is read
/// back from the bytes as it was.
pub proof fn lemma_empty_payload_written_and_read()
    ensures
        well_formed(empty_payload(), NESTING_LIMIT as nat),
        decode_value(encode_value(empty_payload())) == Some(empty_payload()),
{
    lemma_dict_well_formed(Seq::empty(), field_depth());
    lemma_decode_of_encoding(empty_payload());
}

/// A parameters response that is written out and read back from the bytes
/// is as it was.
pub proof fn lemma_parameters_response_written_and_read(e: MCUmgrParametersResponse)
    ensures
        well_formed(e.payload(), NESTING_LIMIT as nat),
        decode_value(encode_value(e.payload())) == Some(e.payload()),
        MCUmgrParametersResponse::parse(e.payload()) == Ok::<MCUmgrParametersResponse, CodecError>(e),
{
    lemma_keys();
    let d = field_depth();
    let a = seq![entry("buf_size"@, CborModel::Unsigned(e.buf_size as u64))];
    let b = seq![entry("buf_count"@, CborModel::Unsigned(e.buf_count as u64))];
    lemma_field_well_formed("buf_size"@, CborModel::Unsigned(e.buf_size as u64), d);
    lemma_field_well_formed("buf_count"@, CborModel::Unsigned(e.buf_count as u64), d);
    lemma_entries_well_formed_add(a, b, d);
    assert(e.payload()->Dict_0 =~= a + b);
    lemma_dict_well_formed(e.payload()->Dict_0, d);
    lemma_decode_of_encoding(e.payload());
    lemma_parameters_response_round_trip(e);
}

/// A reset request that is written out and read back from the bytes is as
/// it was.
pub proof fn lemma_system_reset_written_and_read(e: SystemReset)
    ensures
        well_formed(e.payload(), NESTING_LIMIT as nat),
        decode_value(encode_value(e.payload())) == Some(e.payload()),
        SystemReset::parse(e.payload()) == Ok::<SystemReset, CodecError>(e),
{
    lemma_keys();
    let d = field_depth();
    let a = optional(e.force, "force"@, crate::cbor::value::boolean(true));
    let b = optional(
        e.boot_mode is Some,
        "boot_mode"@,
        CborModel::Unsigned(e.boot_mode.unwrap_or(0) as u64),
    );
    lemma_field_well_formed("force"@, crate::cbor::value::boolean(true), d);
    lemma_field_well_formed(
        "boot_mode"@,
        CborModel::Unsigned(e.boot_mode.unwrap_or(0) as u64),
        d,
    );
    lemma_entries_well_formed_add(a, b, d);
    lemma_dict_well_formed(e.payload()->Dict_0, d);
    lemma_decode_of_encoding(e.payload());
    lemma_system_reset_round_trip(e);
}

/// A bootloader response that is written out and read back from the bytes
/// is as it was, where its length can be written.
pub proof fn lemma_bootloader_response_written_and_read(e: BootloaderInfoResponseView)
    requires
        encode_utf8(e.bootloader).len() <= u64::MAX,
    ensures
        well_formed(e.payload(), NESTING_LIMIT as nat),
        decode_value(encode_value(e.payload())) == Some(e.payload()),
        BootloaderInfoResponseView::parse(e.payload()) == Ok::<BootloaderInfoResponseView, CodecError>(e),
{
    reveal_strlit("bootloader");
    lemma_field_well_formed("bootloader"@, CborModel::Text(e.bootloader), field_depth());
    lemma_dict_well_formed(e.payload()->Dict_0, field_depth());
    lemma_decode_of_encoding(e.payload());
}

/// The record of a task can be read back at the depth of a record.
proof fn lemma_task_entry_well_formed(e: TaskStatisticsEntry)
    ensures
        well_formed(e.payload(), (field_depth() - 1) as nat),
{
    lemma_task_keys();
    let d = (field_depth() - 2) as nat;
    let prio = crate::cbor::value::integer(e.prio as int);
    let a = seq![entry("prio"@, prio)];
    let b = seq![entry("tid"@, CborModel::Unsigned(e.tid as u64))];
    let c = seq![entry("state"@, CborModel::Unsigned(e.state as u64))];
    let o1 = optional(e.stkuse is Some, "stkuse"@, CborModel::Unsigned(e.stkuse.unwrap_or(0)));
    let o2 = optional(e.stksiz is Some, "stksiz"@, CborModel::Unsigned(e.stksiz.unwrap_or(0)));
    let o3 = optional(e.cswcnt is Some, "cswcnt"@, CborModel::Unsigned(e.cswcnt.unwrap_or(0)));
    let o4 = optional(e.runtime is Some, "runtime"@, CborModel::Unsigned(e.runtime.unwrap_or(0)));
    lemma_field_well_formed("prio"@, prio, d);
    lemma_field_well_formed("tid"@, CborModel::Unsigned(e.tid as u64), d);
    lemma_field_well_formed("state"@, CborModel::Unsigned(e.state as u64), d);
    lemma_field_well_formed("stkuse"@, CborModel::Unsigned(e.stkuse.unwrap_or(0)), d);
    lemma_field_well_formed("stksiz"@, CborModel::Unsigned(e.stksiz.unwrap_or(0)), d);
    lemma_field_well_formed("cswcnt"@, CborModel::Unsigned(e.cswcnt.unwrap_or(0)), d);
    lemma_field_well_formed("runtime"@, CborModel::Unsigned(e.runtime.unwrap_or(0)), d);
    lemma_entries_well_formed_add(a, b, d);
    lemma_entries_well_formed_add(a + b, c, d);
    lemma_entries_well_formed_add(a + b + c, o1, d);
    lemma_entries_well_formed_add(a + b + c + o1, o2, d);
    lemma_entries_well_formed_add(a + b + c + o1 + o2, o3, d);
    lemma_entries_well_formed_add(a + b + c + o1 + o2 + o3, o4, d);
    assert(e.payload()->Dict_0 =~= a + b + c + o1 + o2 + o3 + o4);
    lemma_dict_well_formed(e.payload()->Dict_0, d);
}

/// A response of task statistics that is written out and read back from
/// the bytes is as it was, where its lengths can be written.
pub proof fn lemma_task_statistics_response_written_and_read(e: TaskStatisticsResponseView)
    requires
        e.tasks.len() <= u64::MAX,
        forall|i: int| 0 <= i < e.tasks.len() ==> encode_utf8((#[trigger] e.tasks[i]).0).len()
            <= u64::MAX,
    ensures
        well_formed(e.payload(), NESTING_LIMIT as nat),
        decode_value(encode_value(e.payload())) == Some(e.payload()),
        TaskStatisticsResponseView::parse(e.payload()) == Ok::<TaskStatisticsResponseView, CodecError>(e),
{
    reveal_strlit("tasks");
    let d = field_depth();
    let inner_depth = (d - 1) as nat;
    let inner = record_entries(e.tasks, |e: TaskStatisticsEntry| e.payload());
    assert forall|i: int| 0 <= i < inner.len() implies well_formed(
        (#[trigger] inner[i]).0,
        inner_depth,
    ) && well_formed(inner[i].1, inner_depth) by {
        lemma_task_entry_well_formed(e.tasks[i].1);
        assert(inner[i].0 == CborModel::Text(e.tasks[i].0));
    }
    lemma_dict_well_formed(inner, inner_depth);
    lemma_field_well_formed("tasks"@, CborModel::Dict(inner), d);
    lemma_dict_well_formed(e.payload()->Dict_0, d);
    lemma_decode_of_encoding(e.payload());
    lemma_task_statistics_response_round_trip(e);
}

} // verus!
