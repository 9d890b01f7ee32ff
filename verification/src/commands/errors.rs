//! The failure that a device reports in place of a response, in either of
//! its two shapes.
use crate::cbor::access::{
    entries, entries_of, find, find_integer, integer_at, lookup, required,
};
use crate::cbor::decode::CodecError;
use crate::cbor::value::{CborModel, CborValue};
use vstd::prelude::*;

verus! {

/// The status code that means success.
pub const STATUS_OK: i32 = 0;

/// The error of the second shape: a code within a group.
#[derive(Debug, Clone, Copy, PartialEq, Eq, Structural)]
pub struct ErrResponseV2 {
    /// The group that the code belongs to.
    pub group: u16,
    /// The code within the group.
    pub rc: i32,
}

/// The error fields of a response.
#[derive(Debug, Clone, Copy, PartialEq, Eq)]
pub struct ErrResponse {
    /// The status code of the first shape.
    pub rc: Option<i32>,
    /// The error of the second shape.
    pub err: Option<ErrResponseV2>,
}

/// A failure that the device reported.
#[derive(Debug, Clone, Copy, PartialEq, Eq, Structural)]
pub enum DeviceError {
    /// A status code of the first shape.
    V1 { rc: i32 },
    /// A code within a group, of the second shape.
    V2 { group: u16, rc: i32 },
}

impl DeviceError {
    /// The code that the device reported.
    pub open spec fn spec_code(self) -> i32 {
        match self {
            DeviceError::V1 { rc } => rc,
            DeviceError::V2 { rc, .. } => rc,
        }
    }

    /// The code that the device reported.
    #[verifier::when_used_as_spec(spec_code)]
    pub fn code(self) -> (rc: i32)
        ensures
            rc == self.spec_code(),
    {
        match self {
            DeviceError::V1 { rc } => rc,
            DeviceError::V2 { rc, .. } => rc,
        }
    }
}

/// The least status code.
pub open spec fn rc_min() -> int {
    -0x8000_0000
}

/// The greatest status code.
pub open spec fn rc_max() -> int {
    0x7fff_ffff
}

/// The error of the second shape that `m` spells: a map with a group and a
/// code.
pub open spec fn parse_err_v2(m: CborModel) -> Result<ErrResponseV2, CodecError> {
    match entries_of(m) {
        None => Err(CodecError::Mismatch),
        Some(es) => match required(integer_at(es, "group"@, 0, 0xffff)) {
            Err(e) => Err(e),
            Ok(group) => match required(integer_at(es, "rc"@, rc_min(), rc_max())) {
                Err(e) => Err(e),
                Ok(rc) => Ok(ErrResponseV2 { group: group as u16, rc: rc as i32 }),
            },
        },
    }
}

/// The error fields of the payload `m`: the integer under `rc` and the map
/// under `err`, each where it is there. A payload that is no map has
/// neither.
pub open spec fn parse_err_response(m: CborModel) -> Result<ErrResponse, CodecError> {
    match entries_of(m) {
        None => Ok(ErrResponse { rc: None, err: None }),
        Some(es) => match integer_at(es, "rc"@, rc_min(), rc_max()) {
            Err(e) => Err(e),
            Ok(rc) => {
                let rc = match rc {
                    Some(i) => Some(i as i32),
                    None => None,
                };
                match lookup(es, "err"@) {
                    None => Ok(ErrResponse { rc, err: None }),
                    Some(inner) => match parse_err_v2(inner) {
                        Err(e) => Err(e),
                        Ok(v2) => Ok(ErrResponse { rc, err: Some(v2) }),
                    },
                }
            },
        },
    }
}

/// The failure that error fields report: the error of the second shape
/// where there is one, else the status code where there is one other than
/// the code for success, else none.
pub open spec fn reported(fields: ErrResponse) -> Option<DeviceError> {
    match fields.err {
        Some(v2) => Some(DeviceError::V2 { group: v2.group, rc: v2.rc }),
        None => match fields.rc {
            Some(rc) => if rc != STATUS_OK {
                Some(DeviceError::V1 { rc })
            } else {
                None
            },
            None => None,
        },
    }
}

impl ErrResponseV2 {
    /// Reads an error of the second shape.
    pub fn from_value(value: &CborValue) -> (r: Result<ErrResponseV2, CodecError>)
        ensures
            r == parse_err_v2(value@),
    {
        let es = entries(value)?;
        let group = match find_integer(es, "group", 0, 0xffff)? {
            Some(g) => g as u16,
            None => {
                return Err(CodecError::Mismatch);
            },
        };
        let rc = match find_integer(es, "rc", -0x8000_0000, 0x7fff_ffff)? {
            Some(rc) => rc as i32,
            None => {
                return Err(CodecError::Mismatch);
            },
        };
        Ok(ErrResponseV2 { group, rc })
    }
}

impl ErrResponse {
    /// Reads the error fields of a payload.
    pub fn from_value(value: &CborValue) -> (r: Result<ErrResponse, CodecError>)
        ensures
            r == parse_err_response(value@),
    {
        let es = match entries(value) {
            Ok(es) => es,
            Err(_) => {
                return Ok(ErrResponse { rc: None, err: None });
            },
        };
        let rc = match find_integer(es, "rc", -0x8000_0000, 0x7fff_ffff)? {
            Some(rc) => Some(rc as i32),
            None => None,
        };
        match find(es, "err") {
            None => Ok(ErrResponse { rc, err: None }),
            Some(inner) => {
                let v2 = ErrResponseV2::from_value(inner)?;
                Ok(ErrResponse { rc, err: Some(v2) })
            },
        }
    }

    /// The failure that these fields report.
    pub fn device_error(&self) -> (e: Option<DeviceError>)
        ensures
            e == reported(*self),
    {
        match self.err {
            Some(v2) => Some(DeviceError::V2 { group: v2.group, rc: v2.rc }),
            None => match self.rc {
                Some(rc) => if rc != STATUS_OK {
                    Some(DeviceError::V1 { rc })
                } else {
                    None
                },
                None => None,
            },
        }
    }
}

/// A payload with a status code other than success under `rc` and nothing
/// under `err` reports that code, in the first shape.
pub proof fn lemma_status_code_alone(es: Seq<(CborModel, CborModel)>, rc: i32)
    requires
        lookup(es, "rc"@) == Some(crate::cbor::value::integer(rc as int)),
        lookup(es, "err"@) is None,
        rc != STATUS_OK,
    ensures
        parse_err_response(CborModel::Dict(es)) matches Ok(fields) && reported(fields) == Some(
            DeviceError::V1 { rc },
        ) && reported(fields).unwrap().code() == rc,
{
}

/// A payload with a group and a code under `err` and nothing under `rc`
/// reports that code, in the second shape.
pub proof fn lemma_group_code_alone(
    es: Seq<(CborModel, CborModel)>,
    inner: Seq<(CborModel, CborModel)>,
    group: u16,
    rc: i32,
)
    requires
        lookup(es, "rc"@) is None,
        lookup(es, "err"@) == Some(CborModel::Dict(inner)),
        lookup(inner, "group"@) == Some(CborModel::Unsigned(group as u64)),
        lookup(inner, "rc"@) == Some(crate::cbor::value::integer(rc as int)),
    ensures
        parse_err_response(CborModel::Dict(es)) matches Ok(fields) && reported(fields) == Some(
            DeviceError::V2 { group, rc },
        ) && reported(fields).unwrap().code() == rc,
{
}

/// A payload with nothing under `rc` and nothing under `err` reports no
/// failure, and neither does a payload that is no map.
pub proof fn lemma_no_error_fields(m: CborModel)
    requires
        m matches CborModel::Dict(es) ==> lookup(es, "rc"@) is None && lookup(es, "err"@) is None,
    ensures
        parse_err_response(m) matches Ok(fields) && reported(fields) is None,
{
}

/// The name of a status code of the first shape, where it has one.
pub open spec fn status_name(rc: i32) -> Option<Seq<char>> {
    if rc == 0 {
        Some("MGMT_ERR_EOK"@)
    } else if rc == 1 {
        Some("MGMT_ERR_EUNKNOWN"@)
    } else if rc == 2 {
        Some("MGMT_ERR_ENOMEM"@)
    } else if rc == 3 {
        Some("MGMT_ERR_EINVAL"@)
    } else if rc == 4 {
        Some("MGMT_ERR_ETIMEOUT"@)
    } else if rc == 5 {
        Some("MGMT_ERR_ENOENT"@)
    } else if rc == 6 {
        Some("MGMT_ERR_EBADSTATE"@)
    } else if rc == 7 {
        Some("MGMT_ERR_EMSGSIZE"@)
    } else if rc == 8 {
        Some("MGMT_ERR_ENOTSUP"@)
    } else if rc == 9 {
        Some("MGMT_ERR_ECORRUPT"@)
    } else if rc == 10 {
        Some("MGMT_ERR_EBUSY"@)
    } else if rc == 11 {
        Some("MGMT_ERR_EACCESSDENIED"@)
    } else if rc == 12 {
        Some("MGMT_ERR_UNSUPPORTED_TOO_OLD"@)
    } else if rc == 13 {
        Some("MGMT_ERR_UNSUPPORTED_TOO_NEW"@)
    } else if rc == 256 {
        Some("MGMT_ERR_EPERUSER"@)
    } else {
        None
    }
}

/// The name of a status code of the first shape, where it has one.
pub fn status_code_name(rc: i32) -> (name: Option<&'static str>)
    ensures
        match status_name(rc) {
            Some(n) => name matches Some(text) && text@ == n,
            None => name is None,
        },
{
    if rc == 0 {
        Some("MGMT_ERR_EOK")
    } else if rc == 1 {
        Some("MGMT_ERR_EUNKNOWN")
    } else if rc == 2 {
        Some("MGMT_ERR_ENOMEM")
    } else if rc == 3 {
        Some("MGMT_ERR_EINVAL")
    } else if rc == 4 {
        Some("MGMT_ERR_ETIMEOUT")
    } else if rc == 5 {
        Some("MGMT_ERR_ENOENT")
    } else if rc == 6 {
        Some("MGMT_ERR_EBADSTATE")
    } else if rc == 7 {
        Some("MGMT_ERR_EMSGSIZE")
    } else if rc == 8 {
        Some("MGMT_ERR_ENOTSUP")
    } else if rc == 9 {
        Some("MGMT_ERR_ECORRUPT")
    } else if rc == 10 {
        Some("MGMT_ERR_EBUSY")
    } else if rc == 11 {
        Some("MGMT_ERR_EACCESSDENIED")
    } else if rc == 12 {
        Some("MGMT_ERR_UNSUPPORTED_TOO_OLD")
    } else if rc == 13 {
        Some("MGMT_ERR_UNSUPPORTED_TOO_NEW")
    } else if rc == 256 {
        Some("MGMT_ERR_EPERUSER")
    } else {
        None
    }
}

} // verus!
