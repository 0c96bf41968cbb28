//! Envelope of every desktop command's reply.
use vstd::prelude::*;
use crate::text::trim;

verus! {

pub const IPC_VERSION: &'static str = "1.0";

#[derive(Debug, Clone)]
pub struct IpcError {
    pub code: String,
    pub message: String,
    pub detail: Option<String>,
    pub retryable: bool,
    pub request_id: String,
    pub task_id: Option<String>,
}

#[derive(Debug, Clone)]
pub struct IpcEnvelope<T> {
    pub version: String,
    pub request_id: String,
    pub task_id: Option<String>,
    pub message_type: String,
    pub payload: Option<T>,
    pub error: Option<IpcError>,
}

/// A lower-case hexadecimal digit.
pub open spec fn is_lower_hex(c: char) -> bool {
    ('0' <= c && c <= '9') || ('a' <= c && c <= 'f')
}

/// The text of a random (version 4, RFC 4122 variant) UUID: 36 characters,
/// lower-case hexadecimal digits with hyphens at 8, 13, 18 and 23, the
/// version digit `4` at 14 and a variant digit from `8` to `b` at 19.
pub open spec fn is_v4_uuid_text(s: Seq<char>) -> bool {
    &&& s.len() == 36
    &&& forall|i: int|
        0 <= i < 36 ==> if i == 8 || i == 13 || i == 18 || i == 23 {
            s[i] == '-'
        } else {
            is_lower_hex(#[trigger] s[i])
        }
    &&& s[14] == '4'
    &&& (s[19] == '8' || s[19] == '9' || s[19] == 'a' || s[19] == 'b')
}

/// `uuid::Uuid::new_v4().to_string()`: `new_v4` sets the version bits to 4
/// and the variant bits to RFC 4122 over random bits, and `Display` writes
/// the hyphenated lower-case form. Nothing is claimed about which random
/// identifier comes back.
#[verifier::external_body]
pub(crate) fn new_uuid_string() -> (r: String)
    ensures
        r@.len() == 36,
        is_v4_uuid_text(r@),
{
    uuid::Uuid::new_v4().to_string()
}

/// Keep a caller-supplied request id unless it is blank; otherwise mint a
/// fresh random one.
pub fn normalize_request_id(value: Option<String>) -> (r: String)
    ensures
        match value {
            Some(id) => if trim(id@).len() > 0 {
                r == id
            } else {
                is_v4_uuid_text(r@)
            },
            None => is_v4_uuid_text(r@),
        },
{
    match value {
        Some(id) => {
            if !crate::text::is_blank(id.as_str()) {
                id
            } else {
                new_uuid_string()
            }
        },
        None => new_uuid_string(),
    }
}

fn ipc_version() -> (r: String)
    ensures
        r@ == IPC_VERSION@,
{
    crate::text::owned(IPC_VERSION)
}

pub fn success<T>(message_type: &str, request_id: String, payload: T) -> (r: IpcEnvelope<T>)
    ensures
        r.version@ == IPC_VERSION@,
        r.request_id == request_id,
        r.task_id is None,
        r.message_type@ == message_type@,
        r.payload == Some(payload),
        r.error is None,
{
    IpcEnvelope {
        version: ipc_version(),
        request_id,
        task_id: None,
        message_type: crate::text::owned(message_type),
        payload: Some(payload),
        error: None,
    }
}

pub fn failure<T>(message_type: &str, request_id: String, error: IpcError) -> (r: IpcEnvelope<T>)
    ensures
        r.version@ == IPC_VERSION@,
        r.request_id == request_id,
        r.task_id is None,
        r.message_type@ == message_type@,
        r.payload is None,
        r.error == Some(error),
{
    IpcEnvelope {
        version: ipc_version(),
        request_id,
        task_id: None,
        message_type: crate::text::owned(message_type),
        payload: None,
        error: Some(error),
    }
}

pub fn core_error(
    request_id: &str,
    code: &str,
    message: &str,
    detail: Option<String>,
    retryable: bool,
) -> (r: IpcError)
    ensures
        r.code@ == code@,
        r.message@ == message@,
        r.detail == detail,
        r.retryable == retryable,
        r.request_id@ == request_id@,
        r.task_id is None,
{
    IpcError {
        code: crate::text::owned(code),
        message: crate::text::owned(message),
        detail,
        retryable,
        request_id: crate::text::owned(request_id),
        task_id: None,
    }
}

} // verus!
