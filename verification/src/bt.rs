//! The Bluetooth GATT server: one service exposing the latest relative
//! humidity, and how each request is answered.
use trouble_host::advertise::AdStructure;
use vstd::prelude::*;

verus! {

/// The advertising data of a device called `name` with the advertising
/// `flags`: the complete-local-name structure (its length, the name's length
/// plus one, as a byte; the type 0x09; the name), then the flags structure
/// (length 2, type 0x01, the flags).
pub open spec fn advertising_bytes(name: Seq<u8>, flags: u8) -> Seq<u8> {
    seq![((name.len() + 1) % 256) as u8, 0x09u8] + name + seq![0x02u8, 0x01u8, flags]
}

/// `AdStructure::encode_slice` on `[CompleteLocalName(name), Flags(flags)]`
/// into a zeroed buffer of `capacity` bytes, handing back the bytes it wrote.
/// Each structure is appended as its header then its payload, and an append
/// that does not fit in what is left of the buffer fails the call, so it
/// succeeds exactly when the `name.len() + 5` bytes fit.
#[verifier::external_body]
fn encode_name_and_flags(name: &[u8], flags: u8, capacity: usize) -> (r: Option<Vec<u8>>)
    ensures
        r is Some <==> name.len() + 5 <= capacity,
        r matches Some(bytes) ==> bytes@ == advertising_bytes(name@, flags),
{
    let mut buf = vec![0u8; capacity];
    let data = [AdStructure::CompleteLocalName(name), AdStructure::Flags(flags)];
    match AdStructure::encode_slice(&data, &mut buf) {
        Ok(len) => Some(buf[..len].to_vec()),
        Err(_) => None,
    }
}

/// The advertising data announcing the device `name` with `flags`, for a
/// buffer of `capacity` bytes; `None` when it does not fit there.
pub fn advertising_data(name: &[u8], flags: u8, capacity: usize) -> (data: Option<Vec<u8>>)
    ensures
        data is Some <==> name.len() + 5 <= capacity,
        data matches Some(bytes) ==> bytes@ == advertising_bytes(name@, flags),
{
    encode_name_and_flags(name, flags, capacity)
}

/// Lowest value the humidity characteristic announces as valid.
pub const HUMIDITY_MIN: u8 = 0;

/// Highest value the humidity characteristic announces as valid.
pub const HUMIDITY_MAX: u8 = 100;

/// The humidity service (uuid 0x1234): its characteristic (uuid 0x1235,
/// read and notify) holds the relative humidity in %.
#[derive(Clone, Copy, Debug, PartialEq, Eq)]
pub struct HumidityService {
    pub relative: u8,
}

/// The attribute server.
#[derive(Clone, Copy, Debug, PartialEq, Eq)]
pub struct Server {
    pub humidity: HumidityService,
}

/// A request from the connected client.
#[derive(Clone, Copy, Debug, PartialEq, Eq)]
pub enum GattRequest {
    Read { handle: u16 },
    Write { handle: u16 },
    Other,
}

/// Why a request is refused.
#[derive(Clone, Copy, Debug, PartialEq, Eq)]
pub enum AttError {
    InvalidHandle,
    WriteNotPermitted,
    RequestNotSupported,
}

/// The answer to a request.
#[derive(Clone, Copy, Debug, PartialEq, Eq)]
pub enum GattReply {
    Accept,
    Reject(AttError),
}

/// The answer to `request` when the humidity characteristic has the handle
/// `humidity_handle`.
pub open spec fn reply_to(request: GattRequest, humidity_handle: u16) -> GattReply {
    match request {
        GattRequest::Read { handle } => if handle == humidity_handle {
            GattReply::Accept
        } else {
            GattReply::Reject(AttError::InvalidHandle)
        },
        GattRequest::Write { .. } => GattReply::Reject(AttError::WriteNotPermitted),
        GattRequest::Other => GattReply::Reject(AttError::RequestNotSupported),
    }
}

impl Server {
    /// A server whose humidity reads 0 until a reading arrives.
    pub fn new() -> (s: Self)
        ensures
            s.humidity.relative == 0,
    {
        Server { humidity: HumidityService { relative: 0 } }
    }

    /// Answers `request`. A read of the humidity first takes the latest
    /// reading, when there is one; the characteristic cannot be written, and
    /// nothing else is supported.
    pub fn respond(&mut self, request: GattRequest, humidity_handle: u16, latest: Option<u8>) -> (reply: GattReply)
        ensures
            reply == reply_to(request, humidity_handle),
            final(self).humidity.relative == (match (request, latest) {
                (GattRequest::Read { handle }, Some(v)) => if handle == humidity_handle {
                    v
                } else {
                    old(self).humidity.relative
                },
                _ => old(self).humidity.relative,
            }),
    {
        match request {
            GattRequest::Read { handle } => {
                if handle == humidity_handle {
                    if let Some(v) = latest {
                        self.humidity.relative = v;
                    }
                    GattReply::Accept
                } else {
                    GattReply::Reject(AttError::InvalidHandle)
                }
            },
            GattRequest::Write { .. } => GattReply::Reject(AttError::WriteNotPermitted),
            GattRequest::Other => GattReply::Reject(AttError::RequestNotSupported),
        }
    }
}

/// The client can only read the humidity: every other request is refused.
pub proof fn lemma_only_reads_accepted(request: GattRequest, humidity_handle: u16)
    ensures
        reply_to(request, humidity_handle) == GattReply::Accept <==> request == (GattRequest::Read {
            handle: humidity_handle,
        }),
{
}

} // verus!
