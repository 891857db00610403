//! Protocol constants and status/error code enums for the UFT wire format.

use vstd::prelude::*;

verus! {

/// Fixed datagram budget: every packet fits in this many bytes.
pub const UFT_BUFFER_SIZE: usize = 4096;
/// Default maximum number of concurrently served clients.
pub const UFT_SERVER_MAX_SYM: usize = 16;
/// Bound on a session's inbound packet queue.
pub const UTF_SERVER_MAX_LISTENER_BLOCKS: usize = 64;
/// Payload bytes per data block: the datagram budget minus the nine-byte
/// header (one status byte plus an eight-byte sequence number).
pub const UFT_DATA_SIZE: usize = UFT_BUFFER_SIZE - 9;

/// A file name that fits the wire format: at most 127 bytes, none of them
/// the zero terminator.
pub open spec fn valid_name(name: Seq<u8>) -> bool {
    &&& name.len() <= 127
    &&& forall|i: int| 0 <= i < name.len() ==> name[i] != 0
}

/// Client-originated status bytes; they occupy the low nibble.
#[allow(non_camel_case_types)]
#[derive(Clone, Copy, PartialEq, Eq, Structural, Debug)]
pub enum UftClientStatus {
    FILE_REQUEST,
    META_RECEIVED,
    BLOCK_REQUEST,
    FILE_RECEIVED,
    HASH_VALID,
    CLIENT_ERROR,
}

impl UftClientStatus {
    /// The wire value of this status.
    pub open spec fn spec_byte(self) -> u8 {
        match self {
            UftClientStatus::FILE_REQUEST => 0x00,
            UftClientStatus::META_RECEIVED => 0x01,
            UftClientStatus::BLOCK_REQUEST => 0x02,
            UftClientStatus::FILE_RECEIVED => 0x03,
            UftClientStatus::HASH_VALID => 0x04,
            UftClientStatus::CLIENT_ERROR => 0x0F,
        }
    }

    pub fn byte(self) -> (r: u8)
        ensures
            r == self.spec_byte(),
    {
        match self {
            UftClientStatus::FILE_REQUEST => 0x00,
            UftClientStatus::META_RECEIVED => 0x01,
            UftClientStatus::BLOCK_REQUEST => 0x02,
            UftClientStatus::FILE_RECEIVED => 0x03,
            UftClientStatus::HASH_VALID => 0x04,
            UftClientStatus::CLIENT_ERROR => 0x0F,
        }
    }
}

/// Error codes a client reports to the server.
#[allow(non_camel_case_types)]
#[derive(Clone, Copy, PartialEq, Eq, Structural, Debug)]
pub enum UftClientError {
    /// The hash of the received file does not match the hash sent for validation.
    FILE_HASH_INVALID,
}

impl UftClientError {
    /// The four-byte wire value of this error code.
    pub open spec fn spec_code(self) -> u32 {
        match self {
            UftClientError::FILE_HASH_INVALID => 0,
        }
    }

    pub fn code(self) -> (r: u32)
        ensures
            r == self.spec_code(),
    {
        match self {
            UftClientError::FILE_HASH_INVALID => 0,
        }
    }
}

/// Server-originated status bytes; they occupy a range distinct from the
/// client statuses, except for the shared error marker.
#[allow(non_camel_case_types)]
#[derive(Clone, Copy, PartialEq, Eq, Structural, Debug)]
pub enum UftServerStatus {
    FILE_META,
    FILE_DATA,
    FILE_COMPLETE,
    SERVER_ERROR,
}

impl UftServerStatus {
    /// The wire value of this status.
    pub open spec fn spec_byte(self) -> u8 {
        match self {
            UftServerStatus::FILE_META => 0x10,
            UftServerStatus::FILE_DATA => 0x11,
            UftServerStatus::FILE_COMPLETE => 0x12,
            UftServerStatus::SERVER_ERROR => 0x0F,
        }
    }

    pub fn byte(self) -> (r: u8)
        ensures
            r == self.spec_byte(),
    {
        match self {
            UftServerStatus::FILE_META => 0x10,
            UftServerStatus::FILE_DATA => 0x11,
            UftServerStatus::FILE_COMPLETE => 0x12,
            UftServerStatus::SERVER_ERROR => 0x0F,
        }
    }
}

/// Error codes the server reports to a client.
#[allow(non_camel_case_types)]
#[derive(Clone, Copy, PartialEq, Eq, Structural, Debug)]
pub enum UftServerError {
    /// The received hash of the file metadata does not match the original.
    META_HASH_INVALID,
    /// The requested file could not be opened or statted.
    FILE_UNAVAILABLE,
    /// A new request arrived while the registry was at its admission bound.
    CAPACITY_EXCEEDED,
}

impl UftServerError {
    /// The four-byte wire value of this error code.
    pub open spec fn spec_code(self) -> u32 {
        match self {
            UftServerError::META_HASH_INVALID => 0,
            UftServerError::FILE_UNAVAILABLE => 1,
            UftServerError::CAPACITY_EXCEEDED => 2,
        }
    }

    pub fn code(self) -> (r: u32)
        ensures
            r == self.spec_code(),
    {
        match self {
            UftServerError::META_HASH_INVALID => 0,
            UftServerError::FILE_UNAVAILABLE => 1,
            UftServerError::CAPACITY_EXCEEDED => 2,
        }
    }
}

} // verus!
