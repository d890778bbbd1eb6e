//! Layout of the six-byte CCSDS primary header (bit 0 is the most significant
//! bit of byte 0).
use vstd::prelude::*;

verus! {

/// First bit of the version number.
pub const VERSION_NUMBER_BIT_POS: usize = 0;
/// Bits of the version number.
pub const VERSION_NUMBER_BIT_LENGTH: usize = 3;

/// First bit of the packet type (0 telemetry, 1 telecommand).
pub const PACKET_TYPE_BIT_POS: usize = 3;
/// Bits of the packet type (0 telemetry, 1 telecommand).
pub const PACKET_TYPE_BIT_LENGTH: usize = 1;

/// First bit of the secondary header flag.
pub const DATA_FIELD_HEADER_FLAG_BIT_POS: usize = 4;
/// Bits of the secondary header flag.
pub const DATA_FIELD_HEADER_FLAG_BIT_LENGTH: usize = 1;

/// First bit of the application process identifier.
pub const APPLICATION_PROCESS_ID_BIT_POS: usize = 5;
/// Bits of the application process identifier.
pub const APPLICATION_PROCESS_ID_BIT_LENGTH: usize = 11;

/// First bit of the segmentation flags.
pub const SEGMENTATION_FLAGS_BIT_POS: usize = 16;
/// Bits of the segmentation flags.
pub const SEGMENTATION_FLAGS_BIT_LENGTH: usize = 2;

/// First bit of the sequence count.
pub const SEQUENCE_CONTROL_COUNT_BIT_POS: usize = 18;
/// Bits of the sequence count.
pub const SEQUENCE_CONTROL_COUNT_BIT_LENGTH: usize = 14;

/// First byte of the packet length.
pub const PACKET_LENGTH_BYTE_POS: usize = 4;
/// Bytes of the packet length.
pub const PACKET_LENGTH_BYTE_LENGTH: usize = 2;

} // verus!
