//! CCSDS space packets: the primary header fields, the packet length and the
//! CRC-16 trailer, and CUC time fields inside a packet.
use crate::crc::{calculate16, crc16};
use crate::cuc_time::{embeds_p_field, full_data_size, has_p_field, is_time_code, is_valid_p_field, Time};
use crate::du::{
    be_bytes, be_value, bits_read, bits_written, span_fits, splice, unsigned_read, unsigned_written,
    DUintf, HybridVector,
};
use crate::exception::{raise, ErrorKind, Exception};
use crate::primary_header::{
    VERSION_NUMBER_BIT_POS,
    VERSION_NUMBER_BIT_LENGTH,
    PACKET_TYPE_BIT_POS,
    PACKET_TYPE_BIT_LENGTH,
    DATA_FIELD_HEADER_FLAG_BIT_POS,
    DATA_FIELD_HEADER_FLAG_BIT_LENGTH,
    APPLICATION_PROCESS_ID_BIT_POS,
    APPLICATION_PROCESS_ID_BIT_LENGTH,
    SEGMENTATION_FLAGS_BIT_POS,
    SEGMENTATION_FLAGS_BIT_LENGTH,
    SEQUENCE_CONTROL_COUNT_BIT_POS,
    SEQUENCE_CONTROL_COUNT_BIT_LENGTH,
    PACKET_LENGTH_BYTE_POS,
    PACKET_LENGTH_BYTE_LENGTH,
};
use vstd::prelude::*;

verus! {

/// Packet type of telemetry.
pub const TM_PACKET_TYPE: u32 = 0;
/// Packet type of telecommands.
pub const TC_PACKET_TYPE: u32 = 1;
/// The version number of CCSDS space packets.
pub const VERSION_NUMBER: u32 = 0;
/// Segmentation flags: a continuation segment.
pub const SEGMENTATION_CONTINUATION: u32 = 0;
/// Segmentation flags: the first segment.
pub const SEGMENTATION_FIRST: u32 = 1;
/// Segmentation flags: the last segment.
pub const SEGMENTATION_LAST: u32 = 2;
/// Segmentation flags: an unsegmented packet.
pub const SEGMENTATION_NONE: u32 = 3;
/// Bytes of the CRC trailer.
pub const CRC_BYTE_SIZE: usize = 2;
/// Bytes of the primary header.
pub const PRIMARY_HEADER_BYTE_SIZE: usize = 6;
/// Bytes of the data field header.
pub const N_BYTE_SIZE: usize = 4;
/// Bytes of the telemetry data field header.
pub const TM_N_BYTE_SIZE: usize = 4;
/// Bytes of the telecommand data field header.
pub const TC_N_BYTE_SIZE: usize = 0;
/// The largest packet whose length the 16-bit length field holds.
pub const MAX_PACKET_SIZE: usize = 0xffff + 7;

/// The value of the packet length field.
pub open spec fn packet_length_of(data: Seq<u8>) -> nat {
    be_value(data.subrange(PACKET_LENGTH_BYTE_POS as int, (PACKET_LENGTH_BYTE_POS + PACKET_LENGTH_BYTE_LENGTH) as int))
}

/// The packet length field holds the buffer size minus seven (the bytes after
/// the header, minus one).
pub open spec fn length_consistent(data: Seq<u8>) -> bool {
    data.len() >= PRIMARY_HEADER_BYTE_SIZE + 1 && packet_length_of(data) == data.len() - (PRIMARY_HEADER_BYTE_SIZE + 1)
}

/// The CRC-16 of all bytes but the last two.
pub open spec fn packet_crc(data: Seq<u8>) -> u16 {
    crc16(data.take(data.len() - CRC_BYTE_SIZE))
}

/// `size` zero bytes with the packet length set to `size - 7`.
pub open spec fn fresh_packet(size: nat) -> Seq<u8> {
    splice(
        Seq::new(size, |i: int| 0u8),
        PACKET_LENGTH_BYTE_POS as int,
        be_bytes((size - (PRIMARY_HEADER_BYTE_SIZE + 1)) as nat, PACKET_LENGTH_BYTE_LENGTH as nat),
    )
}

/// A CUC time field: the byte where it starts and the time code of its format.
#[derive(Clone, Copy, Debug)]
pub struct CucTimeAccessor {
    pub byte_pos: usize,
    pub p_field: u8,
}

/// A data unit read as a CCSDS space packet.
pub trait PacketIntf: DUintf {
    /// Reads the version number.
    fn get_version_number_field(&self) -> (r: Result<u32, Exception>)
        ensures
            bits_read(self.data(), VERSION_NUMBER_BIT_POS as int, VERSION_NUMBER_BIT_LENGTH as int, r),
    {
        self.get_bits(VERSION_NUMBER_BIT_POS, VERSION_NUMBER_BIT_LENGTH)
    }

    /// Writes the version number.
    fn set_version_number_field(&mut self, value: u32) -> (r: Result<(), Exception>)
        requires
            old(self).writable(),
        ensures
            bits_written(old(self).data(), final(self).data(), VERSION_NUMBER_BIT_POS as int, VERSION_NUMBER_BIT_LENGTH as int, value, r),
            final(self).writable(),
            final(self).resizable() == old(self).resizable(),
    {
        self.set_bits(VERSION_NUMBER_BIT_POS, VERSION_NUMBER_BIT_LENGTH, value)
    }

    /// Reads the packet type (0 telemetry, 1 telecommand).
    fn get_packet_type_field(&self) -> (r: Result<u32, Exception>)
        ensures
            bits_read(self.data(), PACKET_TYPE_BIT_POS as int, PACKET_TYPE_BIT_LENGTH as int, r),
    {
        self.get_bits(PACKET_TYPE_BIT_POS, PACKET_TYPE_BIT_LENGTH)
    }

    /// Writes the packet type (0 telemetry, 1 telecommand).
    fn set_packet_type_field(&mut self, value: u32) -> (r: Result<(), Exception>)
        requires
            old(self).writable(),
        ensures
            bits_written(old(self).data(), final(self).data(), PACKET_TYPE_BIT_POS as int, PACKET_TYPE_BIT_LENGTH as int, value, r),
            final(self).writable(),
            final(self).resizable() == old(self).resizable(),
    {
        self.set_bits(PACKET_TYPE_BIT_POS, PACKET_TYPE_BIT_LENGTH, value)
    }

    /// Reads the secondary header flag.
    fn get_data_field_header_flag_field(&self) -> (r: Result<u32, Exception>)
        ensures
            bits_read(self.data(), DATA_FIELD_HEADER_FLAG_BIT_POS as int, DATA_FIELD_HEADER_FLAG_BIT_LENGTH as int, r),
    {
        self.get_bits(DATA_FIELD_HEADER_FLAG_BIT_POS, DATA_FIELD_HEADER_FLAG_BIT_LENGTH)
    }

    /// Writes the secondary header flag.
    fn set_data_field_header_flag_field(&mut self, value: u32) -> (r: Result<(), Exception>)
        requires
            old(self).writable(),
        ensures
            bits_written(old(self).data(), final(self).data(), DATA_FIELD_HEADER_FLAG_BIT_POS as int, DATA_FIELD_HEADER_FLAG_BIT_LENGTH as int, value, r),
            final(self).writable(),
            final(self).resizable() == old(self).resizable(),
    {
        self.set_bits(DATA_FIELD_HEADER_FLAG_BIT_POS, DATA_FIELD_HEADER_FLAG_BIT_LENGTH, value)
    }

    /// Reads the application process identifier.
    fn get_application_process_id_field(&self) -> (r: Result<u32, Exception>)
        ensures
            bits_read(self.data(), APPLICATION_PROCESS_ID_BIT_POS as int, APPLICATION_PROCESS_ID_BIT_LENGTH as int, r),
    {
        self.get_bits(APPLICATION_PROCESS_ID_BIT_POS, APPLICATION_PROCESS_ID_BIT_LENGTH)
    }

    /// Writes the application process identifier.
    fn set_application_process_id_field(&mut self, value: u32) -> (r: Result<(), Exception>)
        requires
            old(self).writable(),
        ensures
            bits_written(old(self).data(), final(self).data(), APPLICATION_PROCESS_ID_BIT_POS as int, APPLICATION_PROCESS_ID_BIT_LENGTH as int, value, r),
            final(self).writable(),
            final(self).resizable() == old(self).resizable(),
    {
        self.set_bits(APPLICATION_PROCESS_ID_BIT_POS, APPLICATION_PROCESS_ID_BIT_LENGTH, value)
    }

    /// Reads the segmentation flags.
    fn get_segmentation_flags_field(&self) -> (r: Result<u32, Exception>)
        ensures
            bits_read(self.data(), SEGMENTATION_FLAGS_BIT_POS as int, SEGMENTATION_FLAGS_BIT_LENGTH as int, r),
    {
        self.get_bits(SEGMENTATION_FLAGS_BIT_POS, SEGMENTATION_FLAGS_BIT_LENGTH)
    }

    /// Writes the segmentation flags.
    fn set_segmentation_flags_field(&mut self, value: u32) -> (r: Result<(), Exception>)
        requires
            old(self).writable(),
        ensures
            bits_written(old(self).data(), final(self).data(), SEGMENTATION_FLAGS_BIT_POS as int, SEGMENTATION_FLAGS_BIT_LENGTH as int, value, r),
            final(self).writable(),
            final(self).resizable() == old(self).resizable(),
    {
        self.set_bits(SEGMENTATION_FLAGS_BIT_POS, SEGMENTATION_FLAGS_BIT_LENGTH, value)
    }

    /// Reads the sequence count.
    fn get_sequence_control_count_field(&self) -> (r: Result<u32, Exception>)
        ensures
            bits_read(self.data(), SEQUENCE_CONTROL_COUNT_BIT_POS as int, SEQUENCE_CONTROL_COUNT_BIT_LENGTH as int, r),
    {
        self.get_bits(SEQUENCE_CONTROL_COUNT_BIT_POS, SEQUENCE_CONTROL_COUNT_BIT_LENGTH)
    }

    /// Writes the sequence count.
    fn set_sequence_control_count_field(&mut self, value: u32) -> (r: Result<(), Exception>)
        requires
            old(self).writable(),
        ensures
            bits_written(old(self).data(), final(self).data(), SEQUENCE_CONTROL_COUNT_BIT_POS as int, SEQUENCE_CONTROL_COUNT_BIT_LENGTH as int, value, r),
            final(self).writable(),
            final(self).resizable() == old(self).resizable(),
    {
        self.set_bits(SEQUENCE_CONTROL_COUNT_BIT_POS, SEQUENCE_CONTROL_COUNT_BIT_LENGTH, value)
    }

    /// Reads the packet length field.
    fn get_packet_length_field(&self) -> (r: Result<u32, Exception>)
        ensures
            unsigned_read(self.data(), PACKET_LENGTH_BYTE_POS as int, PACKET_LENGTH_BYTE_LENGTH as int, 4, r),
    {
        self.get_unsigned(PACKET_LENGTH_BYTE_POS, PACKET_LENGTH_BYTE_LENGTH)
    }

    /// Writes the packet length field.
    fn set_packet_length_field(&mut self, value: u32) -> (r: Result<(), Exception>)
        requires
            old(self).writable(),
        ensures
            unsigned_written(old(self).data(), final(self).data(), PACKET_LENGTH_BYTE_POS as int, PACKET_LENGTH_BYTE_LENGTH as int, value as nat, r),
            final(self).writable(),
            final(self).resizable() == old(self).resizable(),
    {
        self.set_unsigned(PACKET_LENGTH_BYTE_POS, PACKET_LENGTH_BYTE_LENGTH, value)
    }

    /// Sets the packet length field to the buffer size minus seven.
    fn set_packet_length(&mut self) -> (r: Result<(), Exception>)
        requires
            old(self).writable(),
        ensures
            match r {
                Ok(_) => PRIMARY_HEADER_BYTE_SIZE + 1 <= old(self).data().len() <= MAX_PACKET_SIZE
                    && final(self).data() == splice(old(self).data(), PACKET_LENGTH_BYTE_POS as int,
                        be_bytes((old(self).data().len() - (PRIMARY_HEADER_BYTE_SIZE + 1)) as nat, PACKET_LENGTH_BYTE_LENGTH as nat)),
                Err(e) => final(self).data() == old(self).data() && if old(self).data().len() < PRIMARY_HEADER_BYTE_SIZE + 1 {
                    e.kind == ErrorKind::BufferTooSmall
                } else {
                    old(self).data().len() > MAX_PACKET_SIZE && e.kind == ErrorKind::OutOfRange
                },
            },
            final(self).writable(),
            final(self).resizable() == old(self).resizable(),
    {
        let size = self.size();
        if size < PRIMARY_HEADER_BYTE_SIZE + 1 {
            return Err(raise(ErrorKind::BufferTooSmall, "packet size is too small"));
        }
        let length_value = size - PRIMARY_HEADER_BYTE_SIZE - 1;
        if length_value > 0xffff {
            return Err(raise(ErrorKind::OutOfRange, "packet size is too large"));
        }
        proof {
            crate::du::lemma_pow256_small(2);
        }
        self.set_packet_length_field(length_value as u32)
    }

    /// Whether the packet length field matches the buffer size; fails when
    /// the buffer is too short to hold the field.
    fn check_packet_length(&self) -> (r: Result<bool, Exception>)
        ensures
            match r {
                Ok(b) => self.data().len() >= PRIMARY_HEADER_BYTE_SIZE && b == length_consistent(self.data()),
                Err(e) => self.data().len() < PRIMARY_HEADER_BYTE_SIZE && e.kind == ErrorKind::RangeError,
            },
    {
        let field = match self.get_packet_length_field() {
            Ok(field) => field,
            Err(err) => return Err(err),
        };
        let size = self.size();
        Ok(size >= PRIMARY_HEADER_BYTE_SIZE + 1 && field as usize == size - PRIMARY_HEADER_BYTE_SIZE - 1)
    }

    /// Writes the CRC-16 of all bytes but the last two into the last two
    /// bytes, big-endian; refused when the packet length is inconsistent, and
    /// then the buffer stays as it was.
    fn set_checksum(&mut self) -> (r: Result<(), Exception>)
        requires
            old(self).writable(),
        ensures
            match r {
                Ok(_) => length_consistent(old(self).data()) && final(self).data() == splice(
                    old(self).data(),
                    old(self).data().len() - CRC_BYTE_SIZE,
                    be_bytes(packet_crc(old(self).data()) as nat, CRC_BYTE_SIZE as nat),
                ),
                Err(e) => final(self).data() == old(self).data() && if old(self).data().len() < PRIMARY_HEADER_BYTE_SIZE {
                    e.kind == ErrorKind::RangeError
                } else {
                    !length_consistent(old(self).data()) && e.kind == ErrorKind::InconsistentLength
                },
            },
            final(self).writable(),
            final(self).resizable() == old(self).resizable(),
    {
        match self.check_packet_length() {
            Err(err) => return Err(err),
            Ok(false) => return Err(raise(ErrorKind::InconsistentLength, "inconsistent packet length")),
            Ok(true) => {},
        }
        let crc_pos = self.size() - CRC_BYTE_SIZE;
        let crc = calculate16(self.buffer_read_only(), crc_pos);
        proof {
            crate::du::lemma_pow256_small(2);
        }
        self.set_unsigned(crc_pos, CRC_BYTE_SIZE, crc as u32)
    }

    /// Whether the last two bytes hold the CRC-16 of the bytes before them;
    /// false when the packet length is inconsistent.
    fn check_checksum(&self) -> (r: Result<bool, Exception>)
        ensures
            match r {
                Ok(b) => self.data().len() >= PRIMARY_HEADER_BYTE_SIZE && b == (length_consistent(self.data())
                    && be_value(self.data().subrange(self.data().len() - CRC_BYTE_SIZE, self.data().len() as int))
                    == packet_crc(self.data())),
                Err(e) => self.data().len() < PRIMARY_HEADER_BYTE_SIZE && e.kind == ErrorKind::RangeError,
            },
    {
        match self.check_packet_length() {
            Err(err) => return Err(err),
            Ok(false) => return Ok(false),
            Ok(true) => {},
        }
        let crc_pos = self.size() - CRC_BYTE_SIZE;
        let crc = calculate16(self.buffer_read_only(), crc_pos);
        match self.get_unsigned(crc_pos, CRC_BYTE_SIZE) {
            Ok(stored) => Ok(stored == crc as u32),
            Err(err) => Err(err),
        }
    }

    /// Writes `time` into the CUC time field that `acc` describes; the time
    /// must be in the field's format and the field must lie in the buffer.
    fn set_cuc_time_acc(&mut self, acc: CucTimeAccessor, time: Time) -> (r: Result<(), Exception>)
        requires
            old(self).writable(),
        ensures
            match r {
                Ok(_) => is_time_code(acc.p_field) && time.code() == acc.p_field
                    && acc.byte_pos + full_data_size(acc.p_field) <= old(self).data().len()
                    && final(self).data() == splice(old(self).data(), acc.byte_pos as int, time.encoding()),
                Err(e) => final(self).data() == old(self).data() && if !is_time_code(acc.p_field) || time.code() != acc.p_field {
                    e.kind == ErrorKind::InvalidFormatCode
                } else {
                    acc.byte_pos + full_data_size(acc.p_field) > old(self).data().len() && e.kind == ErrorKind::RangeError
                },
            },
            final(self).writable(),
            final(self).resizable() == old(self).resizable(),
    {
        if !is_valid_p_field(acc.p_field) || time.get_p_field() != acc.p_field {
            return Err(raise(ErrorKind::InvalidFormatCode, "CUC time does not match the field's p-field"));
        }
        let size = if has_p_field(acc.p_field) {
            5 + (acc.p_field % 4) as usize
        } else {
            4 + (acc.p_field % 4) as usize
        };
        if !span_fits(self.size(), acc.byte_pos, size) {
            return Err(raise(ErrorKind::RangeError, "CUC time out of buffer"));
        }
        let buffer = self.buffer_read_write();
        time.encode(buffer, acc.byte_pos);
        Ok(())
    }

    /// Reads the CUC time field that `acc` describes. Where the format embeds
    /// its selector byte, the byte in the buffer must be the field's time code.
    fn get_cuc_time_acc(&self, acc: CucTimeAccessor) -> (r: Result<Time, Exception>)
        ensures
            match r {
                Ok(t) => is_time_code(acc.p_field) && t.code() == acc.p_field
                    && acc.byte_pos + full_data_size(acc.p_field) <= self.data().len()
                    && t.encoding() == self.data().subrange(acc.byte_pos as int, acc.byte_pos + full_data_size(acc.p_field)),
                Err(e) => if !is_time_code(acc.p_field) {
                    e.kind == ErrorKind::InvalidFormatCode
                } else if acc.byte_pos + full_data_size(acc.p_field) > self.data().len() {
                    e.kind == ErrorKind::RangeError
                } else {
                    embeds_p_field(acc.p_field) && self.data()[acc.byte_pos as int] != acc.p_field
                        && e.kind == ErrorKind::InvalidFormatCode
                },
            },
    {
        if !is_valid_p_field(acc.p_field) {
            return Err(raise(ErrorKind::InvalidFormatCode, "invalid p-field for CUC time"));
        }
        let buffer = self.buffer_read_only();
        let size = if has_p_field(acc.p_field) {
            5 + (acc.p_field % 4) as usize
        } else {
            4 + (acc.p_field % 4) as usize
        };
        if !span_fits(buffer.len(), acc.byte_pos, size) {
            return Err(raise(ErrorKind::RangeError, "CUC time out of buffer"));
        }
        if has_p_field(acc.p_field) && buffer[acc.byte_pos] != acc.p_field {
            return Err(raise(ErrorKind::InvalidFormatCode, "CUC time p-field does not match"));
        }
        let bytes = vstd::slice::slice_subrange(buffer, acc.byte_pos, buffer.len());
        let time = Time::decode(bytes, acc.p_field);
        proof {
            assert(bytes@.take(size as int) =~= self.data().subrange(acc.byte_pos as int, acc.byte_pos + size));
        }
        time
    }
}


/// A CCSDS space packet: a data unit read as a primary header followed by the data field.
pub struct Packet<'a> {
    buffer: HybridVector<'a>,
}

impl<'a> DUintf for Packet<'a> {
    closed spec fn data(&self) -> Seq<u8> {
        self.buffer.bytes()
    }

    closed spec fn writable(&self) -> bool {
        self.buffer.is_writable()
    }

    closed spec fn resizable(&self) -> bool {
        self.buffer.is_owner()
    }

    fn buffer_read_only(&self) -> (r: &[u8]) {
        self.buffer.read_only()
    }

    fn buffer_read_write(&mut self) -> (r: &mut [u8]) {
        self.buffer.read_write()
    }

    fn resize(&mut self, new_size: usize) {
        self.buffer.resize(new_size);
    }
}

impl<'a> PacketIntf for Packet<'a> {

}

impl<'a> Packet<'a> {
    /// The smallest packet: a zero header and one zero data byte, with the
    /// packet length set.
    pub fn new() -> (r: Packet<'a>)
        ensures
            r.data() == fresh_packet((PRIMARY_HEADER_BYTE_SIZE + 1) as nat),
            r.writable(),
            r.resizable(),
    {
        Packet::new_alloc(PRIMARY_HEADER_BYTE_SIZE + 1)
    }

    /// An owned copy of `value`.
    pub fn new_clone(value: &Vec<u8>) -> (r: Packet<'a>)
        ensures
            r.data() == value@,
            r.writable(),
            r.resizable(),
    {
        Packet { buffer: HybridVector::new_clone(value) }
    }

    /// A packet of `size` zero bytes with the packet length set.
    pub fn new_alloc(size: usize) -> (r: Packet<'a>)
        requires
            PRIMARY_HEADER_BYTE_SIZE + 1 <= size <= MAX_PACKET_SIZE,
        ensures
            r.data() == fresh_packet(size as nat),
            r.writable(),
            r.resizable(),
    {
        let mut packet = Packet { buffer: HybridVector::new_alloc(size) };
        let _ = packet.set_packet_length();
        packet
    }

    /// Takes ownership of `value`.
    pub fn new_owner(value: Vec<u8>) -> (r: Packet<'a>)
        ensures
            r.data() == value@,
            r.writable(),
            r.resizable(),
    {
        Packet { buffer: HybridVector::new_owner(value) }
    }

    /// Borrows `reference` for reading only.
    pub fn new_read_only(reference: &'a [u8]) -> (r: Packet<'a>)
        ensures
            r.data() == reference@,
            !r.writable(),
            !r.resizable(),
    {
        Packet { buffer: HybridVector::new_read_only(reference) }
    }

    /// Borrows `reference` for reading and writing; its size is fixed.
    pub fn new_read_write(reference: &'a mut [u8]) -> (r: Packet<'a>)
        ensures
            r.data() == old(reference)@,
            r.writable(),
            !r.resizable(),
    {
        Packet { buffer: HybridVector::new_read_write(reference) }
    }
}

impl<'a> core::ops::Index<usize> for Packet<'a> {
    type Output = u8;

    fn index(&self, pos: usize) -> (r: &u8) {
        self.at(pos)
    }
}

impl<'a> vstd::std_specs::core::IndexSpecImpl<usize> for Packet<'a> {
    open spec fn index_req(&self, pos: &usize) -> bool {
        *pos < self.data().len()
    }
}

/// A telemetry packet: a data unit read as a primary header followed by the data field.
pub struct TMpacket<'a> {
    buffer: HybridVector<'a>,
}

impl<'a> DUintf for TMpacket<'a> {
    closed spec fn data(&self) -> Seq<u8> {
        self.buffer.bytes()
    }

    closed spec fn writable(&self) -> bool {
        self.buffer.is_writable()
    }

    closed spec fn resizable(&self) -> bool {
        self.buffer.is_owner()
    }

    fn buffer_read_only(&self) -> (r: &[u8]) {
        self.buffer.read_only()
    }

    fn buffer_read_write(&mut self) -> (r: &mut [u8]) {
        self.buffer.read_write()
    }

    fn resize(&mut self, new_size: usize) {
        self.buffer.resize(new_size);
    }
}

impl<'a> PacketIntf for TMpacket<'a> {

}

impl<'a> TMpacket<'a> {
    /// The smallest packet: a zero header and one zero data byte, with the
    /// packet length set.
    pub fn new() -> (r: TMpacket<'a>)
        ensures
            r.data() == fresh_packet((PRIMARY_HEADER_BYTE_SIZE + 1) as nat),
            r.writable(),
            r.resizable(),
    {
        TMpacket::new_alloc(PRIMARY_HEADER_BYTE_SIZE + 1)
    }

    /// An owned copy of `value`.
    pub fn new_clone(value: &Vec<u8>) -> (r: TMpacket<'a>)
        ensures
            r.data() == value@,
            r.writable(),
            r.resizable(),
    {
        TMpacket { buffer: HybridVector::new_clone(value) }
    }

    /// A packet of `size` zero bytes with the packet length set.
    pub fn new_alloc(size: usize) -> (r: TMpacket<'a>)
        requires
            PRIMARY_HEADER_BYTE_SIZE + 1 <= size <= MAX_PACKET_SIZE,
        ensures
            r.data() == fresh_packet(size as nat),
            r.writable(),
            r.resizable(),
    {
        let mut packet = TMpacket { buffer: HybridVector::new_alloc(size) };
        let _ = packet.set_packet_length();
        packet
    }

    /// Takes ownership of `value`.
    pub fn new_owner(value: Vec<u8>) -> (r: TMpacket<'a>)
        ensures
            r.data() == value@,
            r.writable(),
            r.resizable(),
    {
        TMpacket { buffer: HybridVector::new_owner(value) }
    }

    /// Borrows `reference` for reading only.
    pub fn new_read_only(reference: &'a [u8]) -> (r: TMpacket<'a>)
        ensures
            r.data() == reference@,
            !r.writable(),
            !r.resizable(),
    {
        TMpacket { buffer: HybridVector::new_read_only(reference) }
    }

    /// Borrows `reference` for reading and writing; its size is fixed.
    pub fn new_read_write(reference: &'a mut [u8]) -> (r: TMpacket<'a>)
        ensures
            r.data() == old(reference)@,
            r.writable(),
            !r.resizable(),
    {
        TMpacket { buffer: HybridVector::new_read_write(reference) }
    }
}

impl<'a> core::ops::Index<usize> for TMpacket<'a> {
    type Output = u8;

    fn index(&self, pos: usize) -> (r: &u8) {
        self.at(pos)
    }
}

impl<'a> vstd::std_specs::core::IndexSpecImpl<usize> for TMpacket<'a> {
    open spec fn index_req(&self, pos: &usize) -> bool {
        *pos < self.data().len()
    }
}

/// A telecommand packet: a data unit read as a primary header followed by the data field.
pub struct TCpacket<'a> {
    buffer: HybridVector<'a>,
}

impl<'a> DUintf for TCpacket<'a> {
    closed spec fn data(&self) -> Seq<u8> {
        self.buffer.bytes()
    }

    closed spec fn writable(&self) -> bool {
        self.buffer.is_writable()
    }

    closed spec fn resizable(&self) -> bool {
        self.buffer.is_owner()
    }

    fn buffer_read_only(&self) -> (r: &[u8]) {
        self.buffer.read_only()
    }

    fn buffer_read_write(&mut self) -> (r: &mut [u8]) {
        self.buffer.read_write()
    }

    fn resize(&mut self, new_size: usize) {
        self.buffer.resize(new_size);
    }
}

impl<'a> PacketIntf for TCpacket<'a> {

}

impl<'a> TCpacket<'a> {
    /// The smallest packet: a zero header and one zero data byte, with the
    /// packet length set.
    pub fn new() -> (r: TCpacket<'a>)
        ensures
            r.data() == fresh_packet((PRIMARY_HEADER_BYTE_SIZE + 1) as nat),
            r.writable(),
            r.resizable(),
    {
        TCpacket::new_alloc(PRIMARY_HEADER_BYTE_SIZE + 1)
    }

    /// An owned copy of `value`.
    pub fn new_clone(value: &Vec<u8>) -> (r: TCpacket<'a>)
        ensures
            r.data() == value@,
            r.writable(),
            r.resizable(),
    {
        TCpacket { buffer: HybridVector::new_clone(value) }
    }

    /// A packet of `size` zero bytes with the packet length set.
    pub fn new_alloc(size: usize) -> (r: TCpacket<'a>)
        requires
            PRIMARY_HEADER_BYTE_SIZE + 1 <= size <= MAX_PACKET_SIZE,
        ensures
            r.data() == fresh_packet(size as nat),
            r.writable(),
            r.resizable(),
    {
        let mut packet = TCpacket { buffer: HybridVector::new_alloc(size) };
        let _ = packet.set_packet_length();
        packet
    }

    /// Takes ownership of `value`.
    pub fn new_owner(value: Vec<u8>) -> (r: TCpacket<'a>)
        ensures
            r.data() == value@,
            r.writable(),
            r.resizable(),
    {
        TCpacket { buffer: HybridVector::new_owner(value) }
    }

    /// Borrows `reference` for reading only.
    pub fn new_read_only(reference: &'a [u8]) -> (r: TCpacket<'a>)
        ensures
            r.data() == reference@,
            !r.writable(),
            !r.resizable(),
    {
        TCpacket { buffer: HybridVector::new_read_only(reference) }
    }

    /// Borrows `reference` for reading and writing; its size is fixed.
    pub fn new_read_write(reference: &'a mut [u8]) -> (r: TCpacket<'a>)
        ensures
            r.data() == old(reference)@,
            r.writable(),
            !r.resizable(),
    {
        TCpacket { buffer: HybridVector::new_read_write(reference) }
    }
}

impl<'a> core::ops::Index<usize> for TCpacket<'a> {
    type Output = u8;

    fn index(&self, pos: usize) -> (r: &u8) {
        self.at(pos)
    }
}

impl<'a> vstd::std_specs::core::IndexSpecImpl<usize> for TCpacket<'a> {
    open spec fn index_req(&self, pos: &usize) -> bool {
        *pos < self.data().len()
    }
}


} // verus!
