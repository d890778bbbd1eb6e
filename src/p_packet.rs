//! PUS packets: CCSDS space packets that follow the Packet Utilization Standard.
use crate::c_packet::{fresh_packet, PacketIntf, MAX_PACKET_SIZE, PRIMARY_HEADER_BYTE_SIZE};
use crate::du::{DUintf, HybridVector};
use vstd::prelude::*;

verus! {


/// A PUS packet: a data unit read as a primary header followed by the data field.
pub struct Packet<'a> {
    buffer: HybridVector<'a>,
}

impl<'a> DUintf for Packet<'a> {
    closed spec fn data(&self) -> Seq<u8> {
        self.buffer.bytes()
    }

    closed spec fn writable(&self) -> bool {
        self.buffer.is_writable()
    }

    closed spec fn resizable(&self) -> bool {
        self.buffer.is_owner()
    }

    fn buffer_read_only(&self) -> (r: &[u8]) {
        self.buffer.read_only()
    }

    fn buffer_read_write(&mut self) -> (r: &mut [u8]) {
        self.buffer.read_write()
    }

    fn resize(&mut self, new_size: usize) {
        self.buffer.resize(new_size);
    }
}

impl<'a> PacketIntf for Packet<'a> {

}

impl<'a> Packet<'a> {
    /// The smallest packet: a zero header and one zero data byte, with the
    /// packet length set.
    pub fn new() -> (r: Packet<'a>)
        ensures
            r.data() == fresh_packet((PRIMARY_HEADER_BYTE_SIZE + 1) as nat),
            r.writable(),
            r.resizable(),
    {
        Packet::new_alloc(PRIMARY_HEADER_BYTE_SIZE + 1)
    }

    /// An owned copy of `value`.
    pub fn new_clone(value: &Vec<u8>) -> (r: Packet<'a>)
        ensures
            r.data() == value@,
            r.writable(),
            r.resizable(),
    {
        Packet { buffer: HybridVector::new_clone(value) }
    }

    /// A packet of `size` zero bytes with the packet length set.
    pub fn new_alloc(size: usize) -> (r: Packet<'a>)
        requires
            PRIMARY_HEADER_BYTE_SIZE + 1 <= size <= MAX_PACKET_SIZE,
        ensures
            r.data() == fresh_packet(size as nat),
            r.writable(),
            r.resizable(),
    {
        let mut packet = Packet { buffer: HybridVector::new_alloc(size) };
        let _ = packet.set_packet_length();
        packet
    }

    /// Takes ownership of `value`.
    pub fn new_owner(value: Vec<u8>) -> (r: Packet<'a>)
        ensures
            r.data() == value@,
            r.writable(),
            r.resizable(),
    {
        Packet { buffer: HybridVector::new_owner(value) }
    }

    /// Borrows `reference` for reading only.
    pub fn new_read_only(reference: &'a [u8]) -> (r: Packet<'a>)
        ensures
            r.data() == reference@,
            !r.writable(),
            !r.resizable(),
    {
        Packet { buffer: HybridVector::new_read_only(reference) }
    }

    /// Borrows `reference` for reading and writing; its size is fixed.
    pub fn new_read_write(reference: &'a mut [u8]) -> (r: Packet<'a>)
        ensures
            r.data() == old(reference)@,
            r.writable(),
            !r.resizable(),
    {
        Packet { buffer: HybridVector::new_read_write(reference) }
    }
}

impl<'a> core::ops::Index<usize> for Packet<'a> {
    type Output = u8;

    fn index(&self, pos: usize) -> (r: &u8) {
        self.at(pos)
    }
}

impl<'a> vstd::std_specs::core::IndexSpecImpl<usize> for Packet<'a> {
    open spec fn index_req(&self, pos: &usize) -> bool {
        *pos < self.data().len()
    }
}

/// A PUS telemetry packet: a data unit read as a primary header followed by the data field.
pub struct TMpacket<'a> {
    buffer: HybridVector<'a>,
}

impl<'a> DUintf for TMpacket<'a> {
    closed spec fn data(&self) -> Seq<u8> {
        self.buffer.bytes()
    }

    closed spec fn writable(&self) -> bool {
        self.buffer.is_writable()
    }

    closed spec fn resizable(&self) -> bool {
        self.buffer.is_owner()
    }

    fn buffer_read_only(&self) -> (r: &[u8]) {
        self.buffer.read_only()
    }

    fn buffer_read_write(&mut self) -> (r: &mut [u8]) {
        self.buffer.read_write()
    }

    fn resize(&mut self, new_size: usize) {
        self.buffer.resize(new_size);
    }
}

impl<'a> PacketIntf for TMpacket<'a> {

}

impl<'a> TMpacket<'a> {
    /// The smallest packet: a zero header and one zero data byte, with the
    /// packet length set.
    pub fn new() -> (r: TMpacket<'a>)
        ensures
            r.data() == fresh_packet((PRIMARY_HEADER_BYTE_SIZE + 1) as nat),
            r.writable(),
            r.resizable(),
    {
        TMpacket::new_alloc(PRIMARY_HEADER_BYTE_SIZE + 1)
    }

    /// An owned copy of `value`.
    pub fn new_clone(value: &Vec<u8>) -> (r: TMpacket<'a>)
        ensures
            r.data() == value@,
            r.writable(),
            r.resizable(),
    {
        TMpacket { buffer: HybridVector::new_clone(value) }
    }

    /// A packet of `size` zero bytes with the packet length set.
    pub fn new_alloc(size: usize) -> (r: TMpacket<'a>)
        requires
            PRIMARY_HEADER_BYTE_SIZE + 1 <= size <= MAX_PACKET_SIZE,
        ensures
            r.data() == fresh_packet(size as nat),
            r.writable(),
            r.resizable(),
    {
        let mut packet = TMpacket { buffer: HybridVector::new_alloc(size) };
        let _ = packet.set_packet_length();
        packet
    }

    /// Takes ownership of `value`.
    pub fn new_owner(value: Vec<u8>) -> (r: TMpacket<'a>)
        ensures
            r.data() == value@,
            r.writable(),
            r.resizable(),
    {
        TMpacket { buffer: HybridVector::new_owner(value) }
    }

    /// Borrows `reference` for reading only.
    pub fn new_read_only(reference: &'a [u8]) -> (r: TMpacket<'a>)
        ensures
            r.data() == reference@,
            !r.writable(),
            !r.resizable(),
    {
        TMpacket { buffer: HybridVector::new_read_only(reference) }
    }

    /// Borrows `reference` for reading and writing; its size is fixed.
    pub fn new_read_write(reference: &'a mut [u8]) -> (r: TMpacket<'a>)
        ensures
            r.data() == old(reference)@,
            r.writable(),
            !r.resizable(),
    {
        TMpacket { buffer: HybridVector::new_read_write(reference) }
    }
}

impl<'a> core::ops::Index<usize> for TMpacket<'a> {
    type Output = u8;

    fn index(&self, pos: usize) -> (r: &u8) {
        self.at(pos)
    }
}

impl<'a> vstd::std_specs::core::IndexSpecImpl<usize> for TMpacket<'a> {
    open spec fn index_req(&self, pos: &usize) -> bool {
        *pos < self.data().len()
    }
}

/// A PUS telecommand packet: a data unit read as a primary header followed by the data field.
pub struct TCpacket<'a> {
    buffer: HybridVector<'a>,
}

impl<'a> DUintf for TCpacket<'a> {
    closed spec fn data(&self) -> Seq<u8> {
        self.buffer.bytes()
    }

    closed spec fn writable(&self) -> bool {
        self.buffer.is_writable()
    }

    closed spec fn resizable(&self) -> bool {
        self.buffer.is_owner()
    }

    fn buffer_read_only(&self) -> (r: &[u8]) {
        self.buffer.read_only()
    }

    fn buffer_read_write(&mut self) -> (r: &mut [u8]) {
        self.buffer.read_write()
    }

    fn resize(&mut self, new_size: usize) {
        self.buffer.resize(new_size);
    }
}

impl<'a> PacketIntf for TCpacket<'a> {

}

impl<'a> TCpacket<'a> {
    /// The smallest packet: a zero header and one zero data byte, with the
    /// packet length set.
    pub fn new() -> (r: TCpacket<'a>)
        ensures
            r.data() == fresh_packet((PRIMARY_HEADER_BYTE_SIZE + 1) as nat),
            r.writable(),
            r.resizable(),
    {
        TCpacket::new_alloc(PRIMARY_HEADER_BYTE_SIZE + 1)
    }

    /// An owned copy of `value`.
    pub fn new_clone(value: &Vec<u8>) -> (r: TCpacket<'a>)
        ensures
            r.data() == value@,
            r.writable(),
            r.resizable(),
    {
        TCpacket { buffer: HybridVector::new_clone(value) }
    }

    /// A packet of `size` zero bytes with the packet length set.
    pub fn new_alloc(size: usize) -> (r: TCpacket<'a>)
        requires
            PRIMARY_HEADER_BYTE_SIZE + 1 <= size <= MAX_PACKET_SIZE,
        ensures
            r.data() == fresh_packet(size as nat),
            r.writable(),
            r.resizable(),
    {
        let mut packet = TCpacket { buffer: HybridVector::new_alloc(size) };
        let _ = packet.set_packet_length();
        packet
    }

    /// Takes ownership of `value`.
    pub fn new_owner(value: Vec<u8>) -> (r: TCpacket<'a>)
        ensures
            r.data() == value@,
            r.writable(),
            r.resizable(),
    {
        TCpacket { buffer: HybridVector::new_owner(value) }
    }

    /// Borrows `reference` for reading only.
    pub fn new_read_only(reference: &'a [u8]) -> (r: TCpacket<'a>)
        ensures
            r.data() == reference@,
            !r.writable(),
            !r.resizable(),
    {
        TCpacket { buffer: HybridVector::new_read_only(reference) }
    }

    /// Borrows `reference` for reading and writing; its size is fixed.
    pub fn new_read_write(reference: &'a mut [u8]) -> (r: TCpacket<'a>)
        ensures
            r.data() == old(reference)@,
            r.writable(),
            !r.resizable(),
    {
        TCpacket { buffer: HybridVector::new_read_write(reference) }
    }
}

impl<'a> core::ops::Index<usize> for TCpacket<'a> {
    type Output = u8;

    fn index(&self, pos: usize) -> (r: &u8) {
        self.at(pos)
    }
}

impl<'a> vstd::std_specs::core::IndexSpecImpl<usize> for TCpacket<'a> {
    open spec fn index_req(&self, pos: &usize) -> bool {
        *pos < self.data().len()
    }
}


} // verus!
