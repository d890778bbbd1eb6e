//! Bit-exact access to CCSDS space packets: a field buffer over owned or
//! borrowed bytes, the CRC-16 trailer, and the CUC time codes.
pub mod exception;
pub mod du;
pub mod text;
pub mod crc;
pub mod xtime;
pub mod cuc_time;
pub mod primary_header;
pub mod c_packet;
pub mod p_packet;
pub mod ccsds_time;
