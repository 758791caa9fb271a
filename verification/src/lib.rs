//! A codec for RIP routing-update packets, versions 1 and 2.
//!
//! Every decoder takes a cursor and a buffer and hands back the decoded value
//! with the next cursor; every encoder hands back the bytes of one value.

pub mod address_family;
pub mod big_endian;
pub mod byte_reader;
pub mod command;
pub mod header;
pub mod ipv4;
pub mod metric;
pub mod packet;
pub mod parser;
pub mod round_trip;
pub mod route_tag;
pub mod serializer;
pub mod v1;
pub mod v2;
pub mod version;
pub mod zero_bytes;
