//! The values of the device API's enumerants and bits that the library
//! names.

use vstd::prelude::*;

verus! {

pub const STREAM_DRAW: u32 = 0x88E0;

pub const STREAM_READ: u32 = 0x88E1;

pub const STREAM_COPY: u32 = 0x88E2;

pub const STATIC_DRAW: u32 = 0x88E4;

pub const STATIC_READ: u32 = 0x88E5;

pub const STATIC_COPY: u32 = 0x88E6;

pub const DYNAMIC_DRAW: u32 = 0x88E8;

pub const DYNAMIC_READ: u32 = 0x88E9;

pub const DYNAMIC_COPY: u32 = 0x88EA;

pub const ARRAY_BUFFER: u32 = 0x8892;

pub const ELEMENT_ARRAY_BUFFER: u32 = 0x8893;

pub const SHADER_STORAGE_BUFFER: u32 = 0x90D2;

pub const UNIFORM_BUFFER: u32 = 0x8A11;

pub const BYTE: u32 = 0x1400;

pub const UNSIGNED_BYTE: u32 = 0x1401;

pub const INT: u32 = 0x1404;

pub const UNSIGNED_INT: u32 = 0x1405;

pub const FLOAT: u32 = 0x1406;

pub const MAP_READ_BIT: u32 = 0x0001;

pub const MAP_WRITE_BIT: u32 = 0x0002;

pub const MAP_PERSISTENT_BIT: u32 = 0x0040;

pub const MAP_COHERENT_BIT: u32 = 0x0080;

pub const DYNAMIC_STORAGE_BIT: u32 = 0x0100;

pub const CLIENT_STORAGE_BIT: u32 = 0x0200;

} // verus!
