//! The register map of the sensor and the bytes of its bus transactions.
//!
//! The sensor answers at one 7-bit address. A register is named by a 16-bit
//! address and holds 16 bits; both travel most significant byte first.

use vstd::prelude::*;
use crate::error::BusError;

verus! {

/// The 7-bit bus address of the sensor.
pub const CAM_ADDR: u8 = 0x33;

/// The status register: subpage in bit 0, "new data" in bit 3.
pub const REGISTER_STATUS: u16 = 0x8000;

/// The first control register: refresh rate in bits 7 to 9, resolution in
/// bits 10 and 11.
pub const REGISTER_CTRL: u16 = 0x800D;

/// The first word of the pixel memory.
pub const ADDRESS_RAM: u16 = 0x0400;

/// The first word of the calibration block.
pub const ADDRESS_EEPROM: u16 = 0x2410;

/// The base-emitter voltage of the ambient temperature sensor.
pub const REGISTER_V_BE: u16 = 0x0700;

/// The compensation pixel of subpage 0.
pub const REGISTER_CP_SP0: u16 = 0x0708;

/// The gain of the sensor.
pub const REGISTER_GAIN: u16 = 0x070A;

/// The voltage of the ambient temperature sensor.
pub const REGISTER_V_PTAT: u16 = 0x0720;

/// The compensation pixel of subpage 1.
pub const REGISTER_CP_SP1: u16 = 0x0728;

/// The supply voltage.
pub const REGISTER_VDD: u16 = 0x072A;

/// The two bytes of a 16-bit number, most significant first.
pub open spec fn be_bytes(value: u16) -> Seq<u8> {
    seq![(value / 256) as u8, (value % 256) as u8]
}

/// The 16-bit number that two bytes give, most significant first.
pub open spec fn be_value(bytes: Seq<u8>) -> int {
    bytes[0] * 256 + bytes[1]
}

/// The two bytes of a 16-bit number, most significant first.
fn to_be_bytes(value: u16) -> (bytes: [u8; 2])
    ensures
        bytes@ == be_bytes(value),
{
    let bytes: [u8; 2] = [(value / 256) as u8, (value % 256) as u8];
    assert(bytes@ =~= be_bytes(value));
    bytes
}

/// The bytes that go to the sensor to write `data` to the register at
/// `address`: the address, then the data.
pub fn write_request(address: u16, data: u16) -> (buffer: [u8; 4])
    ensures
        buffer@ == be_bytes(address) + be_bytes(data),
{
    let high = to_be_bytes(address);
    let low = to_be_bytes(data);
    let buffer: [u8; 4] = [high[0], high[1], low[0], low[1]];
    assert(buffer@ =~= be_bytes(address) + be_bytes(data));
    buffer
}

/// The bytes that go to the sensor before it is read from `address` on.
pub fn read_request(address: u16) -> (buffer: [u8; 2])
    ensures
        buffer@ == be_bytes(address),
{
    to_be_bytes(address)
}

/// The value of a register from the outcome of reading its two bytes: a
/// failed read is handed on as it is.
pub fn read_value(response: Result<[u8; 2], BusError>) -> (value: Result<u16, BusError>)
    ensures
        match response {
            Ok(read_buffer) => value == Ok::<u16, BusError>(be_value(read_buffer@) as u16),
            Err(error) => value == Err::<u16, BusError>(error),
        },
{
    match response {
        Ok(read_buffer) => Ok(read_buffer[0] as u16 * 256 + read_buffer[1] as u16),
        Err(error) => Err(error),
    }
}

/// Taking a number apart into bytes and putting the bytes together again
/// gives the number.
pub proof fn lemma_be_round_trip(value: u16)
    ensures
        be_value(be_bytes(value)) == value,
{
}

} // verus!
