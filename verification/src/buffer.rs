//! Little-endian codecs between fixed-width integers and byte buffers.
//!
//! Each writer appends the little-endian bytes of a value at a caller-chosen
//! offset of a buffer and advances the offset; each reader does the reverse.
//! A write or read that would run past the end of the buffer leaves buffer
//! and offset untouched and reports an error.

use vstd::prelude::*;

verus! {

/// Errors reported by the buffer codecs.
#[derive(Debug, Clone, Copy, PartialEq, Eq, Structural)]
pub enum DataBufferErrors {
    NotEnoughRoomInBuffer,
    ConversionWouldOverflow,
}

/// `s` with `d` written over its contents starting at index `at`.
pub open spec fn splice(s: Seq<u8>, at: int, d: Seq<u8>) -> Seq<u8> {
    s.take(at) + d + s.skip(at + d.len())
}

/// The little-endian bytes of a 32-bit value, least significant first.
pub open spec fn u32_le_bytes(x: u32) -> Seq<u8> {
    seq![
        (x & 0xFF) as u8,
        ((x >> 8) & 0xFF) as u8,
        ((x >> 16) & 0xFF) as u8,
        ((x >> 24) & 0xFF) as u8,
    ]
}

/// The 32-bit value read from four little-endian bytes.
pub open spec fn u32_from_le_bytes(b0: u8, b1: u8, b2: u8, b3: u8) -> u32 {
    (b0 as u32) | ((b1 as u32) << 8) | ((b2 as u32) << 16) | ((b3 as u32) << 24)
}

/// The little-endian bytes of a 16-bit value, least significant first.
pub open spec fn u16_le_bytes(x: u16) -> Seq<u8> {
    seq![(x & 0xFF) as u8, ((x >> 8) & 0xFF) as u8]
}

/// The 16-bit value read from two little-endian bytes.
pub open spec fn u16_from_le_bytes(b0: u8, b1: u8) -> u16 {
    (b0 as u16) | ((b1 as u16) << 8)
}

/// Reading back the bytes of a 32-bit value gives the value again.
pub proof fn lemma_u32_le_round_trip(x: u32)
    ensures
        u32_from_le_bytes(
            (x & 0xFF) as u8,
            ((x >> 8) & 0xFF) as u8,
            ((x >> 16) & 0xFF) as u8,
            ((x >> 24) & 0xFF) as u8,
        ) == x,
{
    assert(((x & 0xFF) as u8 as u32) | ((((x >> 8) & 0xFF) as u8 as u32) << 8)
        | ((((x >> 16) & 0xFF) as u8 as u32) << 16) | ((((x >> 24) & 0xFF) as u8 as u32) << 24)
        == x) by (bit_vector);
}

/// Reading back the bytes of a 16-bit value gives the value again.
pub proof fn lemma_u16_le_round_trip(x: u16)
    ensures
        u16_from_le_bytes((x & 0xFF) as u8, ((x >> 8) & 0xFF) as u8) == x,
{
    assert(((x & 0xFF) as u8 as u16) | ((((x >> 8) & 0xFF) as u8 as u16) << 8) == x)
        by (bit_vector);
}

/// Convert a u32 to a little-endian byte array and add it to a buffer
pub fn u32_to_le_buffer(data: u32, buffer: &mut Vec<u8>, offset: &mut usize) -> (r: Result<
    (),
    DataBufferErrors,
>)
    ensures
        *old(offset) + 4 <= old(buffer)@.len() ==> {
            &&& r == Ok::<(), DataBufferErrors>(())
            &&& *final(offset) == *old(offset) + 4
            &&& final(buffer)@ == splice(old(buffer)@, *old(offset) as int, u32_le_bytes(data))
        },
        *old(offset) + 4 > old(buffer)@.len() ==> {
            &&& r == Err::<(), DataBufferErrors>(DataBufferErrors::NotEnoughRoomInBuffer)
            &&& *final(offset) == *old(offset)
            &&& final(buffer)@ == old(buffer)@
        },
{
    if *offset >= buffer.len() || buffer.len() - *offset < 4 {
        Err(DataBufferErrors::NotEnoughRoomInBuffer)
    } else {
        let o = *offset;
        buffer[o] = (data & 0xFF) as u8;
        buffer[o + 1] = ((data >> 8) & 0xFF) as u8;
        buffer[o + 2] = ((data >> 16) & 0xFF) as u8;
        buffer[o + 3] = ((data >> 24) & 0xFF) as u8;
        *offset = o + 4;
        assert(final(buffer)@ =~= splice(old(buffer)@, o as int, u32_le_bytes(data)));
        Ok(())
    }
}

/// Convert a little-endian byte array from a buffer to a u32
pub fn le_buffer_to_u32(buffer: &[u8], offset: &mut usize) -> (r: Result<u32, DataBufferErrors>)
    ensures
        *old(offset) + 4 <= buffer@.len() ==> {
            &&& r == Ok::<u32, DataBufferErrors>(
                u32_from_le_bytes(
                    buffer@[*old(offset) as int],
                    buffer@[*old(offset) + 1],
                    buffer@[*old(offset) + 2],
                    buffer@[*old(offset) + 3],
                ),
            )
            &&& *final(offset) == *old(offset) + 4
        },
        *old(offset) + 4 > buffer@.len() ==> {
            &&& r == Err::<u32, DataBufferErrors>(DataBufferErrors::ConversionWouldOverflow)
            &&& *final(offset) == *old(offset)
        },
{
    if *offset >= buffer.len() || buffer.len() - *offset < 4 {
        Err(DataBufferErrors::ConversionWouldOverflow)
    } else {
        let o = *offset;
        let b0 = buffer[o];
        let b1 = buffer[o + 1];
        let b2 = buffer[o + 2];
        let b3 = buffer[o + 3];
        *offset = o + 4;
        Ok((b0 as u32) | ((b1 as u32) << 8) | ((b2 as u32) << 16) | ((b3 as u32) << 24))
    }
}

/// Convert an i32 to a little-endian byte array and add it to a buffer
pub fn i32_to_le_buffer(data: i32, buffer: &mut Vec<u8>, offset: &mut usize) -> (r: Result<
    (),
    DataBufferErrors,
>)
    ensures
        *old(offset) + 4 <= old(buffer)@.len() ==> {
            &&& r == Ok::<(), DataBufferErrors>(())
            &&& *final(offset) == *old(offset) + 4
            &&& final(buffer)@ == splice(
                old(buffer)@,
                *old(offset) as int,
                u32_le_bytes(data as u32),
            )
        },
        *old(offset) + 4 > old(buffer)@.len() ==> {
            &&& r == Err::<(), DataBufferErrors>(DataBufferErrors::NotEnoughRoomInBuffer)
            &&& *final(offset) == *old(offset)
            &&& final(buffer)@ == old(buffer)@
        },
{
    u32_to_le_buffer(data as u32, buffer, offset)
}

/// Convert a little-endian byte array from a buffer to an i32
pub fn le_buffer_to_i32(buffer: &[u8], offset: &mut usize) -> (r: Result<i32, DataBufferErrors>)
    ensures
        *old(offset) + 4 <= buffer@.len() ==> {
            &&& r == Ok::<i32, DataBufferErrors>(
                u32_from_le_bytes(
                    buffer@[*old(offset) as int],
                    buffer@[*old(offset) + 1],
                    buffer@[*old(offset) + 2],
                    buffer@[*old(offset) + 3],
                ) as i32,
            )
            &&& *final(offset) == *old(offset) + 4
        },
        *old(offset) + 4 > buffer@.len() ==> {
            &&& r == Err::<i32, DataBufferErrors>(DataBufferErrors::ConversionWouldOverflow)
            &&& *final(offset) == *old(offset)
        },
{
    match le_buffer_to_u32(buffer, offset) {
        Ok(x) => Ok(x as i32),
        Err(e) => Err(e),
    }
}

/// Convert a u16 to a little-endian byte array and add it to a buffer
pub fn u16_to_le_buffer(data: u16, buffer: &mut Vec<u8>, offset: &mut usize) -> (r: Result<
    (),
    DataBufferErrors,
>)
    ensures
        *old(offset) + 2 <= old(buffer)@.len() ==> {
            &&& r == Ok::<(), DataBufferErrors>(())
            &&& *final(offset) == *old(offset) + 2
            &&& final(buffer)@ == splice(old(buffer)@, *old(offset) as int, u16_le_bytes(data))
        },
        *old(offset) + 2 > old(buffer)@.len() ==> {
            &&& r == Err::<(), DataBufferErrors>(DataBufferErrors::NotEnoughRoomInBuffer)
            &&& *final(offset) == *old(offset)
            &&& final(buffer)@ == old(buffer)@
        },
{
    if *offset >= buffer.len() || buffer.len() - *offset < 2 {
        Err(DataBufferErrors::NotEnoughRoomInBuffer)
    } else {
        let o = *offset;
        buffer[o] = (data & 0xFF) as u8;
        buffer[o + 1] = ((data >> 8) & 0xFF) as u8;
        *offset = o + 2;
        assert(final(buffer)@ =~= splice(old(buffer)@, o as int, u16_le_bytes(data)));
        Ok(())
    }
}

/// Convert a little-endian byte array from a buffer to a u16
pub fn le_buffer_to_u16(buffer: &[u8], offset: &mut usize) -> (r: Result<u16, DataBufferErrors>)
    ensures
        *old(offset) + 2 <= buffer@.len() ==> {
            &&& r == Ok::<u16, DataBufferErrors>(
                u16_from_le_bytes(buffer@[*old(offset) as int], buffer@[*old(offset) + 1]),
            )
            &&& *final(offset) == *old(offset) + 2
        },
        *old(offset) + 2 > buffer@.len() ==> {
            &&& r == Err::<u16, DataBufferErrors>(DataBufferErrors::ConversionWouldOverflow)
            &&& *final(offset) == *old(offset)
        },
{
    if *offset >= buffer.len() || buffer.len() - *offset < 2 {
        Err(DataBufferErrors::ConversionWouldOverflow)
    } else {
        let o = *offset;
        let b0 = buffer[o];
        let b1 = buffer[o + 1];
        *offset = o + 2;
        Ok((b0 as u16) | ((b1 as u16) << 8))
    }
}

/// Convert an i16 to a little-endian byte array and add it to a buffer
pub fn i16_to_le_buffer(data: i16, buffer: &mut Vec<u8>, offset: &mut usize) -> (r: Result<
    (),
    DataBufferErrors,
>)
    ensures
        *old(offset) + 2 <= old(buffer)@.len() ==> {
            &&& r == Ok::<(), DataBufferErrors>(())
            &&& *final(offset) == *old(offset) + 2
            &&& final(buffer)@ == splice(
                old(buffer)@,
                *old(offset) as int,
                u16_le_bytes(data as u16),
            )
        },
        *old(offset) + 2 > old(buffer)@.len() ==> {
            &&& r == Err::<(), DataBufferErrors>(DataBufferErrors::NotEnoughRoomInBuffer)
            &&& *final(offset) == *old(offset)
            &&& final(buffer)@ == old(buffer)@
        },
{
    u16_to_le_buffer(data as u16, buffer, offset)
}

/// Convert a little-endian byte array from a buffer to an i16
pub fn le_buffer_to_i16(buffer: &[u8], offset: &mut usize) -> (r: Result<i16, DataBufferErrors>)
    ensures
        *old(offset) + 2 <= buffer@.len() ==> {
            &&& r == Ok::<i16, DataBufferErrors>(
                u16_from_le_bytes(buffer@[*old(offset) as int], buffer@[*old(offset) + 1]) as i16,
            )
            &&& *final(offset) == *old(offset) + 2
        },
        *old(offset) + 2 > buffer@.len() ==> {
            &&& r == Err::<i16, DataBufferErrors>(DataBufferErrors::ConversionWouldOverflow)
            &&& *final(offset) == *old(offset)
        },
{
    match le_buffer_to_u16(buffer, offset) {
        Ok(x) => Ok(x as i16),
        Err(e) => Err(e),
    }
}

} // verus!
