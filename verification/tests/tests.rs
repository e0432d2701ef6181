use flem::buffer::{
    i16_to_le_buffer, i32_to_le_buffer, le_buffer_to_i16, le_buffer_to_i32, le_buffer_to_u16,
    le_buffer_to_u32, u16_to_le_buffer, u32_to_le_buffer,
};
use flem::{DataBufferErrors, Packet};

const FLEM_PACKET_SIZE: usize = 108;

#[test]
fn sending() {
    const REQUEST: u8 = 0xF;

    let mut rx = flem::Packet::new(FLEM_PACKET_SIZE);
    let mut tx = flem::Packet::new(FLEM_PACKET_SIZE);

    let mut payload = [0 as u8; FLEM_PACKET_SIZE];
    for i in 0..FLEM_PACKET_SIZE {
        payload[i] = i as u8;
    }

    tx.set_request(REQUEST);
    assert_eq!(REQUEST, tx.get_request(), "Requests do not match");
    assert!(
        tx.add_data(&payload).is_ok(),
        "Payload is exactly packet size, SHOULD NOT cause error"
    );
    assert_eq!(tx.checksum(true), 50848, "Checksum mismatch");
    tx.pack();

    let mut byte_counter = 0;

    assert_eq!(
        tx.length(),
        flem::FLEM_HEADER_SIZE as usize + payload.len(),
        "Packet length incorrect"
    );

    let _x = tx.bytes();

    let mut packet_received = false;
    for byte in tx.bytes() {
        match rx.add_byte(byte) {
            flem::Status::PacketReceived => {
                byte_counter += 1;
                packet_received = true;
            }
            flem::Status::PacketBuilding => {
                byte_counter += 1;
            }
            _ => {
                assert!(true, "Should not be hit");
            }
        }
    }
    assert!(packet_received, "Packet not detected as received");
    assert_eq!(
        byte_counter,
        flem::FLEM_HEADER_SIZE as usize + payload.len(),
        "Not all bytes were sent"
    );

    let tx_u8_array = tx.bytes();
    let rx_u8_array = rx.bytes();

    for i in 0..tx_u8_array.len() {
        assert_eq!(
            tx_u8_array[i], rx_u8_array[i],
            "Tx packet not the same as Rx packet at byte {}",
            i
        );
    }
}

#[test]
fn checksum() {
    let mut rx = flem::Packet::new(FLEM_PACKET_SIZE);

    rx.set_request(flem::Request::ID);
    let checksum = rx.checksum(true);

    assert_eq!(checksum, 64513, "Checksum mismatch");
    assert_eq!(checksum, rx.get_checksum(), "Checksum mismatch");
}

#[test]
fn size_check() {
    let mut rx = flem::Packet::new(FLEM_PACKET_SIZE);

    assert_eq!(rx.length(), 8, "Size should be 14 (i.e. just the header)");

    let payload = [10 as u8; FLEM_PACKET_SIZE + 1];
    assert!(
        rx.add_data(&payload).is_err(),
        "Payload is larger than allocated packet, this SHOULD cause an error"
    );
    assert_eq!(
        rx.length(),
        flem::FLEM_HEADER_SIZE as usize,
        "Size should be 14 (i.e. just the header)"
    );

    let smaller_payload = [10 as u8; 60];
    assert!(
        rx.add_data(&smaller_payload).is_ok(),
        "Payload is smaller than allocated packet, this SHOULD NOT cause an error"
    );
    assert_eq!(
        rx.length(),
        flem::FLEM_HEADER_SIZE as usize + smaller_payload.len(),
        "Size should be 68 (i.e. header + smaller_payload.len)"
    );

    rx.reset_lazy();
    assert_eq!(
        rx.length(),
        flem::FLEM_HEADER_SIZE as usize,
        "Size should be 14 (i.e. just the header)"
    );
    let just_right_payload = [10 as u8; FLEM_PACKET_SIZE];
    assert!(
        rx.add_data(&just_right_payload).is_ok(),
        "Payload is exactly the size of the allocated packet, this SHOULD NOT cause an error"
    );
    assert_eq!(
        rx.length(),
        flem::FLEM_HEADER_SIZE as usize + just_right_payload.len(),
        "Size should be 116 (i.e. header + just_right_payload.len)"
    );
}

#[test]
fn documentation_test_get_byte() {
    const PACKET_SIZE: usize = 64; // 64 byte packet
    const FLEM_EXAMPLE_REQUEST: u8 = 0xF;

    let mut rx = Packet::new(PACKET_SIZE);
    let mut tx = Packet::new(PACKET_SIZE);

    let data = [0 as u8; PACKET_SIZE];

    /* Add data as needed to the data buffer */
    tx.add_data(&data).unwrap();
    tx.set_request(FLEM_EXAMPLE_REQUEST);
    tx.pack();

    /* Send data through a bounded FIFO, eight bytes at a time */
    let mut tx_fifo_queue: Vec<u8> = Vec::new();
    let mut keep_sending = true;
    let mut packet_received = false;
    let mut status = flem::Status::Success;

    while keep_sending {
        if tx_fifo_queue.len() < 8 && status != flem::Status::GetByteFinished {
            // Keep sending data
            match tx.get_byte() {
                Ok(byte) => {
                    tx_fifo_queue.push(byte);
                }
                Err(x) => {
                    /* Tx code should stop transmitting */
                    status = x;
                }
            }
        } else {
            // Queue is full, Tx the data, Rx on the other end
            while !tx_fifo_queue.is_empty() {
                match rx.add_byte(tx_fifo_queue.remove(0)) {
                    flem::Status::PacketReceived => {
                        packet_received = true;
                        keep_sending = false;
                    }
                    _ => { /* Catch other statuses here on the Rx side */ }
                }
            }
        }
    }

    assert!(packet_received, "Packet should have been transferred");

    // This test is redundant, since the checkums passed, still nice to see

    let rx_bytes = rx.bytes();
    let tx_bytes = tx.bytes();

    for i in 0..rx_bytes.len() {
        assert_eq!(rx_bytes[i], tx_bytes[i], "Rx and Tx packets don't match");
    }
}

#[test]
fn test_i32() {
    let test_data = [0 as i32, 1, 2, 3];
    let mut buffer = vec![0 as u8; 16];

    let mut offset = 0;
    for num in test_data {
        // There shouldn't be any panics
        i32_to_le_buffer(num, &mut buffer, &mut offset).unwrap();
    }

    let mut results = [0 as i32; 4];
    offset = 0;
    results[0] = le_buffer_to_i32(&buffer, &mut offset).unwrap();
    results[1] = le_buffer_to_i32(&buffer, &mut offset).unwrap();
    results[2] = le_buffer_to_i32(&buffer, &mut offset).unwrap();
    results[3] = le_buffer_to_i32(&buffer, &mut offset).unwrap();

    assert_eq!(results[0], test_data[0], "Error in i32 buffer module");
    assert_eq!(results[1], test_data[1], "Error in i32 buffer module");
    assert_eq!(results[2], test_data[2], "Error in i32 buffer module");
    assert_eq!(results[3], test_data[3], "Error in i32 buffer module");
}

#[test]
fn test_u32() {
    let test_data = [0 as u32, 1, 2, 3];
    let mut buffer = vec![0 as u8; 16];

    let mut offset = 0;
    for num in test_data {
        // There shouldn't be any panics
        u32_to_le_buffer(num, &mut buffer, &mut offset).unwrap();
    }

    let mut results = [0 as u32; 4];
    offset = 0;
    results[0] = le_buffer_to_u32(&buffer, &mut offset).unwrap();
    results[1] = le_buffer_to_u32(&buffer, &mut offset).unwrap();
    results[2] = le_buffer_to_u32(&buffer, &mut offset).unwrap();
    results[3] = le_buffer_to_u32(&buffer, &mut offset).unwrap();

    assert_eq!(results[0], test_data[0], "Error in u32 buffer module");
    assert_eq!(results[1], test_data[1], "Error in u32 buffer module");
    assert_eq!(results[2], test_data[2], "Error in u32 buffer module");
    assert_eq!(results[3], test_data[3], "Error in u32 buffer module");
}

#[test]
fn test_u16() {
    let test_data = [0 as u16, 1, 2, 3];
    let mut buffer = vec![0 as u8; 8];

    let mut offset = 0;
    for num in test_data {
        // There shouldn't be any panics
        u16_to_le_buffer(num, &mut buffer, &mut offset).unwrap();
    }

    let mut results = [0 as u16; 4];
    offset = 0;
    results[0] = le_buffer_to_u16(&buffer, &mut offset).unwrap();
    results[1] = le_buffer_to_u16(&buffer, &mut offset).unwrap();
    results[2] = le_buffer_to_u16(&buffer, &mut offset).unwrap();
    results[3] = le_buffer_to_u16(&buffer, &mut offset).unwrap();

    assert_eq!(results[0], test_data[0], "Error in u16 buffer module");
    assert_eq!(results[1], test_data[1], "Error in u16 buffer module");
    assert_eq!(results[2], test_data[2], "Error in u16 buffer module");
    assert_eq!(results[3], test_data[3], "Error in u16 buffer module");
}

#[test]
fn test_i16() {
    let test_data = [0 as i16, 1, 2, 3];
    let mut buffer = vec![0 as u8; 8];

    let mut offset = 0;
    for num in test_data {
        // There shouldn't be any panics
        i16_to_le_buffer(num, &mut buffer, &mut offset).unwrap();
    }

    let mut results = [0 as i16; 4];
    offset = 0;
    results[0] = le_buffer_to_i16(&buffer, &mut offset).unwrap();
    results[1] = le_buffer_to_i16(&buffer, &mut offset).unwrap();
    results[2] = le_buffer_to_i16(&buffer, &mut offset).unwrap();
    results[3] = le_buffer_to_i16(&buffer, &mut offset).unwrap();

    assert_eq!(results[0], test_data[0], "Error in i16 buffer module");
    assert_eq!(results[1], test_data[1], "Error in i16 buffer module");
    assert_eq!(results[2], test_data[2], "Error in i16 buffer module");
    assert_eq!(results[3], test_data[3], "Error in i16 buffer module");
}

#[test]
fn buffer_too_small_errors() {
    let mut buffer = vec![0 as u8; 3];
    let mut offset = 0;
    assert!(matches!(
        u32_to_le_buffer(7, &mut buffer, &mut offset),
        Err(DataBufferErrors::NotEnoughRoomInBuffer)
    ));
    assert_eq!(offset, 0, "A failed write must not move the offset");
    assert_eq!(buffer, vec![0, 0, 0], "A failed write must not touch the buffer");

    offset = 2;
    assert!(matches!(
        le_buffer_to_u16(&buffer, &mut offset),
        Err(DataBufferErrors::ConversionWouldOverflow)
    ));
    assert_eq!(offset, 2, "A failed read must not move the offset");
}

#[test]
fn construction_exact_on_final_byte() {
    // Fewer than 8 + length correct bytes never gives PacketReceived; the
    // full wire image gives it exactly once, on the final byte.
    let mut tx = flem::Packet::new(16);
    tx.set_request(2);
    tx.set_response(0);
    tx.add_data(&[1, 2, 3, 4, 5]).unwrap();
    tx.pack();
    let wire = tx.bytes();
    assert_eq!(wire.len(), 13);

    let mut rx = flem::Packet::new(16);
    let mut received = 0;
    for (i, byte) in wire.iter().enumerate() {
        let status = rx.add_byte(*byte);
        if i + 1 < wire.len() {
            assert_eq!(status, flem::Status::PacketBuilding);
        } else {
            assert_eq!(status, flem::Status::PacketReceived);
        }
        if status == flem::Status::PacketReceived {
            received += 1;
        }
    }
    assert_eq!(received, 1, "PacketReceived must come exactly once");
    assert_eq!(rx.get_request(), 2);
    assert_eq!(rx.get_response(), 0);
    assert_eq!(rx.length(), 13);
    assert_eq!(&rx.get_data()[..5], &[1, 2, 3, 4, 5]);
}

#[test]
fn zero_length_round_trip() {
    let mut tx = flem::Packet::new(32);
    tx.set_request(flem::Request::EVENT);
    tx.pack();
    let wire = tx.bytes();
    assert_eq!(wire.len(), 8);

    let mut rx = flem::Packet::new(32);
    for (i, byte) in wire.iter().enumerate() {
        let status = rx.add_byte(*byte);
        if i + 1 < wire.len() {
            assert_eq!(status, flem::Status::PacketBuilding);
        } else {
            assert_eq!(status, flem::Status::PacketReceived);
        }
    }
}

#[test]
fn cursor_emission_matches_bulk() {
    let mut tx = flem::Packet::new(20);
    tx.set_request(9);
    tx.add_data(&[0xAA, 0xBB, 0xCC]).unwrap();
    tx.pack();

    let bulk = tx.bytes();
    let mut cursor_view: Vec<u8> = Vec::new();
    loop {
        match tx.get_byte() {
            Ok(byte) => cursor_view.push(byte),
            Err(status) => {
                assert_eq!(status, flem::Status::GetByteFinished);
                break;
            }
        }
    }
    assert_eq!(bulk, cursor_view, "Bulk and cursor emission must agree");
}

#[test]
fn header_not_found_on_bad_sync() {
    let mut rx = flem::Packet::new(8);
    assert_eq!(rx.add_byte(0x00), flem::Status::HeaderBytesNotFound);
    // The cursor stays at the start: a correct sync byte is accepted next.
    assert_eq!(rx.add_byte(0x55), flem::Status::PacketBuilding);
    assert_eq!(rx.add_byte(0x13), flem::Status::HeaderBytesNotFound);
    assert_eq!(rx.add_byte(0x55), flem::Status::PacketBuilding);
}

#[test]
fn overflow_status_when_wire_length_exceeds_capacity() {
    // A wire image declaring a 5-byte payload against a 4-byte receiver runs
    // past the data area and reports PacketOverflow.
    let mut tx = flem::Packet::new(5);
    tx.add_data(&[1, 2, 3, 4, 5]).unwrap();
    tx.pack();
    let wire = tx.bytes();

    let mut rx = flem::Packet::new(4);
    let mut last = flem::Status::Success;
    for byte in wire {
        last = rx.add_byte(byte);
    }
    assert_eq!(last, flem::Status::PacketOverflow);
}

#[test]
fn set_payload_overflow_leaves_packet_unchanged() {
    let mut packet = flem::Packet::new(10);
    packet.add_data(&[7, 7, 7]).unwrap();
    let before = packet.get_data();

    let too_big = [1 as u8; 8];
    let result = packet.add_data(&too_big);
    assert!(matches!(result, Err(flem::Status::PacketOverflow)));
    assert_eq!(packet.length(), 8 + 3, "Length must be unchanged after overflow");
    assert_eq!(packet.get_data(), before, "Data must be unchanged after overflow");
    assert_eq!(packet.get_status(), flem::Status::PacketOverflow);
}

#[test]
fn reset_lazy_keeps_buffer_full_reset_zeroes() {
    let mut packet = flem::Packet::new(6);
    packet.add_data(&[9, 8, 7]).unwrap();
    packet.pack();

    packet.reset_lazy();
    assert_eq!(packet.length(), 8, "After a lazy reset only the header counts");
    assert_eq!(
        packet.get_data(),
        vec![9, 8, 7, 0, 0, 0],
        "A lazy reset keeps the buffer's prior bytes"
    );

    packet.reset(false);
    assert_eq!(packet.length(), 8);
    assert_eq!(
        packet.get_data(),
        vec![0, 0, 0, 0, 0, 0],
        "A full reset zeroes the buffer"
    );
}

#[test]
fn corruption_is_detected_at_every_payload_position() {
    let mut tx = flem::Packet::new(12);
    tx.set_request(3);
    tx.add_data(&[10, 20, 30, 40, 50, 60]).unwrap();
    tx.pack();
    let wire = tx.bytes();

    for flip in 8..wire.len() {
        let mut corrupted = wire.clone();
        corrupted[flip] ^= 0x01;
        let mut rx = flem::Packet::new(12);
        let mut last = flem::Status::Success;
        for byte in corrupted {
            last = rx.add_byte(byte);
        }
        assert_eq!(
            last,
            flem::Status::ChecksumError,
            "A flipped payload byte at {} must be caught",
            flip
        );
    }
}

#[test]
fn validate_after_mutation_reports_mismatch() {
    let mut packet = flem::Packet::new(16);
    packet.add_data(&[1, 2, 3]).unwrap();
    packet.pack();
    assert!(packet.validate(), "A packed packet validates");

    packet.set_response(0xFF);
    assert!(
        !packet.validate(),
        "Mutating a packed packet invalidates its stored checksum"
    );
}

#[test]
fn checksum_does_not_cover_header_or_checksum_fields() {
    let mut a = flem::Packet::new(16);
    a.set_request(5);
    a.add_data(&[1, 2]).unwrap();
    let crc_before = a.checksum(false);
    a.pack();
    let crc_after = a.checksum(false);
    assert_eq!(
        crc_before, crc_after,
        "Stamping header and checksum must not change the computed CRC"
    );
    assert_eq!(a.get_header(), flem::FLEM_HEADER);
    assert_eq!(a.get_checksum(), crc_after);
}

#[test]
fn data_id_round_trip_through_packet() {
    let id = flem::DataId::new("device-1.2.3", 108);
    assert_eq!(id.get_max_packet_size(), 108);
    assert_eq!(id.get_version().len(), 30);
    assert_eq!(id.get_version()[0], 'd');
    assert_eq!(id.get_version()[12], '\0');

    let mut packet = flem::Packet::new(64);
    packet.response_id(&id, true);
    assert_eq!(packet.get_request(), flem::Request::ID);
    assert_eq!(packet.get_response(), 0x00);
    assert_eq!(packet.length(), 8 + 32);
    assert_eq!(packet.get_header(), flem::FLEM_HEADER);

    let decoded = flem::DataId::from(&packet.get_data()).expect("32 bytes must decode");
    assert_eq!(decoded.get_max_packet_size(), 108);
    for i in 0..30 {
        assert_eq!(decoded.get_version()[i], id.get_version()[i]);
    }
}

#[test]
fn data_id_from_rejects_short_input() {
    let short = [0 as u8; 31];
    assert!(flem::DataId::from(&short).is_none());
    let exact = [0 as u8; 32];
    assert!(flem::DataId::from(&exact).is_some());
}

#[test]
fn response_id_overflow_sets_error_response() {
    let id = flem::DataId::new("long-name-device", 32);
    // A 16-byte data area cannot hold the 32-byte ascii record.
    let mut packet = flem::Packet::new(16);
    packet.response_id(&id, true);
    assert_eq!(packet.get_response(), 0xFF);
    assert_eq!(packet.get_header(), flem::FLEM_HEADER, "The response is packed either way");
}

#[test]
fn response_id_unicode_representation() {
    let id = flem::DataId::new("ab", 500);
    // 30 characters, four bytes each, then the two-byte size: 122 bytes.
    let mut packet = flem::Packet::new(122);
    packet.response_id(&id, false);
    assert_eq!(packet.get_response(), 0x00);
    assert_eq!(packet.length(), 8 + 122);
    let data = packet.get_data();
    assert_eq!(&data[0..4], &[b'a', 0, 0, 0]);
    assert_eq!(&data[4..8], &[b'b', 0, 0, 0]);
    assert_eq!(&data[8..12], &[0, 0, 0, 0]);
    assert_eq!(&data[120..122], &[0xF4, 0x01], "500 little-endian");
}

#[test]
fn respond_data_success_and_overflow() {
    let mut packet = flem::Packet::new(4);
    assert!(packet.respond_data(0x20, &[1, 2, 3, 4]).is_ok());
    assert_eq!(packet.get_response(), 0x00);
    assert_eq!(packet.get_header(), flem::FLEM_HEADER);

    let mut small = flem::Packet::new(2);
    let r = small.respond_data(0x20, &[1, 2, 3, 4]);
    assert!(matches!(r, Err(flem::Status::PacketOverflow)));
    assert_eq!(small.get_response(), 0xFF);
    assert_ne!(small.get_header(), flem::FLEM_HEADER, "No packing on overflow");
}

#[test]
fn respond_error_packs_codes() {
    let mut packet = flem::Packet::new(4);
    packet.respond_error(0x30, flem::Response::UnknownRequest.code());
    assert_eq!(packet.get_request(), 0x30);
    assert_eq!(packet.get_response(), 0xFD);
    assert_eq!(packet.get_header(), flem::FLEM_HEADER);
    assert_eq!(packet.length(), 8);
}

#[test]
fn response_codes_are_the_reserved_values() {
    assert_eq!(flem::Response::Success.code(), 0x00);
    assert_eq!(flem::Response::Busy.code(), 0x01);
    assert_eq!(flem::Response::PacketOverflow.code(), 0xFC);
    assert_eq!(flem::Response::UnknownRequest.code(), 0xFD);
    assert_eq!(flem::Response::ChecksumError.code(), 0xFE);
    assert_eq!(flem::Response::Error.code(), 0xFF);
    assert_eq!(flem::Request::EVENT, 0);
    assert_eq!(flem::Request::ID, 1);
}

#[test]
fn wire_layout_is_little_endian_field_by_field() {
    let mut packet = flem::Packet::new(8);
    packet.set_request(0xAB);
    packet.set_response(0xCD);
    packet.add_data(&[0x11, 0x22]).unwrap();
    packet.pack();
    let wire = packet.bytes();
    assert_eq!(wire.len(), 10);
    assert_eq!(&wire[0..2], &[0x55, 0x55], "sync header, little-endian");
    let crc = packet.get_checksum();
    assert_eq!(wire[2], (crc & 0xFF) as u8);
    assert_eq!(wire[3], (crc >> 8) as u8);
    assert_eq!(wire[4], 0xAB);
    assert_eq!(wire[5], 0xCD);
    assert_eq!(&wire[6..8], &[2, 0], "payload length, little-endian");
    assert_eq!(&wire[8..10], &[0x11, 0x22]);
}
