//! The packet entity: a fixed-capacity, header-tagged message record with an
//! incremental construction state machine, a checksum engine hook-up, and two
//! emission views (bulk and cursor).
//!
//! Wire format, all multi-byte fields little-endian: sync header (2 bytes,
//! `0x5555`), checksum (2 bytes, CRC-16 over everything after it), request
//! (1 byte), response (1 byte), payload length (2 bytes), payload.

use vstd::prelude::*;

use crate::checksum::{crc16, crc16_compute};
use crate::buffer::{splice, u16_le_bytes};
use crate::dataid::{ascii_name_bytes, unicode_rep, DataId, DataIdModel};

verus! {

/// Number of wire bytes before the payload.
pub const FLEM_HEADER_SIZE: usize = 8;

/// The fixed sync marker stamped into the header by packing.
pub const FLEM_HEADER: u16 = 0x5555;

/// Pre-defined requests. It is easier to extend u8 values rather than an enum
pub struct Request;

impl Request {
    pub const EVENT: u8 = 0;

    pub const ID: u8 = 1;
}

/// Last known condition of a packet instance: construction, emission and
/// validation outcomes.
#[derive(Debug, Copy, Clone, PartialEq, Eq, Structural)]
pub enum Status {
    Success,
    PacketReceived,
    PacketBuilding,
    GetByteFinished,
    VersionLength,
    PacketOverflow,
    HeaderBytesNotFound,
    PacketConstruction,
    GetByteIssue,
    ChecksumError,
    UnspecifiedError,
    UnrecognizedRequest,
}

/// Reserved response codes; applications are free to define further codes.
#[derive(Debug, Copy, Clone, PartialEq, Eq, Structural)]
pub enum Response {
    Success,
    Busy,
    PacketOverflow,
    UnknownRequest,
    ChecksumError,
    Error,
}

impl Response {
    /// The wire value of this response code.
    pub open spec fn spec_code(self) -> u8 {
        match self {
            Response::Success => 0x00,
            Response::Busy => 0x01,
            Response::PacketOverflow => 0xFC,
            Response::UnknownRequest => 0xFD,
            Response::ChecksumError => 0xFE,
            Response::Error => 0xFF,
        }
    }

    /// The wire value of this response code.
    #[verifier::when_used_as_spec(spec_code)]
    pub fn code(self) -> (r: u8)
        ensures
            r == self.spec_code(),
    {
        match self {
            Response::Success => 0x00,
            Response::Busy => 0x01,
            Response::PacketOverflow => 0xFC,
            Response::UnknownRequest => 0xFD,
            Response::ChecksumError => 0xFE,
            Response::Error => 0xFF,
        }
    }
}

/// Mathematical model of a packet: its fields, its payload buffer (whose
/// length is the instance's capacity), the construction/emission cursors and
/// the last status.
#[verifier::ext_equal]
pub ghost struct PacketModel {
    pub header: u16,
    pub checksum: u16,
    pub request: u8,
    pub response: u8,
    pub length: u16,
    pub data: Seq<u8>,
    pub cursor: u32,
    pub data_cursor: nat,
    pub status: Status,
}

/// The low byte of a 16-bit field on the wire.
pub open spec fn lo_byte(x: u16) -> u8 {
    (x & 0xFF) as u8
}

/// The high byte of a 16-bit field on the wire.
pub open spec fn hi_byte(x: u16) -> u8 {
    (x >> 8) as u8
}

/// The byte window the checksum is computed over: everything after the header
/// and checksum fields, i.e. request, response, length and the used payload.
pub open spec fn window(v: PacketModel) -> Seq<u8> {
    seq![v.request, v.response, lo_byte(v.length), hi_byte(v.length)] + v.data.take(v.length as int)
}

/// The full ordered wire image of a packet: header, checksum, then the window.
pub open spec fn wire_bytes(v: PacketModel) -> Seq<u8> {
    seq![lo_byte(v.header), hi_byte(v.header), lo_byte(v.checksum), hi_byte(v.checksum)]
        + window(v)
}

/// The CRC-16 a validation run computes for this packet.
pub open spec fn computed_checksum(v: PacketModel) -> u16 {
    crc16(window(v))
}

/// A packet is packed when the sync marker is stamped and the stored checksum
/// reflects the current request, response, length and payload.
pub open spec fn is_packed(v: PacketModel) -> bool {
    &&& v.header == FLEM_HEADER
    &&& v.checksum == computed_checksum(v)
}

/// The model of a freshly created packet of the given capacity.
pub open spec fn new_model(capacity: nat) -> PacketModel {
    PacketModel {
        header: 0,
        checksum: 0,
        request: 0,
        response: 0,
        length: 0,
        data: Seq::new(capacity, |i: int| 0u8),
        cursor: 0,
        data_cursor: 0,
        status: Status::Success,
    }
}

/// True when a payload of `d.len()` more bytes still fits behind the bytes in
/// use.
pub open spec fn add_data_fits(v: PacketModel, d: Seq<u8>) -> bool {
    v.length + d.len() <= v.data.len()
}

/// Effect of appending `d` behind the bytes in use: on overflow nothing but
/// the status changes; otherwise the bytes are written and the length grows.
pub open spec fn spec_add_data(v: PacketModel, d: Seq<u8>) -> PacketModel {
    if add_data_fits(v, d) {
        PacketModel {
            data: splice(v.data, v.length as int, d),
            length: (v.length + d.len()) as u16,
            status: Status::Success,
            ..v
        }
    } else {
        PacketModel { status: Status::PacketOverflow, ..v }
    }
}

/// Effect of packing: the checksum of the current window is stored and the
/// sync marker is stamped.
pub open spec fn pack_model(v: PacketModel) -> PacketModel {
    PacketModel { header: FLEM_HEADER, checksum: computed_checksum(v), ..v }
}

/// Effect of one payload append inside a response helper: on overflow the
/// response code is overwritten with `Error`, otherwise the append stands.
pub open spec fn respond_append(v: PacketModel, d: Seq<u8>) -> PacketModel {
    if add_data_fits(v, d) {
        spec_add_data(v, d)
    } else {
        PacketModel { response: Response::Error.spec_code(), ..spec_add_data(v, d) }
    }
}

/// Effect of answering with the identification record: request and response
/// are stamped, the record's encoding is appended (raw name bytes plus the
/// little-endian size in ascii mode, the full-width representation otherwise),
/// and the packet is packed; an append that does not fit turns the response
/// into `Error` but the packet is still packed.
pub open spec fn spec_response_id(v: PacketModel, id: DataIdModel, ascii: bool) -> PacketModel {
    let v1 = PacketModel {
        request: Request::ID,
        response: Response::Success.spec_code(),
        ..v
    };
    if ascii {
        let r1 = respond_append(v1, ascii_name_bytes(id.version));
        let r2 = respond_append(r1, u16_le_bytes(id.max_packet_size));
        pack_model(r2)
    } else {
        let r1 = respond_append(v1, unicode_rep(id.version) + u16_le_bytes(id.max_packet_size));
        pack_model(r1)
    }
}

/// One step of the construction state machine, driven by the construction
/// cursor: sync bytes, checksum bytes, request, response, length bytes, then
/// payload bytes; validation runs as soon as all declared bytes are in.
pub open spec fn spec_add_byte(v: PacketModel, byte: u8) -> PacketModel {
    let c = v.cursor;
    if c == 0 {
        if byte != 0x55 {
            PacketModel { cursor: 0, status: Status::HeaderBytesNotFound, ..v }
        } else {
            PacketModel { header: byte as u16, cursor: 1, status: Status::PacketBuilding, ..v }
        }
    } else if c == 1 {
        if byte != 0x55 {
            PacketModel { cursor: 0, status: Status::HeaderBytesNotFound, ..v }
        } else {
            PacketModel {
                header: v.header | ((byte as u16) << 8),
                cursor: 2,
                status: Status::PacketBuilding,
                ..v
            }
        }
    } else if c == 2 {
        PacketModel { checksum: byte as u16, cursor: 3, status: Status::PacketBuilding, ..v }
    } else if c == 3 {
        PacketModel {
            checksum: v.checksum | ((byte as u16) << 8),
            cursor: 4,
            status: Status::PacketBuilding,
            ..v
        }
    } else if c == 4 {
        PacketModel { request: byte, cursor: 5, status: Status::PacketBuilding, ..v }
    } else if c == 5 {
        PacketModel { response: byte, cursor: 6, status: Status::PacketBuilding, ..v }
    } else if c == 6 {
        PacketModel { length: byte as u16, cursor: 7, status: Status::PacketBuilding, ..v }
    } else if c == 7 {
        let v2 = PacketModel {
            length: v.length | ((byte as u16) << 8),
            data_cursor: 0,
            ..v
        };
        if v2.length == 0 {
            if computed_checksum(v2) == v2.checksum {
                PacketModel { status: Status::PacketReceived, ..v2 }
            } else {
                PacketModel { status: Status::ChecksumError, ..v2 }
            }
        } else {
            PacketModel { cursor: 8, status: Status::PacketBuilding, ..v2 }
        }
    } else if 8 <= c && c < 8 + v.data.len() {
        if v.data_cursor < v.length {
            let v2 = PacketModel {
                data: v.data.update(v.data_cursor as int, byte),
                data_cursor: v.data_cursor + 1,
                ..v
            };
            if v2.data_cursor == v2.length {
                if computed_checksum(v2) == v2.checksum {
                    PacketModel { status: Status::PacketReceived, ..v2 }
                } else {
                    PacketModel { status: Status::ChecksumError, ..v2 }
                }
            } else {
                PacketModel { cursor: (c + 1) as u32, status: Status::PacketBuilding, ..v2 }
            }
        } else {
            PacketModel { status: Status::PacketOverflow, ..v }
        }
    } else {
        PacketModel { status: Status::PacketOverflow, ..v }
    }
}

impl PacketModel {
    /// Well-formedness kept by every operation: the capacity fits a 16-bit
    /// length, and the payload cursor never points past a writable slot while
    /// the construction cursor is inside the payload range.
    pub open spec fn wf(self) -> bool {
        &&& self.data.len() <= 0xFFFE
        &&& self.data_cursor <= self.data.len()
        &&& (self.cursor <= 7 ==> self.data_cursor == 0)
        &&& (self.cursor >= 8 ==> self.data_cursor <= self.cursor - 8 || (self.data_cursor
            <= self.length && self.length <= self.data.len()))
    }
}

/// A fixed-capacity, header-tagged message record; the capacity is chosen at
/// creation and never changes.
pub struct Packet {
    header: u16,
    checksum: u16,
    request: u8,
    response: u8,
    length: u16,
    data: Vec<u8>,
    internal_counter: u32,
    data_length_counter: usize,
    status: Status,
}

impl View for Packet {
    type V = PacketModel;

    closed spec fn view(&self) -> PacketModel {
        PacketModel {
            header: self.header,
            checksum: self.checksum,
            request: self.request,
            response: self.response,
            length: self.length,
            data: self.data@,
            cursor: self.internal_counter,
            data_cursor: self.data_length_counter as nat,
            status: self.status,
        }
    }
}

impl Packet {
    /// Well-formedness of the underlying record; established by [`Packet::new`]
    /// and preserved by every method.
    pub open spec fn wf(&self) -> bool {
        self@.wf()
    }

    /// Creates a new packet with a zeroed payload buffer of `capacity` bytes.
    pub fn new(capacity: usize) -> (r: Packet)
        requires
            capacity < 0xFFFF,
        ensures
            r.wf(),
            r@ == new_model(capacity as nat),
    {
        let mut data: Vec<u8> = Vec::new();
        let mut i: usize = 0;
        while i < capacity
            invariant
                i <= capacity,
                data@.len() == i,
                forall|k: int| 0 <= k < i ==> data@[k] == 0u8,
            decreases capacity - i,
        {
            data.push(0u8);
            i = i + 1;
        }
        let r = Packet {
            header: 0,
            checksum: 0,
            request: 0,
            response: 0,
            length: 0,
            data,
            internal_counter: 0,
            data_length_counter: 0,
            status: Status::Success,
        };
        proof {
            assert(r@ =~= new_model(capacity as nat));
        }
        r
    }

    /// Convenience function to respond with data: stamps the request, appends
    /// the payload, sets the response to `Success` and packs. If the payload
    /// does not fit, the response is set to `Error`, nothing is appended, and
    /// the packet is not packed.
    pub fn respond_data(&mut self, request: u8, data: &[u8]) -> (r: Result<(), Status>)
        requires
            old(self).wf(),
        ensures
            final(self).wf(),
            ({
                let v1 = PacketModel { request: request, ..old(self)@ };
                if add_data_fits(v1, data@) {
                    &&& final(self)@ == pack_model(
                        PacketModel { response: Response::Success.spec_code(), ..spec_add_data(v1, data@) },
                    )
                    &&& r == Ok::<(), Status>(())
                } else {
                    &&& final(self)@ == (PacketModel {
                        response: Response::Error.spec_code(),
                        ..spec_add_data(v1, data@)
                    })
                    &&& r == Err::<(), Status>(Status::PacketOverflow)
                }
            }),
    {
        self.request = request;
        match self.add_data(data) {
            Ok(_) => {
                self.response = Response::Success.code();
                self.pack();
                Ok(())
            },
            Err(e) => {
                self.response = Response::Error.code();
                proof {
                    assert(self@ =~= (PacketModel {
                        response: Response::Error.spec_code(),
                        ..spec_add_data(PacketModel { request: request, ..old(self)@ }, data@)
                    }));
                }
                Err(e)
            },
        }
    }

    /// Convenience function to respond quickly when an error occurs (without
    /// data): stamps the request and response codes and packs.
    pub fn respond_error(&mut self, request: u8, response: u8)
        requires
            old(self).wf(),
            old(self)@.length <= old(self)@.data.len(),
        ensures
            final(self).wf(),
            final(self)@ == pack_model(
                PacketModel { request: request, response: response, ..old(self)@ },
            ),
    {
        self.request = request;
        self.response = response;
        self.pack();
    }

    /// Convenience function to respond with the identification record. With
    /// `ascii` the name characters travel as raw bytes followed by the
    /// two-byte size (portable across partners with single-byte characters);
    /// without it the record's full-width representation travels instead.
    /// The payload must offer room for the encoding, else the response code
    /// is turned into `Error`; the packet is packed either way.
    pub fn response_id(&mut self, id: &DataId, ascii: bool)
        requires
            old(self).wf(),
            old(self)@.length <= old(self)@.data.len(),
            id.wf(),
        ensures
            final(self).wf(),
            final(self)@ == spec_response_id(old(self)@, id@, ascii),
    {
        self.request = Request::ID;
        self.response = Response::Success.code();
        if ascii {
            let char_array = id.ascii_bytes();
            match self.add_data(char_array.as_slice()) {
                Ok(_) => {},
                Err(_) => {
                    self.response = Response::Error.code();
                },
            }
            let max: u16 = id.get_max_packet_size();
            let mut size_bytes: Vec<u8> = Vec::new();
            size_bytes.push((max & 0xFF) as u8);
            size_bytes.push(((max >> 8) & 0xFF) as u8);
            proof {
                assert(size_bytes@ =~= u16_le_bytes(max));
            }
            match self.add_data(size_bytes.as_slice()) {
                Ok(_) => {},
                Err(_) => {
                    self.response = Response::Error.code();
                },
            }
        } else {
            let rep = id.unicode_bytes();
            match self.add_data(rep.as_slice()) {
                Ok(_) => {},
                Err(_) => {
                    self.response = Response::Error.code();
                },
            }
        }
        self.pack();
        proof {
            assert(self@ =~= spec_response_id(old(self)@, id@, ascii));
        }
    }

    /// Length of the packet on the wire, including the header and the payload
    /// bytes in use.
    pub fn length(&self) -> (r: usize)
        ensures
            r == FLEM_HEADER_SIZE + self@.length,
    {
        let mut x: usize = FLEM_HEADER_SIZE;
        x += self.length as usize;
        x
    }

    /// The window bytes (request, response, length, used payload) in wire
    /// order: the exact bytes the checksum covers.
    fn window_bytes(&self) -> (r: Vec<u8>)
        requires
            self@.length <= self@.data.len(),
        ensures
            r@ == window(self@),
    {
        let mut r: Vec<u8> = Vec::new();
        r.push(self.request);
        r.push(self.response);
        r.push((self.length & 0xFF) as u8);
        r.push((self.length >> 8) as u8);
        proof {
            assert(r@ =~= window(self@).take(4));
        }
        let n: usize = self.length as usize;
        let mut i: usize = 0;
        while i < n
            invariant
                i <= n,
                n == self@.length,
                n <= self@.data.len(),
                r@ == window(self@).take(4 + i),
            decreases n - i,
        {
            proof {
                assert(window(self@)[4 + i as int] == self@.data[i as int]);
                assert(window(self@).take(4 + i + 1) =~= window(self@).take(4 + i as int).push(
                    window(self@)[4 + i as int],
                ));
            }
            r.push(self.data[i]);
            i = i + 1;
        }
        proof {
            assert(window(self@).take(4 + n as int) =~= window(self@));
        }
        r
    }

    /// Returns the entire packet as an ordered byte sequence: the bulk
    /// emission view, serialized field by field in little-endian order.
    pub fn bytes(&self) -> (r: Vec<u8>)
        requires
            self@.length <= self@.data.len(),
        ensures
            r@ == wire_bytes(self@),
            r@.len() == FLEM_HEADER_SIZE + self@.length,
    {
        let mut r: Vec<u8> = Vec::new();
        r.push((self.header & 0xFF) as u8);
        r.push((self.header >> 8) as u8);
        r.push((self.checksum & 0xFF) as u8);
        r.push((self.checksum >> 8) as u8);
        let mut w = self.window_bytes();
        r.append(&mut w);
        proof {
            assert(r@ =~= wire_bytes(self@));
        }
        r
    }

    /// Computes the CRC-16 over the window (everything after the header and
    /// checksum fields); with `store` the result is written into the checksum
    /// field.
    pub fn checksum(&mut self, store: bool) -> (crc: u16)
        requires
            old(self)@.length <= old(self)@.data.len(),
        ensures
            crc == computed_checksum(old(self)@),
            store ==> final(self)@ == (PacketModel { checksum: crc, ..old(self)@ }),
            !store ==> final(self)@ == old(self)@,
    {
        let w = self.window_bytes();
        let crc = crc16_compute(w.as_slice());
        if store {
            self.checksum = crc;
        }
        crc
    }

    /// Computes the checksum on the packet and compares it to the stored
    /// checksum; true exactly when they match.
    pub fn validate(&mut self) -> (r: bool)
        requires
            old(self)@.length <= old(self)@.data.len(),
        ensures
            final(self)@ == old(self)@,
            r == (computed_checksum(old(self)@) == old(self)@.checksum),
    {
        let crc = self.checksum(false);
        crc == self.checksum
    }

    /// Pack a packet up: computes and stores the checksum, then stamps the
    /// sync marker into the header. Must be the last step before emission.
    pub fn pack(&mut self)
        requires
            old(self)@.length <= old(self)@.data.len(),
        ensures
            final(self)@ == pack_model(old(self)@),
    {
        self.checksum(true);
        self.header = FLEM_HEADER;
    }

    /// A copy of the whole payload buffer; only the first `length` bytes are
    /// meaningful.
    pub fn get_data(&self) -> (r: Vec<u8>)
        ensures
            r@ == self@.data,
    {
        let mut r: Vec<u8> = Vec::new();
        let mut i: usize = 0;
        let n: usize = self.data.len();
        while i < n
            invariant
                i <= n,
                n == self@.data.len(),
                r@ == self@.data.take(i as int),
            decreases n - i,
        {
            proof {
                assert(self@.data.take(i + 1) =~= self@.data.take(i as int).push(
                    self@.data[i as int],
                ));
            }
            r.push(self.data[i]);
            i = i + 1;
        }
        proof {
            assert(self@.data.take(n as int) =~= self@.data);
        }
        r
    }

    /// Appends bytes behind the payload bytes already in use. If they do not
    /// fit, nothing is written, the length is unchanged, and the call reports
    /// `PacketOverflow`: a strict precondition check, not a truncation.
    pub fn add_data(&mut self, data: &[u8]) -> (r: Result<(), Status>)
        requires
            old(self).wf(),
        ensures
            final(self).wf(),
            final(self)@ == spec_add_data(old(self)@, data@),
            add_data_fits(old(self)@, data@) ==> r == Ok::<(), Status>(()),
            !add_data_fits(old(self)@, data@) ==> r == Err::<(), Status>(Status::PacketOverflow),
    {
        let cap: usize = self.data.len();
        let len: usize = self.length as usize;
        if data.len() > cap || len > cap - data.len() {
            self.status = Status::PacketOverflow;
            proof {
                assert(self@ =~= spec_add_data(old(self)@, data@));
            }
            Err(Status::PacketOverflow)
        } else {
            let mut i: usize = 0;
            while i < data.len()
                invariant
                    i <= data@.len(),
                    len == old(self)@.length,
                    len + data@.len() <= old(self)@.data.len(),
                    len + data@.len() <= 0xFFFE,
                    self@.data.len() == old(self)@.data.len(),
                    forall|k: int|
                        len <= k < len + i ==> self@.data[k] == data@[k - len],
                    forall|k: int|
                        0 <= k < self@.data.len() && !(len <= k < len + i) ==> self@.data[k]
                            == old(self)@.data[k],
                    self@.header == old(self)@.header,
                    self@.checksum == old(self)@.checksum,
                    self@.request == old(self)@.request,
                    self@.response == old(self)@.response,
                    self@.length == old(self)@.length,
                    self@.cursor == old(self)@.cursor,
                    self@.data_cursor == old(self)@.data_cursor,
                    self@.status == old(self)@.status,
                decreases data@.len() - i,
            {
                self.data[len + i] = data[i];
                i = i + 1;
            }
            self.length = self.length + data.len() as u16;
            self.status = Status::Success;
            proof {
                assert(self@.data =~= splice(old(self)@.data, len as int, data@));
                assert(self@ =~= spec_add_data(old(self)@, data@));
            }
            Ok(())
        }
    }

    /// Add a received byte to a packet; the construction cursor keeps track
    /// of where the byte belongs. Returns the resulting status: building,
    /// received, or one of the error statuses.
    pub fn add_byte(&mut self, byte: u8) -> (r: Status)
        requires
            old(self).wf(),
        ensures
            final(self).wf(),
            final(self)@ == spec_add_byte(old(self)@, byte),
            r == final(self)@.status,
    {
        let c: u32 = self.internal_counter;
        if c == 0 {
            if byte != 0x55 {
                self.internal_counter = 0;
                self.status = Status::HeaderBytesNotFound;
                proof {
                    assert(self@ =~= spec_add_byte(old(self)@, byte));
                }
                return self.status;
            }
            self.header = byte as u16;
        } else if c == 1 {
            if byte != 0x55 {
                self.internal_counter = 0;
                self.status = Status::HeaderBytesNotFound;
                proof {
                    assert(self@ =~= spec_add_byte(old(self)@, byte));
                }
                return self.status;
            }
            self.header = self.header | ((byte as u16) << 8);
        } else if c == 2 {
            self.checksum = byte as u16;
        } else if c == 3 {
            self.checksum = self.checksum | ((byte as u16) << 8);
        } else if c == 4 {
            self.request = byte;
        } else if c == 5 {
            self.response = byte;
        } else if c == 6 {
            self.length = byte as u16;
        } else if c == 7 {
            self.length = self.length | ((byte as u16) << 8);
            self.data_length_counter = 0;
            if self.length == 0 {
                if self.validate() {
                    self.status = Status::PacketReceived;
                } else {
                    self.status = Status::ChecksumError;
                }
                proof {
                    assert(self@ =~= spec_add_byte(old(self)@, byte));
                }
                return self.status;
            }
        } else if 8 <= c && (c as usize) < FLEM_HEADER_SIZE + self.data.len() {
            if self.data_length_counter < self.length as usize {
                self.data[self.data_length_counter] = byte;
            } else {
                self.status = Status::PacketOverflow;
                proof {
                    assert(self@ =~= spec_add_byte(old(self)@, byte));
                }
                return self.status;
            }
            self.data_length_counter += 1;
            if self.length as usize == self.data_length_counter {
                if self.validate() {
                    self.status = Status::PacketReceived;
                } else {
                    self.status = Status::ChecksumError;
                }
                proof {
                    assert(self@ =~= spec_add_byte(old(self)@, byte));
                }
                return self.status;
            }
        } else {
            self.status = Status::PacketOverflow;
            proof {
                assert(self@ =~= spec_add_byte(old(self)@, byte));
            }
            return self.status;
        }
        self.internal_counter = self.internal_counter + 1;
        self.status = Status::PacketBuilding;
        proof {
            assert(self@ =~= spec_add_byte(old(self)@, byte));
        }
        self.status
    }

    /// The cursor emission view: returns the next wire byte and advances the
    /// cursor, or `GetByteFinished` once every byte has been handed out; the
    /// caller must reset before emitting again.
    pub fn get_byte(&mut self) -> (r: Result<u8, Status>)
        requires
            old(self).wf(),
            old(self)@.length <= old(self)@.data.len(),
        ensures
            final(self).wf(),
            old(self)@.cursor < FLEM_HEADER_SIZE + old(self)@.length ==> {
                &&& r == Ok::<u8, Status>(wire_bytes(old(self)@)[old(self)@.cursor as int])
                &&& final(self)@ == (PacketModel {
                    cursor: (old(self)@.cursor + 1) as u32,
                    status: Status::Success,
                    ..old(self)@
                })
            },
            old(self)@.cursor >= FLEM_HEADER_SIZE + old(self)@.length ==> {
                &&& r == Err::<u8, Status>(Status::GetByteFinished)
                &&& final(self)@ == (PacketModel { status: Status::GetByteFinished, ..old(self)@ })
            },
    {
        let bytes = self.bytes();
        let cnt: u32 = self.internal_counter;
        if (cnt as usize) < self.length() {
            let byte = bytes[cnt as usize];
            self.internal_counter += 1;
            self.status = Status::Success;
            Ok(byte)
        } else {
            self.status = Status::GetByteFinished;
            Err(self.status)
        }
    }

    /// Sets the request field
    pub fn set_request(&mut self, request: u8)
        ensures
            final(self)@ == (PacketModel { request: request, ..old(self)@ }),
    {
        self.request = request;
    }

    /// Gets the request field
    pub fn get_request(&self) -> (r: u8)
        ensures
            r == self@.request,
    {
        self.request
    }

    /// Returns the stored checksum value
    pub fn get_checksum(&self) -> (r: u16)
        ensures
            r == self@.checksum,
    {
        self.checksum
    }

    /// Sets the response field
    pub fn set_response(&mut self, response: u8)
        ensures
            final(self)@ == (PacketModel { response: response, ..old(self)@ }),
    {
        self.response = response;
    }

    /// Gets the response field
    pub fn get_response(&self) -> (r: u8)
        ensures
            r == self@.response,
    {
        self.response
    }

    /// Gets the status of the packet
    pub fn get_status(&mut self) -> (r: Status)
        ensures
            final(self)@ == old(self)@,
            r == old(self)@.status,
    {
        self.status
    }

    /// Gets the header field
    pub fn get_header(&self) -> (r: u16)
        ensures
            r == self@.header,
    {
        self.header
    }

    /// How many payload bytes the construction state machine has written.
    pub fn get_data_length(&self) -> (r: usize)
        ensures
            r == self@.data_cursor,
    {
        self.data_length_counter
    }

    /// Resets the packet but keeps the payload buffer's bytes: much faster
    /// than zeroing the buffer. Packets should be reset before reuse.
    pub fn reset_lazy(&mut self)
        requires
            old(self).wf(),
        ensures
            final(self).wf(),
            final(self)@ == (PacketModel {
                checksum: 0,
                request: 0,
                response: 0,
                length: 0,
                cursor: 0,
                data_cursor: 0,
                status: Status::Success,
                ..old(self)@
            }),
    {
        self.reset(true);
    }

    /// Resets the packet; the payload buffer is zeroed only when `clear_data`
    /// is false (a lazy reset passes true and keeps the buffer's bytes).
    /// Packets should be reset before reuse.
    pub fn reset(&mut self, clear_data: bool)
        requires
            old(self).wf(),
        ensures
            final(self).wf(),
            clear_data ==> final(self)@ == (PacketModel {
                checksum: 0,
                request: 0,
                response: 0,
                length: 0,
                cursor: 0,
                data_cursor: 0,
                status: Status::Success,
                ..old(self)@
            }),
            !clear_data ==> final(self)@ == (PacketModel {
                checksum: 0,
                request: 0,
                response: 0,
                length: 0,
                cursor: 0,
                data_cursor: 0,
                status: Status::Success,
                data: Seq::new(old(self)@.data.len(), |i: int| 0u8),
                ..old(self)@
            }),
    {
        self.checksum = 0;
        self.request = 0;
        self.response = 0;
        self.length = 0;
        self.internal_counter = 0;
        self.status = Status::Success;
        if !clear_data {
            let n: usize = self.data.len();
            let mut i: usize = 0;
            while i < n
                invariant
                    i <= n,
                    self@.data.len() == n,
                    forall|k: int| 0 <= k < i ==> self@.data[k] == 0u8,
                    self@.header == old(self)@.header,
                    self@.checksum == 0,
                    self@.request == 0,
                    self@.response == 0,
                    self@.length == 0,
                    self@.cursor == 0,
                    self@.data_cursor == old(self)@.data_cursor,
                    self@.status == Status::Success,
                decreases n - i,
            {
                self.data[i] = 0u8;
                i = i + 1;
            }
            proof {
                assert(self@.data =~= Seq::new(old(self)@.data.len(), |i: int| 0u8));
            }
        }
        self.data_length_counter = 0;
        proof {
            if clear_data {
                assert(self@ =~= (PacketModel {
                    checksum: 0,
                    request: 0,
                    response: 0,
                    length: 0,
                    cursor: 0,
                    data_cursor: 0,
                    status: Status::Success,
                    ..old(self)@
                }));
            }
        }
    }
}

} // verus!
