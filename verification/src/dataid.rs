//! The identification record: a 30-character name/version field plus a
//! 16-bit declared maximum packet size, carried through a packet's payload.
//!
//! On the wire the record is 32 bytes: the 30 name characters as raw bytes,
//! then the maximum packet size as two little-endian bytes.

use vstd::prelude::*;

use crate::buffer::{u16_from_le_bytes, u16_le_bytes};
use vstd::string::StrSliceExecFns;

verus! {

/// The name characters as raw bytes, one byte per character: the portable
/// encoding used when talking to partners with single-byte characters.
pub open spec fn ascii_name_bytes(cs: Seq<char>) -> Seq<u8> {
    cs.map_values(|c: char| (c as u32) as u8)
}

/// The four little-endian bytes of one character's 32-bit scalar value.
pub open spec fn char_le_bytes(c: char) -> Seq<u8> {
    let u = c as u32;
    seq![
        (u & 0xFF) as u8,
        ((u >> 8) & 0xFF) as u8,
        ((u >> 16) & 0xFF) as u8,
        ((u >> 24) & 0xFF) as u8,
    ]
}

/// The name characters as explicit little-endian 32-bit scalars, four bytes
/// per character: the full-width encoding of the record's character field.
pub open spec fn unicode_rep(cs: Seq<char>) -> Seq<u8>
    decreases cs.len(),
{
    if cs.len() == 0 {
        Seq::empty()
    } else {
        char_le_bytes(cs[0]) + unicode_rep(cs.skip(1))
    }
}

/// Appending one character appends its four bytes.
pub proof fn lemma_unicode_rep_snoc(cs: Seq<char>, c: char)
    ensures
        unicode_rep(cs.push(c)) == unicode_rep(cs) + char_le_bytes(c),
    decreases cs.len(),
{
    assert(unicode_rep(cs.push(c)) == char_le_bytes(cs.push(c)[0]) + unicode_rep(
        cs.push(c).skip(1),
    ));
    if cs.len() == 0 {
        assert(cs.push(c)[0] == c);
        assert(cs.push(c).skip(1) =~= Seq::<char>::empty());
        assert(unicode_rep(Seq::<char>::empty()) == Seq::<u8>::empty());
        assert(unicode_rep(cs.push(c)) =~= unicode_rep(cs) + char_le_bytes(c));
    } else {
        assert(cs.push(c)[0] == cs[0]);
        assert(cs.push(c).skip(1) =~= cs.skip(1).push(c));
        lemma_unicode_rep_snoc(cs.skip(1), c);
        assert(unicode_rep(cs.push(c)) =~= unicode_rep(cs) + char_le_bytes(c));
    }
}

/// Mathematical model of an identification record.
pub ghost struct DataIdModel {
    pub version: Seq<char>,
    pub max_packet_size: u16,
}

/// Identity/capability advertisement: a name/version of up to 29 characters
/// (padded with NUL to 30) and the largest packet size the sender supports.
pub struct DataId {
    version: Vec<char>,
    max_packet_size: u16,
}

impl View for DataId {
    type V = DataIdModel;

    closed spec fn view(&self) -> DataIdModel {
        DataIdModel { version: self.version@, max_packet_size: self.max_packet_size }
    }
}

impl DataId {
    /// The name/version field always holds exactly 30 characters.
    pub open spec fn wf(&self) -> bool {
        self@.version.len() == 30
    }

    /// Creates a record from a name/version of fewer than 30 characters
    /// (leaving room for a NUL terminator) and a declared packet size.
    pub fn new(version: &str, packet_size: usize) -> (r: DataId)
        requires
            version@.len() < 30,
        ensures
            r.wf(),
            r@.version == version@ + Seq::new((30 - version@.len()) as nat, |i: int| '\0'),
            r@.max_packet_size == packet_size as u16,
    {
        let n: usize = version.unicode_len();
        let mut v: Vec<char> = Vec::new();
        let mut i: usize = 0;
        while i < n
            invariant
                i <= n,
                n == version@.len(),
                v@ == version@.take(i as int),
            decreases n - i,
        {
            proof {
                assert(version@.take(i + 1) =~= version@.take(i as int).push(
                    version@[i as int],
                ));
            }
            v.push(version.get_char(i));
            i = i + 1;
        }
        proof {
            assert(version@.take(n as int) =~= version@);
        }
        while v.len() < 30
            invariant
                version@.len() <= v@.len() <= 30,
                v@ == version@ + Seq::new((v@.len() - version@.len()) as nat, |i: int| '\0'),
            decreases 30 - v@.len(),
        {
            proof {
                assert(version@ + Seq::new((v@.len() + 1 - version@.len()) as nat, |i: int| '\0')
                    =~= v@.push('\0'));
            }
            v.push('\0');
        }
        DataId { version: v, max_packet_size: #[verifier::truncate] (packet_size as u16) }
    }

    /// Reconstructs a record from a received payload: the first 30 bytes are
    /// the name characters, the next two the little-endian packet size. A
    /// payload shorter than the 32-byte record is rejected.
    pub fn from(data: &[u8]) -> (r: Option<DataId>)
        ensures
            data@.len() < 32 ==> r is None,
            data@.len() >= 32 ==> {
                &&& r matches Some(id)
                &&& id.wf()
                &&& id@.version == data@.take(30).map_values(|b: u8| b as char)
                &&& id@.max_packet_size == u16_from_le_bytes(data@[30], data@[31])
            },
    {
        if data.len() < 32 {
            return None;
        }
        let mut v: Vec<char> = Vec::new();
        let mut i: usize = 0;
        while i < 30
            invariant
                i <= 30,
                data@.len() >= 32,
                v@ == data@.take(30).map_values(|b: u8| b as char).take(i as int),
            decreases 30 - i,
        {
            proof {
                let m = data@.take(30).map_values(|b: u8| b as char);
                assert(m.take(i + 1) =~= m.take(i as int).push(m[i as int]));
            }
            v.push(data[i] as char);
            i = i + 1;
        }
        proof {
            let m = data@.take(30).map_values(|b: u8| b as char);
            assert(m.take(30) =~= m);
        }
        let b0 = data[30];
        let b1 = data[31];
        Some(DataId { version: v, max_packet_size: (b0 as u16) | ((b1 as u16) << 8) })
    }

    /// The name characters as raw bytes, one byte per character.
    pub fn ascii_bytes(&self) -> (r: Vec<u8>)
        ensures
            r@ == ascii_name_bytes(self@.version),
    {
        let mut r: Vec<u8> = Vec::new();
        let n: usize = self.version.len();
        let mut i: usize = 0;
        while i < n
            invariant
                i <= n,
                n == self@.version.len(),
                r@ == ascii_name_bytes(self@.version).take(i as int),
            decreases n - i,
        {
            proof {
                let m = ascii_name_bytes(self@.version);
                assert(m.take(i + 1) =~= m.take(i as int).push(m[i as int]));
            }
            let u: u32 = self.version[i] as u32;
            r.push(u as u8);
            i = i + 1;
        }
        proof {
            assert(ascii_name_bytes(self@.version).take(n as int) =~= ascii_name_bytes(
                self@.version,
            ));
        }
        r
    }

    /// The record's explicit in-memory representation on the wire: each name
    /// character as four little-endian bytes, then the two little-endian
    /// bytes of the maximum packet size.
    pub fn unicode_bytes(&self) -> (r: Vec<u8>)
        ensures
            r@ == unicode_rep(self@.version) + u16_le_bytes(self@.max_packet_size),
    {
        let mut r: Vec<u8> = Vec::new();
        let n: usize = self.version.len();
        let mut i: usize = 0;
        while i < n
            invariant
                i <= n,
                n == self@.version.len(),
                r@ == unicode_rep(self@.version.take(i as int)),
            decreases n - i,
        {
            let u: u32 = self.version[i] as u32;
            r.push((u & 0xFF) as u8);
            r.push(((u >> 8) & 0xFF) as u8);
            r.push(((u >> 16) & 0xFF) as u8);
            r.push(((u >> 24) & 0xFF) as u8);
            proof {
                assert(self@.version.take(i + 1) =~= self@.version.take(i as int).push(
                    self@.version[i as int],
                ));
                lemma_unicode_rep_snoc(self@.version.take(i as int), self@.version[i as int]);
                assert(r@ =~= unicode_rep(self@.version.take(i + 1)));
            }
            i = i + 1;
        }
        proof {
            assert(self@.version.take(n as int) =~= self@.version);
            assert(r@ == unicode_rep(self@.version));
        }
        r.push((self.max_packet_size & 0xFF) as u8);
        r.push(((self.max_packet_size >> 8) & 0xFF) as u8);
        proof {
            assert(r@ =~= unicode_rep(self@.version) + u16_le_bytes(self@.max_packet_size));
        }
        r
    }

    /// The name/version characters, NUL-padded to 30.
    pub fn get_version(&self) -> (r: &Vec<char>)
        ensures
            r@ == self@.version,
    {
        &self.version
    }

    /// The declared maximum packet size.
    pub fn get_max_packet_size(&self) -> (r: u16)
        ensures
            r == self@.max_packet_size,
    {
        self.max_packet_size
    }
}

} // verus!
