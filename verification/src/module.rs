//! The module: the file header, and the patterns and instruments that follow
//! it in the buffer.

use crate::bytes::{read_string, read_u16, read_usize, text_field, u16_le, u32_le};
use crate::error::{XMErrorKind, XMParseError};
use crate::instrument::{instrument_len, instrument_ok, XMInstrument};
use crate::pattern::{pattern_ok, XMPattern};
use vstd::prelude::*;
use vstd::slice::{slice_subrange, slice_to_vec};

verus! {

pub const XM_MODULE_NAME: usize = 0x11;

pub const XM_TRACKER_NAME: usize = 0x25;

pub const XM_VERSION_MINOR: usize = 0x3a;

pub const XM_VERSION_MAJOR: usize = 0x3b;

pub const XM_HEADER_SIZE: usize = 0x3c;

pub const XM_SEQUENCE_LEN: usize = 0x40;

pub const XM_RESTART_POS: usize = 0x42;

pub const XM_CHANNEL_COUNT: usize = 0x44;

pub const XM_PATTERN_COUNT: usize = 0x46;

pub const XM_INSTRUMENT_COUNT: usize = 0x48;

pub const XM_FREQ_TABLE_TYPE: usize = 0x4a;

pub const XM_DEFAULT_TEMPO: usize = 0x4c;

pub const XM_DEFAULT_BPM: usize = 0x4e;

pub const XM_SEQUENCE_BEGIN: usize = 0x50;

/// The 17 bytes with which a module begins: the text "Extended Module: ".
pub open spec fn signature() -> Seq<u8> {
    seq![
        0x45u8, 0x78u8, 0x74u8, 0x65u8, 0x6eu8, 0x64u8, 0x65u8, 0x64u8, 0x20u8, 0x4du8, 0x6fu8,
        0x64u8, 0x75u8, 0x6cu8, 0x65u8, 0x3au8, 0x20u8,
    ]
}

/// The length of the file header: the 60 bytes up to the size field, and the
/// size that the field declares.
pub open spec fn header_len(s: Seq<u8>) -> int {
    60 + u32_le(s, 0x3c)
}

/// Whether `s` passes for a version 1.04 module: it holds the 60 bytes up to
/// the size field, that field and the whole header, begins with the
/// signature, and names version 1.04.
pub open spec fn filetype_ok(s: Seq<u8>) -> bool {
    &&& s.len() >= 64
    &&& s.len() >= header_len(s)
    &&& s.subrange(0, 17) == signature()
    &&& s[0x3a] == 4
    &&& s[0x3b] == 1
}

/// Whether the header of `s` is that of a module and holds the fixed fields
/// and the whole order list.
pub open spec fn header_ok(s: Seq<u8>) -> bool {
    &&& filetype_ok(s)
    &&& header_len(s) >= 0x50
    &&& header_len(s) >= 0x50 + u16_le(s, 0x40)
}

/// The length of the pattern record at `off`: its header and its packed
/// data.
pub open spec fn pattern_size(s: Seq<u8>, off: int) -> int {
    u32_le(s, off) + u16_le(s, off + 7)
}

/// Whether a whole pattern record lies at `off`.
pub open spec fn pattern_fits(s: Seq<u8>, off: int) -> bool {
    &&& 0 <= off
    &&& off + 9 <= s.len()
    &&& off + pattern_size(s, off) <= s.len()
}

/// The offset of the pattern record `k`, where the records before it lie
/// whole in `s`. The first follows the header, each other the one before it.
pub open spec fn pattern_offset(s: Seq<u8>, k: int) -> Option<int>
    decreases k,
{
    if k <= 0 {
        Some(header_len(s))
    } else {
        match pattern_offset(s, k - 1) {
            Some(off) => if pattern_fits(s, off) {
                Some(off + pattern_size(s, off))
            } else {
                None
            },
            None => None,
        }
    }
}

/// The pattern record `k`.
pub open spec fn pattern_record(s: Seq<u8>, k: int) -> Seq<u8> {
    let off = pattern_offset(s, k)->Some_0;
    s.subrange(off, off + pattern_size(s, off))
}

/// The offset of the instrument record `k`, where the records before it lie
/// whole in `s`. The first follows the last pattern, each other the one
/// before it.
pub open spec fn instrument_offset(s: Seq<u8>, k: int) -> Option<int>
    decreases k,
{
    if k <= 0 {
        pattern_offset(s, s[0x46] as int)
    } else {
        match instrument_offset(s, k - 1) {
            Some(off) => if instrument_ok(s, off) {
                Some(off + instrument_len(s, off))
            } else {
                None
            },
            None => None,
        }
    }
}

/// Whether `s` holds a whole module: a header, then as many well-formed
/// pattern records as the header counts, then as many whole instrument
/// records as it counts. What follows the last record is not looked at.
pub open spec fn module_ok(s: Seq<u8>) -> bool {
    &&& header_ok(s)
    &&& pattern_offset(s, s[0x46] as int) is Some
    &&& forall|k: int| 0 <= k < s[0x46] ==> pattern_ok(#[trigger] pattern_record(s, k), s[0x44] as int)
    &&& instrument_offset(s, s[0x48] as int) is Some
}

/// A buffer that does not begin with the signature is no module.
pub proof fn lemma_signature_needed(s: Seq<u8>)
    requires
        s.subrange(0, 17) != signature(),
    ensures
        !filetype_ok(s),
        !module_ok(s),
{
}

/// A buffer that is shorter than the header it declares is no module.
pub proof fn lemma_whole_header_needed(s: Seq<u8>)
    requires
        s.len() < 60 + u32_le(s, 0x3c),
    ensures
        !filetype_ok(s),
        !module_ok(s),
{
}

/// Once a pattern record does not fit, none after it has an offset.
pub proof fn lemma_pattern_offset_none(s: Seq<u8>, k: int, n: int)
    requires
        k <= n,
        pattern_offset(s, k) is None,
    ensures
        pattern_offset(s, n) is None,
    decreases n - k,
{
    if k < n {
        lemma_pattern_offset_none(s, k, n - 1);
    }
}

/// Once an instrument record does not fit, none after it has an offset.
pub proof fn lemma_instrument_offset_none(s: Seq<u8>, k: int, n: int)
    requires
        k <= n,
        instrument_offset(s, k) is None,
    ensures
        instrument_offset(s, n) is None,
    decreases n - k,
{
    if k < n {
        lemma_instrument_offset_none(s, k, n - 1);
    }
}

/// A decoded module.
#[derive(Debug)]
pub struct XModule {
    header: Vec<u8>,
    pub patterns: Vec<XMPattern>,
    pub instruments: Vec<XMInstrument>,
}

impl XModule {
    /// The bytes of the file header.
    pub closed spec fn header(&self) -> Seq<u8> {
        self.header@
    }

    /// The patterns, in the order of the file.
    pub closed spec fn patterns_view(&self) -> Seq<XMPattern> {
        self.patterns@
    }

    /// The instruments, in the order of the file.
    pub closed spec fn instruments_view(&self) -> Seq<XMInstrument> {
        self.instruments@
    }

    /// The order list: the pattern numbers in the order of play.
    pub open spec fn order_list(&self) -> Seq<u8> {
        self.header().subrange(0x50, 0x50 + u16_le(self.header(), 0x40))
    }

    /// The header holds the fixed fields and the order list. There are as
    /// many patterns and instruments as it counts, each well formed, and
    /// every pattern has as many channels as it counts.
    pub open spec fn wf(&self) -> bool {
        &&& self.header().len() >= 0x50 + u16_le(self.header(), 0x40)
        &&& self.patterns_view().len() == self.header()[0x46]
        &&& self.instruments_view().len() == self.header()[0x48]
        &&& forall|k: int|
            0 <= k < self.patterns_view().len() ==> {
                &&& (#[trigger] self.patterns_view()[k]).wf()
                &&& self.patterns_view()[k].grid().len() == self.header()[0x44]
            }
        &&& forall|k: int|
            0 <= k < self.instruments_view().len() ==> (#[trigger] self.instruments_view()[k]).wf()
    }

    /// Whether the module holds what the buffer `s` codes.
    pub open spec fn represents(&self, s: Seq<u8>) -> bool {
        &&& self.header() == s.subrange(0, header_len(s))
        &&& self.patterns_view().len() == s[0x46]
        &&& self.instruments_view().len() == s[0x48]
        &&& forall|k: int|
            0 <= k < self.patterns_view().len() ==> (#[trigger] self.patterns_view()[k]).represents(
                pattern_record(s, k),
                s[0x44] as int,
            )
        &&& forall|k: int|
            0 <= k < self.instruments_view().len() ==> (
            #[trigger] self.instruments_view()[k]).represents(s, instrument_offset(s, k)->Some_0)
    }

    /// Decodes a module from the bytes of a file.
    ///
    /// Fails with `Format` unless the buffer holds a whole module; no part of
    /// a module is returned then.
    pub fn parse(data: Vec<u8>) -> (r: Result<XModule, XMParseError>)
        ensures
            match r {
                Ok(xm) => module_ok(data@) && xm.wf() && xm.represents(data@),
                Err(e) => !module_ok(data@) && e.kind() == XMErrorKind::Format,
            },
    {
        let bytes = data.as_slice();
        let len: usize = bytes.len();
        match XModule::verify_filetype(bytes) {
            Ok(_) => {},
            Err(e) => {
                return Err(e);
            },
        }
        let header_end: usize = XM_HEADER_SIZE + read_usize(bytes, XM_HEADER_SIZE);
        if header_end < XM_SEQUENCE_BEGIN || header_end - XM_SEQUENCE_BEGIN < read_u16(
            bytes,
            XM_SEQUENCE_LEN,
        ) as usize {
            return Err(XMParseError::new(XMErrorKind::Format, "Corrupted or invalid XM data."));
        }
        let header = slice_to_vec(slice_subrange(bytes, 0, header_end));
        let channel_count: u8 = bytes[XM_CHANNEL_COUNT];
        let pattern_count: usize = bytes[XM_PATTERN_COUNT] as usize;
        let instrument_count: usize = bytes[XM_INSTRUMENT_COUNT] as usize;
        let mut off: usize = header_end;

        let mut patterns: Vec<XMPattern> = Vec::new();
        while patterns.len() < pattern_count
            invariant
                header_ok(data@),
                header@ == data@.subrange(0, header_len(data@)),
                patterns@.len() <= pattern_count == data@[0x46],
                channel_count == data@[0x44],
                bytes@ == data@,
                len == data@.len(),
                off <= len,
                pattern_offset(data@, patterns@.len() as int) == Some(off as int),
                forall|k: int|
                    0 <= k < patterns@.len() ==> {
                        &&& pattern_ok(#[trigger] pattern_record(data@, k), channel_count as int)
                        &&& patterns@[k].wf()
                        &&& patterns@[k].represents(pattern_record(data@, k), channel_count as int)
                    },
            decreases pattern_count - patterns@.len(),
        {
            let ghost k = patterns@.len() as int;
            if len - off < 9 {
                proof {
                    lemma_pattern_offset_none(data@, k + 1, pattern_count as int);
                }
                return Err(XMParseError::new(XMErrorKind::Format, "Corrupted or invalid XM data."));
            }
            let ptn_header: usize = read_usize(bytes, off);
            let ptn_packed: usize = read_u16(bytes, off + 7) as usize;
            if ptn_header > len - off || ptn_packed > len - off - ptn_header {
                proof {
                    lemma_pattern_offset_none(data@, k + 1, pattern_count as int);
                }
                return Err(XMParseError::new(XMErrorKind::Format, "Corrupted or invalid XM data."));
            }
            let ptn_size: usize = ptn_header + ptn_packed;
            let record = slice_to_vec(slice_subrange(bytes, off, off + ptn_size));
            assert(record@ == pattern_record(data@, k));
            match XMPattern::parse(record, channel_count) {
                Ok(ptn) => {
                    patterns.push(ptn);
                },
                Err(e) => {
                    return Err(e);
                },
            }
            off += ptn_size;
        }

        let mut instruments: Vec<XMInstrument> = Vec::new();
        while instruments.len() < instrument_count
            invariant
                header_ok(data@),
                header@ == data@.subrange(0, header_len(data@)),
                patterns@.len() == data@[0x46],
                forall|k: int|
                    0 <= k < patterns@.len() ==> {
                        &&& pattern_ok(#[trigger] pattern_record(data@, k), data@[0x44] as int)
                        &&& patterns@[k].wf()
                        &&& patterns@[k].represents(pattern_record(data@, k), data@[0x44] as int)
                    },
                instruments@.len() <= instrument_count == data@[0x48],
                bytes@ == data@,
                off <= len == data@.len(),
                instrument_offset(data@, instruments@.len() as int) == Some(off as int),
                forall|k: int|
                    0 <= k < instruments@.len() ==> {
                        &&& (#[trigger] instruments@[k]).wf()
                        &&& instruments@[k].represents(
                            data@,
                            instrument_offset(data@, k)->Some_0,
                        )
                    },
            decreases instrument_count - instruments@.len(),
        {
            let ghost k = instruments@.len() as int;
            match XMInstrument::parse_at(bytes, off) {
                Ok(found) => {
                    instruments.push(found.0);
                    off = found.1;
                },
                Err(e) => {
                    proof {
                        lemma_instrument_offset_none(data@, k + 1, instrument_count as int);
                    }
                    return Err(e);
                },
            }
        }
        let xm = XModule { header, patterns, instruments };
        assert(xm.represents(data@));
        Ok(xm)
    }

    /// Returns the pattern with the given number, or `None` where the module
    /// has no such pattern.
    pub fn pattern(&self, index: u8) -> (r: Option<&XMPattern>)
        ensures
            match r {
                Some(ptn) => index < self.patterns_view().len() && *ptn
                    == self.patterns_view()[index as int],
                None => index >= self.patterns_view().len(),
            },
    {
        let i: usize = index as usize;
        if i < self.patterns.len() {
            Some(&self.patterns[i])
        } else {
            None
        }
    }

    /// Returns the instrument with the given number, counted from 0, or
    /// `None` where the module has no such instrument.
    pub fn instrument(&self, index: u8) -> (r: Option<&XMInstrument>)
        ensures
            match r {
                Some(instr) => index < self.instruments_view().len() && *instr
                    == self.instruments_view()[index as int],
                None => index >= self.instruments_view().len(),
            },
    {
        let i: usize = index as usize;
        if i < self.instruments.len() {
            Some(&self.instruments[i])
        } else {
            None
        }
    }

    /// Returns true if the Amiga frequency table is used, false if the
    /// linear one is.
    pub fn amiga_ft(&self) -> (b: bool)
        requires
            self.wf(),
        ensures
            b == (self.header()[0x4a] == 0),
    {
        self.header[XM_FREQ_TABLE_TYPE] == 0
    }

    /// The default BPM.
    pub open spec fn spec_bpm(&self) -> u8 {
        self.header()[0x4e]
    }

    /// Returns the default BPM.
    #[verifier::when_used_as_spec(spec_bpm)]
    pub fn bpm(&self) -> (v: u8)
        requires
            self.wf(),
        ensures
            v == self.spec_bpm(),
    {
        self.header[XM_DEFAULT_BPM]
    }

    /// Returns the number of channels.
    pub fn channel_count(&self) -> (v: u8)
        requires
            self.wf(),
        ensures
            v == self.header()[0x44],
    {
        self.header[XM_CHANNEL_COUNT]
    }

    /// Returns the number of instruments.
    pub fn instrument_count(&self) -> (v: u8)
        requires
            self.wf(),
        ensures
            v == self.header()[0x48],
            v == self.instruments_view().len(),
    {
        self.header[XM_INSTRUMENT_COUNT]
    }

    /// Returns the length of the order list.
    pub fn len(&self) -> (v: u16)
        requires
            self.wf(),
        ensures
            v == u16_le(self.header(), 0x40),
            v == self.order_list().len(),
    {
        read_u16(self.header.as_slice(), XM_SEQUENCE_LEN)
    }

    /// Returns the name of the module.
    pub fn name(&self) -> (s: String)
        requires
            self.wf(),
        ensures
            s@ == text_field(self.header(), 0x11, 20),
    {
        read_string(self.header.as_slice(), XM_MODULE_NAME, 20)
    }

    /// Returns the number of patterns.
    pub fn pattern_count(&self) -> (v: u8)
        requires
            self.wf(),
        ensures
            v == self.header()[0x46],
            v == self.patterns_view().len(),
    {
        self.header[XM_PATTERN_COUNT]
    }

    /// Returns the position in the order list at which play resumes.
    pub fn restart_pos(&self) -> (v: u16)
        requires
            self.wf(),
        ensures
            v == u16_le(self.header(), 0x42),
    {
        read_u16(self.header.as_slice(), XM_RESTART_POS)
    }

    /// Returns the order list.
    pub fn sequence(&self) -> (v: Vec<u8>)
        requires
            self.wf(),
        ensures
            v@ == self.order_list(),
    {
        let count: usize = read_u16(self.header.as_slice(), XM_SEQUENCE_LEN) as usize;
        slice_to_vec(
            slice_subrange(self.header.as_slice(), XM_SEQUENCE_BEGIN, XM_SEQUENCE_BEGIN + count),
        )
    }

    /// The default tempo.
    pub open spec fn spec_tempo(&self) -> u8 {
        self.header()[0x4c]
    }

    /// Returns the default tempo.
    #[verifier::when_used_as_spec(spec_tempo)]
    pub fn tempo(&self) -> (v: u8)
        requires
            self.wf(),
        ensures
            v == self.spec_tempo(),
    {
        self.header[XM_DEFAULT_TEMPO]
    }

    /// Returns the name of the tracker that wrote the module.
    pub fn tracker_name(&self) -> (s: String)
        requires
            self.wf(),
        ensures
            s@ == text_field(self.header(), 0x25, 20),
    {
        read_string(self.header.as_slice(), XM_TRACKER_NAME, 20)
    }

    /// Returns true if the order list names the pattern `ptn`.
    pub fn pattern_used(&self, ptn: u8) -> (b: bool)
        requires
            self.wf(),
        ensures
            b == self.order_list().contains(ptn),
    {
        let order = self.sequence();
        let mut i: usize = 0;
        while i < order.len()
            invariant
                i <= order@.len(),
                order@ == self.order_list(),
                forall|j: int| 0 <= j < i ==> order@[j] != ptn,
            decreases order@.len() - i,
        {
            if order[i] == ptn {
                return true;
            }
            i += 1;
        }
        false
    }

    /// Tells whether the buffer passes for a version 1.04 module.
    ///
    /// Fails with `Format` where the buffer ends before the header size
    /// field does or is shorter than the header it declares, does not begin
    /// with the signature, or names another version.
    pub fn verify_filetype(data: &[u8]) -> (r: Result<(), XMParseError>)
        ensures
            match r {
                Ok(_) => filetype_ok(data@),
                Err(e) => !filetype_ok(data@) && e.kind() == XMErrorKind::Format,
            },
    {
        let len: usize = data.len();
        if len < 64 || len - 60 < read_usize(data, XM_HEADER_SIZE) {
            return Err(XMParseError::new(XMErrorKind::Format, "Corrupted or invalid XM data."));
        }
        if !has_signature(data) {
            return Err(XMParseError::new(XMErrorKind::Format, "Not an eXtended Module."));
        }
        if data[XM_VERSION_MINOR] != 4 || data[XM_VERSION_MAJOR] != 1 {
            return Err(
                XMParseError::new(
                    XMErrorKind::Format,
                    "XM data not from version 1.04 XM standard.",
                ),
            );
        }
        Ok(())
    }
}

/// Tells whether the buffer begins with the signature.
fn has_signature(data: &[u8]) -> (b: bool)
    requires
        data@.len() >= 17,
    ensures
        b == (data@.subrange(0, 17) == signature()),
{
    let magic: [u8; 17] = [
        0x45, 0x78, 0x74, 0x65, 0x6e, 0x64, 0x65, 0x64, 0x20, 0x4d, 0x6f, 0x64, 0x75, 0x6c, 0x65,
        0x3a, 0x20,
    ];
    assert(magic@ =~= signature());
    let mut i: usize = 0;
    while i < 17
        invariant
            i <= 17,
            data@.len() >= 17,
            magic@ == signature(),
            forall|j: int| 0 <= j < i ==> data@[j] == signature()[j],
        decreases 17 - i,
    {
        if data[i] != magic[i] {
            assert(data@.subrange(0, 17)[i as int] != signature()[i as int]);
            return false;
        }
        i += 1;
    }
    assert(data@.subrange(0, 17) =~= signature());
    true
}

} // verus!
