//! Instruments: a header with envelopes and vibrato settings, followed by
//! the headers and then the payloads of its samples.

use crate::bytes::{read_string, read_u16, read_usize, text_field, u16_le, u32_le};
use crate::error::{XMErrorKind, XMParseError};
use crate::sample::XMSample;
use vstd::prelude::*;
use vstd::slice::{slice_subrange, slice_to_vec};

verus! {

pub const XM_ENVELOPE_ON: u8 = 0x1;

pub const XM_ENVELOPE_SUSTAIN: u8 = 0x2;

pub const XM_ENVELOPE_LOOP: u8 = 0x4;

/// The length of the header of an instrument without samples.
pub const XM_EMPTY_INSTRUMENT_LEN: usize = 29;

/// The least length of the header of an instrument with samples: it reaches
/// to the end of the fadeout field.
pub const XM_FULL_INSTRUMENT_LEN: usize = 241;

/// The length of each envelope table.
pub const XM_ENVELOPE_TABLE_LEN: usize = 48;

/// The number of samples that the instrument record at `off` declares.
pub open spec fn declared_samples(s: Seq<u8>, off: int) -> int {
    s[off + 27] as int
}

/// The length of the header of the instrument record at `off`: 29 bytes
/// where it has no samples, else the length that it declares.
pub open spec fn instrument_header_len(s: Seq<u8>, off: int) -> int {
    if s[off + 27] == 0 {
        29
    } else {
        u32_le(s, off)
    }
}

/// The offset of the header of sample `k`.
pub open spec fn sample_header_at(s: Seq<u8>, off: int, k: int) -> int {
    off + instrument_header_len(s, off) + 40 * k
}

/// The length of the payload of sample `k`, which its header declares.
pub open spec fn sample_payload_len(s: Seq<u8>, off: int, k: int) -> int {
    u32_le(s, sample_header_at(s, off, k))
}

/// The length of the payloads of the first `k` samples together.
pub open spec fn payloads_len(s: Seq<u8>, off: int, k: int) -> int
    decreases k,
{
    if k <= 0 {
        0
    } else {
        payloads_len(s, off, k - 1) + sample_payload_len(s, off, k - 1)
    }
}

/// The offset of the payload of sample `k`: the payloads follow the last
/// sample header, in the order of the headers.
pub open spec fn sample_payload_at(s: Seq<u8>, off: int, k: int) -> int {
    sample_header_at(s, off, declared_samples(s, off)) + payloads_len(s, off, k)
}

/// The length of the instrument record at `off`: header, sample headers and
/// payloads.
pub open spec fn instrument_len(s: Seq<u8>, off: int) -> int {
    sample_payload_at(s, off, declared_samples(s, off)) - off
}

/// Whether a whole instrument record lies at `off`: the 29 bytes that every
/// instrument has and, where it has samples, a header of at least 241 bytes,
/// the sample headers and the payloads.
pub open spec fn instrument_ok(s: Seq<u8>, off: int) -> bool {
    &&& 0 <= off
    &&& off + 29 <= s.len()
    &&& declared_samples(s, off) > 0 ==> {
        &&& instrument_header_len(s, off) >= 241
        &&& sample_header_at(s, off, declared_samples(s, off)) <= s.len()
        &&& off + instrument_len(s, off) <= s.len()
    }
}

/// The payloads of more samples are not shorter.
pub proof fn lemma_payloads_len_grows(s: Seq<u8>, off: int, k: int, n: int)
    requires
        0 <= k <= n,
        off >= 0,
        forall|j: int| 0 <= j < n ==> 0 <= sample_header_at(s, off, j) && sample_header_at(s, off, j) + 4 <= s.len(),
    ensures
        0 <= payloads_len(s, off, k) <= payloads_len(s, off, n),
    decreases n,
{
    if n > 0 {
        if k < n {
            lemma_payloads_len_grows(s, off, k, n - 1);
        } else {
            lemma_payloads_len_grows(s, off, k - 1, n - 1);
        }
    }
}

/// A byte of the header of an instrument with samples.
pub open spec fn header_byte(h: Seq<u8>, at: int) -> Option<u8> {
    if h[27] == 0 {
        None
    } else {
        Some(h[at])
    }
}

/// A byte of the header that is read only where the instrument has samples
/// and the volume envelope has points.
pub open spec fn envelope_byte(h: Seq<u8>, at: int) -> Option<u8> {
    if h[27] == 0 || h[225] == 0 {
        None
    } else {
        Some(h[at])
    }
}

/// A byte of the header that is read only where the instrument has samples,
/// the volume envelope has points and the volume envelope loops.
pub open spec fn loop_byte(h: Seq<u8>, at: int) -> Option<u8> {
    if h[27] == 0 || h[225] == 0 || h[233] & 0x4 == 0 {
        None
    } else {
        Some(h[at])
    }
}

/// As many bytes from the start of the envelope table at `table` as the
/// envelope has points, the whole table at most; nothing where the
/// instrument has no samples or the envelope no points.
pub open spec fn envelope_points(h: Seq<u8>, table: int, count: int) -> Option<Seq<u8>> {
    if h[27] == 0 || h[count] == 0 {
        None
    } else if h[count] <= 48 {
        Some(h.subrange(table, table + h[count]))
    } else {
        Some(h.subrange(table, table + 48))
    }
}

/// The record of an instrument without samples is its header of 29 bytes.
/// Nothing is read from the envelope and vibrato fields of such a header.
pub proof fn lemma_instrument_without_samples(s: Seq<u8>, off: int)
    requires
        instrument_ok(s, off),
        declared_samples(s, off) == 0,
    ensures
        instrument_header_len(s, off) == 29,
        instrument_len(s, off) == 29,
        forall|at: int| (#[trigger] header_byte(s.subrange(off, off + 29), at)) is None,
        forall|at: int| (#[trigger] envelope_byte(s.subrange(off, off + 29), at)) is None,
        forall|at: int| (#[trigger] loop_byte(s.subrange(off, off + 29), at)) is None,
        forall|table: int, count: int|
            (#[trigger] envelope_points(s.subrange(off, off + 29), table, count)) is None,
{
    assert(payloads_len(s, off, 0) == 0);
}

/// One instrument of a module.
#[derive(Debug)]
pub struct XMInstrument {
    header: Vec<u8>,
    pub samples: Vec<XMSample>,
}

impl XMInstrument {
    /// The bytes of the instrument header.
    pub closed spec fn header(&self) -> Seq<u8> {
        self.header@
    }

    /// The samples, in the order of their headers.
    pub closed spec fn samples_view(&self) -> Seq<XMSample> {
        self.samples@
    }

    /// The header has 29 bytes where the instrument has no samples and at
    /// least 241 where it has some; there are as many samples as the header
    /// declares, each well formed.
    pub open spec fn wf(&self) -> bool {
        &&& self.header().len() >= 29
        &&& self.header()[27] == 0 ==> self.header().len() == 29
        &&& self.header()[27] > 0 ==> self.header().len() >= 241
        &&& self.samples_view().len() == self.header()[27]
        &&& forall|k: int| 0 <= k < self.samples_view().len() ==> (#[trigger] self.samples_view()[k]).wf()
    }

    /// Whether the instrument holds what the record at `off` codes.
    pub open spec fn represents(&self, s: Seq<u8>, off: int) -> bool {
        &&& self.header() == s.subrange(off, off + instrument_header_len(s, off))
        &&& self.samples_view().len() == declared_samples(s, off)
        &&& forall|k: int|
            0 <= k < self.samples_view().len() ==> {
                &&& (#[trigger] self.samples_view()[k]).header() == s.subrange(
                    sample_header_at(s, off, k),
                    sample_header_at(s, off, k) + 40,
                )
                &&& self.samples_view()[k].payload() == s.subrange(
                    sample_payload_at(s, off, k),
                    sample_payload_at(s, off, k) + sample_payload_len(s, off, k),
                )
            }
    }

    /// Decodes the instrument record with which `data` begins.
    ///
    /// Fails with `Format` where `data` is shorter than the lengths that the
    /// record declares.
    pub fn parse(data: Vec<u8>) -> (r: Result<XMInstrument, XMParseError>)
        ensures
            match r {
                Ok(instr) => instrument_ok(data@, 0) && instr.wf() && instr.represents(data@, 0),
                Err(e) => !instrument_ok(data@, 0) && e.kind() == XMErrorKind::Format,
            },
    {
        match XMInstrument::parse_at(data.as_slice(), 0) {
            Ok(found) => Ok(found.0),
            Err(e) => Err(e),
        }
    }

    /// Decodes the instrument record that lies at `off`, and returns the
    /// instrument with the offset at which the record ends.
    ///
    /// Fails with `Format` where the data ends before the record does.
    pub fn parse_at(data: &[u8], off: usize) -> (r: Result<(XMInstrument, usize), XMParseError>)
        ensures
            match r {
                Ok(found) => {
                    &&& instrument_ok(data@, off as int)
                    &&& found.0.wf()
                    &&& found.0.represents(data@, off as int)
                    &&& found.1 == off + instrument_len(data@, off as int)
                },
                Err(e) => !instrument_ok(data@, off as int) && e.kind() == XMErrorKind::Format,
            },
    {
        let len: usize = data.len();
        if off > len || len - off < XM_EMPTY_INSTRUMENT_LEN {
            return Err(corrupt_instrument());
        }
        let count: usize = data[off + 27] as usize;
        if count == 0 {
            let header = slice_to_vec(slice_subrange(data, off, off + XM_EMPTY_INSTRUMENT_LEN));
            return Ok((XMInstrument { header, samples: Vec::new() }, off + XM_EMPTY_INSTRUMENT_LEN));
        }
        let header_len: usize = read_usize(data, off);
        if header_len < XM_FULL_INSTRUMENT_LEN || header_len > len - off {
            return Err(corrupt_instrument());
        }
        let heads: usize = off + header_len;
        if 40 * count > len - heads {
            return Err(corrupt_instrument());
        }
        let header = slice_to_vec(slice_subrange(data, off, heads));
        let mut samples: Vec<XMSample> = Vec::new();
        let mut at: usize = heads + 40 * count;
        let mut k: usize = 0;
        while k < count
            invariant
                k <= count == declared_samples(data@, off as int),
                0 < count <= 255,
                len == data@.len(),
                heads == off + instrument_header_len(data@, off as int),
                heads + 40 * count <= len,
                at == sample_payload_at(data@, off as int, k as int),
                at <= len,
                samples@.len() == k,
                forall|j: int|
                    0 <= j < k ==> {
                        &&& (#[trigger] samples@[j]).wf()
                        &&& samples@[j].header() == data@.subrange(
                            sample_header_at(data@, off as int, j),
                            sample_header_at(data@, off as int, j) + 40,
                        )
                        &&& samples@[j].payload() == data@.subrange(
                            sample_payload_at(data@, off as int, j),
                            sample_payload_at(data@, off as int, j) + sample_payload_len(
                                data@,
                                off as int,
                                j,
                            ),
                        )
                    },
            decreases count - k,
        {
            let head: usize = heads + 40 * k;
            let size: usize = read_usize(data, head);
            if size > len - at {
                proof {
                    lemma_payloads_len_grows(data@, off as int, k + 1, count as int);
                }
                return Err(corrupt_instrument());
            }
            let sample_header = slice_to_vec(slice_subrange(data, head, head + 40));
            let payload = slice_to_vec(slice_subrange(data, at, at + size));
            proof {
                assert(u32_le(sample_header@, 0) == u32_le(data@, head as int));
            }
            match XMSample::from_parts(sample_header, payload) {
                Some(smp) => samples.push(smp),
                None => {
                    return Err(corrupt_instrument());
                },
            }
            at += size;
            k += 1;
        }
        Ok((XMInstrument { header, samples }, at))
    }

    /// Returns the sample with the given number, or `None` where the
    /// instrument has no such sample.
    pub fn sample(&self, index: u8) -> (r: Option<&XMSample>)
        ensures
            match r {
                Some(smp) => index < self.samples_view().len() && *smp
                    == self.samples_view()[index as int],
                None => index >= self.samples_view().len(),
            },
    {
        let i: usize = index as usize;
        if i < self.samples.len() {
            Some(&self.samples[i])
        } else {
            None
        }
    }

    /// Returns the name of the instrument, an empty string where it has none.
    pub fn name(&self) -> (s: String)
        requires
            self.wf(),
        ensures
            s@ == text_field(self.header(), 4, 22),
    {
        read_string(self.header.as_slice(), 4, 22)
    }

    /// Returns the bytes of the panning envelope table that hold points, or
    /// `None` where the instrument has no samples or the envelope no points.
    pub fn panning_envelope(&self) -> (r: Option<Vec<u8>>)
        requires
            self.wf(),
        ensures
            match r {
                Some(v) => envelope_points(self.header(), 177, 226) == Some(v@),
                None => envelope_points(self.header(), 177, 226) is None,
            },
    {
        self.envelope(177, 226)
    }

    /// Returns the loop start point of the panning envelope, or `None` where
    /// the instrument has no samples, the volume envelope has no points or
    /// the volume envelope does not loop.
    pub fn panning_loop_start(&self) -> (r: Option<u8>)
        requires
            self.wf(),
        ensures
            r == loop_byte(self.header(), 231),
    {
        self.loop_field(231)
    }

    /// Returns the loop end point of the panning envelope, or `None` where
    /// the instrument has no samples, the volume envelope has no points or
    /// the volume envelope does not loop.
    pub fn panning_loop_end(&self) -> (r: Option<u8>)
        requires
            self.wf(),
        ensures
            r == loop_byte(self.header(), 232),
    {
        self.loop_field(232)
    }

    /// Returns the sustain point of the panning envelope, or `None` where the
    /// instrument has no samples or the volume envelope has no points.
    pub fn panning_sustain(&self) -> (r: Option<u8>)
        requires
            self.wf(),
        ensures
            r == envelope_byte(self.header(), 230),
    {
        self.envelope_field(230)
    }

    /// Returns the type of the panning envelope, or `None` where the
    /// instrument has no samples. The type is a mask of `XM_ENVELOPE_ON`,
    /// `XM_ENVELOPE_SUSTAIN` and `XM_ENVELOPE_LOOP`.
    pub fn panning_type(&self) -> (r: Option<u8>)
        requires
            self.wf(),
        ensures
            r == header_byte(self.header(), 234),
    {
        self.header_field(234)
    }

    /// Returns the number of samples of the instrument.
    pub fn sample_count(&self) -> (n: u8)
        requires
            self.wf(),
        ensures
            n == self.header()[27],
            n == self.samples_view().len(),
    {
        self.header[27]
    }

    /// Returns the sample number for each of the 96 notes, or `None` where
    /// the instrument has no samples.
    pub fn sample_numbers(&self) -> (r: Option<Vec<u8>>)
        requires
            self.wf(),
        ensures
            match r {
                Some(v) => self.header()[27] > 0 && v@ == self.header().subrange(33, 129),
                None => self.header()[27] == 0,
            },
    {
        if self.header[27] == 0 {
            None
        } else {
            Some(slice_to_vec(slice_subrange(self.header.as_slice(), 33, 129)))
        }
    }

    /// Returns the vibrato depth, or `None` where the instrument has no
    /// samples.
    pub fn vibrato_depth(&self) -> (r: Option<u8>)
        requires
            self.wf(),
        ensures
            r == header_byte(self.header(), 237),
    {
        self.header_field(237)
    }

    /// Returns the vibrato rate, or `None` where the instrument has no
    /// samples.
    pub fn vibrato_rate(&self) -> (r: Option<u8>)
        requires
            self.wf(),
        ensures
            r == header_byte(self.header(), 238),
    {
        self.header_field(238)
    }

    /// Returns the vibrato sweep, or `None` where the instrument has no
    /// samples.
    pub fn vibrato_sweep(&self) -> (r: Option<u8>)
        requires
            self.wf(),
        ensures
            r == header_byte(self.header(), 236),
    {
        self.header_field(236)
    }

    /// Returns the vibrato type, or `None` where the instrument has no
    /// samples.
    pub fn vibrato_type(&self) -> (r: Option<u8>)
        requires
            self.wf(),
        ensures
            r == header_byte(self.header(), 235),
    {
        self.header_field(235)
    }

    /// Returns the bytes of the volume envelope table that hold points, or
    /// `None` where the instrument has no samples or the envelope no points.
    pub fn volume_envelope(&self) -> (r: Option<Vec<u8>>)
        requires
            self.wf(),
        ensures
            match r {
                Some(v) => envelope_points(self.header(), 129, 225) == Some(v@),
                None => envelope_points(self.header(), 129, 225) is None,
            },
    {
        self.envelope(129, 225)
    }

    /// Returns the volume fadeout, or `None` where the instrument has no
    /// samples.
    pub fn volume_fadeout(&self) -> (r: Option<u16>)
        requires
            self.wf(),
        ensures
            match r {
                Some(v) => self.header()[27] > 0 && v == u16_le(self.header(), 239),
                None => self.header()[27] == 0,
            },
    {
        if self.header[27] == 0 {
            None
        } else {
            Some(read_u16(self.header.as_slice(), 239))
        }
    }

    /// Returns the loop start point of the volume envelope, or `None` where
    /// the instrument has no samples, the envelope has no points or it does
    /// not loop.
    pub fn volume_loop_start(&self) -> (r: Option<u8>)
        requires
            self.wf(),
        ensures
            r == loop_byte(self.header(), 228),
    {
        self.loop_field(228)
    }

    /// Returns the loop end point of the volume envelope, or `None` where the
    /// instrument has no samples, the envelope has no points or it does not
    /// loop.
    pub fn volume_loop_end(&self) -> (r: Option<u8>)
        requires
            self.wf(),
        ensures
            r == loop_byte(self.header(), 229),
    {
        self.loop_field(229)
    }

    /// Returns the sustain point of the volume envelope, or `None` where the
    /// instrument has no samples or the envelope has no points.
    pub fn volume_sustain(&self) -> (r: Option<u8>)
        requires
            self.wf(),
        ensures
            r == envelope_byte(self.header(), 227),
    {
        self.envelope_field(227)
    }

    /// Returns the type of the volume envelope, or `None` where the
    /// instrument has no samples. The type is a mask of `XM_ENVELOPE_ON`,
    /// `XM_ENVELOPE_SUSTAIN` and `XM_ENVELOPE_LOOP`.
    pub fn volume_type(&self) -> (r: Option<u8>)
        requires
            self.wf(),
        ensures
            r == header_byte(self.header(), 233),
    {
        self.header_field(233)
    }

    fn header_field(&self, at: usize) -> (r: Option<u8>)
        requires
            self.wf(),
            at < 241,
        ensures
            r == header_byte(self.header(), at as int),
    {
        if self.header[27] == 0 {
            None
        } else {
            Some(self.header[at])
        }
    }

    fn envelope_field(&self, at: usize) -> (r: Option<u8>)
        requires
            self.wf(),
            at < 241,
        ensures
            r == envelope_byte(self.header(), at as int),
    {
        if self.header[27] == 0 || self.header[225] == 0 {
            None
        } else {
            Some(self.header[at])
        }
    }

    fn loop_field(&self, at: usize) -> (r: Option<u8>)
        requires
            self.wf(),
            at < 241,
        ensures
            r == loop_byte(self.header(), at as int),
    {
        if self.header[27] == 0 || self.header[225] == 0 || self.header[233] & XM_ENVELOPE_LOOP
            == 0 {
            None
        } else {
            Some(self.header[at])
        }
    }

    fn envelope(&self, table: usize, count: usize) -> (r: Option<Vec<u8>>)
        requires
            self.wf(),
            table + 48 <= 241,
            count < 241,
        ensures
            match r {
                Some(v) => envelope_points(self.header(), table as int, count as int) == Some(v@),
                None => envelope_points(self.header(), table as int, count as int) is None,
            },
    {
        if self.header[27] == 0 || self.header[count] == 0 {
            return None;
        }
        let points: usize = self.header[count] as usize;
        let taken: usize = if points <= XM_ENVELOPE_TABLE_LEN {
            points
        } else {
            XM_ENVELOPE_TABLE_LEN
        };
        Some(slice_to_vec(slice_subrange(self.header.as_slice(), table, table + taken)))
    }
}

/// The error for an instrument record that the data cuts short.
fn corrupt_instrument() -> (e: XMParseError)
    ensures
        e.kind() == XMErrorKind::Format,
{
    XMParseError::new(XMErrorKind::Format, "XM Instrument data corrupt or incomplete.")
}

} // verus!
