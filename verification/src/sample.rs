//! Samples: a 40-byte header, and a payload of deltas that is converted to
//! linear PCM on demand.

use crate::bytes::{read_string, read_u16, read_usize, text_field, u16_le, u32_le};
use vstd::prelude::*;

verus! {

pub const XM_SAMPLE_LOOP_NONE: u8 = 0x1;

pub const XM_SAMPLE_LOOP_FORWARD: u8 = 0x2;

pub const XM_SAMPLE_LOOP_PINGPONG: u8 = 0x4;

pub const XM_SAMPLE_16BIT: u8 = 0x10;

/// The length of a sample header.
pub const XM_SAMPLE_HEADER_LEN: usize = 40;

/// The byte read as a signed number.
pub open spec fn signed8(b: u8) -> int {
    if b < 128 {
        b as int
    } else {
        b - 256
    }
}

/// The 16-bit value read as a signed number.
pub open spec fn signed16(v: int) -> int {
    if v < 32768 {
        v
    } else {
        v - 65536
    }
}

/// The sum of two signed 8-bit numbers as 8 bits hold it.
pub open spec fn wrap8(x: int) -> int {
    if x > 127 {
        x - 256
    } else if x < -128 {
        x + 256
    } else {
        x
    }
}

/// The sum of two signed 16-bit numbers as 16 bits hold it.
pub open spec fn wrap16(x: int) -> int {
    if x > 32767 {
        x - 65536
    } else if x < -32768 {
        x + 65536
    } else {
        x
    }
}

/// The number of sample frames in a payload of `len` bytes: one for each
/// byte, or with 16-bit resolution one for each whole pair of bytes.
pub open spec fn frame_count(len: int, wide: bool) -> int {
    if wide {
        len / 2
    } else {
        len
    }
}

/// The delta that the payload stores for frame `i`.
pub open spec fn delta(d: Seq<u8>, wide: bool, i: int) -> int
    recommends
        0 <= i < frame_count(d.len() as int, wide),
{
    if wide {
        signed16(u16_le(d, 2 * i))
    } else {
        signed8(d[i])
    }
}

/// The running sum of the deltas up to frame `i`, kept in the width of the
/// payload and wrapping in that width. Before the first frame it is 0.
pub open spec fn running(d: Seq<u8>, wide: bool, i: int) -> int
    recommends
        i < frame_count(d.len() as int, wide),
    decreases i + 1,
{
    if i < 0 {
        0
    } else if wide {
        wrap16(running(d, wide, i - 1) + delta(d, wide, i))
    } else {
        wrap8(running(d, wide, i - 1) + delta(d, wide, i))
    }
}

/// Frame `i` as signed 16-bit linear PCM: the running sum, moved up by 8 bits
/// where the payload has 8-bit resolution.
pub open spec fn linear(d: Seq<u8>, wide: bool, i: int) -> int
    recommends
        i < frame_count(d.len() as int, wide),
{
    if wide {
        running(d, wide, i)
    } else {
        256 * running(d, wide, i)
    }
}

/// The delta of frame `i` in the 16-bit domain.
pub open spec fn delta16(d: Seq<u8>, wide: bool, i: int) -> int
    recommends
        0 <= i < frame_count(d.len() as int, wide),
{
    if wide {
        delta(d, wide, i)
    } else {
        256 * delta(d, wide, i)
    }
}

/// The running sum stays within the width of the payload.
pub proof fn lemma_running_bounds(d: Seq<u8>, wide: bool, i: int)
    ensures
        wide ==> -32768 <= running(d, wide, i) <= 32767,
        !wide ==> -128 <= running(d, wide, i) <= 127,
        -32768 <= linear(d, wide, i) <= 32767,
    decreases i + 1,
{
    if i >= 0 {
        lemma_running_bounds(d, wide, i - 1);
    }
}

/// Each decoded frame is the frame before it plus the delta of the frame,
/// wrapping in 16 bits; the frame before the first is 0.
pub proof fn lemma_linear_recurrence(d: Seq<u8>, wide: bool, i: int)
    requires
        0 <= i < frame_count(d.len() as int, wide),
    ensures
        linear(d, wide, -1) == 0,
        linear(d, wide, i) == wrap16(linear(d, wide, i - 1) + delta16(d, wide, i)),
{
    lemma_running_bounds(d, wide, i - 1);
}

/// One sample of an instrument.
#[derive(Debug)]
pub struct XMSample {
    header: Vec<u8>,
    data: Vec<u8>,
}

impl XMSample {
    /// The 40 bytes of the sample header.
    pub closed spec fn header(&self) -> Seq<u8> {
        self.header@
    }

    /// The delta-coded payload.
    pub closed spec fn payload(&self) -> Seq<u8> {
        self.data@
    }

    /// The header has 40 bytes and the payload the length that the header
    /// declares.
    pub open spec fn wf(&self) -> bool {
        &&& self.header().len() == 40
        &&& self.payload().len() == u32_le(self.header(), 0)
    }

    /// Whether the payload has 16-bit resolution.
    pub open spec fn wide(&self) -> bool {
        self.header()[14] & 0x10 != 0
    }

    /// Makes a sample of its header and its payload, where the header has 40
    /// bytes and the payload the length that the header declares.
    pub fn from_parts(header: Vec<u8>, data: Vec<u8>) -> (r: Option<XMSample>)
        ensures
            match r {
                Some(smp) => smp.wf() && smp.header() == header@ && smp.payload() == data@,
                None => !(header@.len() == 40 && data@.len() == u32_le(header@, 0)),
            },
    {
        if header.len() != XM_SAMPLE_HEADER_LEN {
            return None;
        }
        if read_usize(header.as_slice(), 0) != data.len() {
            return None;
        }
        Some(XMSample { header, data })
    }

    /// Returns true if the payload has 16-bit resolution, false if it has
    /// 8-bit resolution.
    pub fn is_16bit(&self) -> (b: bool)
        requires
            self.wf(),
        ensures
            b == self.wide(),
    {
        self.header[14] & XM_SAMPLE_16BIT != 0
    }

    /// Returns the sample as signed 8-bit PCM: the upper byte of each signed
    /// 16-bit frame.
    pub fn data_8bit_signed(&self) -> (out: Vec<i8>)
        requires
            self.wf(),
        ensures
            out@.len() == frame_count(self.payload().len() as int, self.wide()),
            forall|i: int|
                0 <= i < out@.len() ==> out@[i] == linear(self.payload(), self.wide(), i) / 256,
    {
        let frames = self.data_16bit_signed();
        let mut out: Vec<i8> = Vec::with_capacity(frames.len());
        let mut i: usize = 0;
        while i < frames.len()
            invariant
                i <= frames@.len(),
                out@.len() == i,
                forall|j: int| 0 <= j < i ==> out@[j] == frames@[j] / 256,
            decreases frames@.len() - i,
        {
            let shifted: u16 = (frames[i] as i32 + 32768) as u16;
            let top: i16 = (shifted / 256) as i16 - 128;
            out.push(top as i8);
            i += 1;
        }
        out
    }

    /// Returns the sample as unsigned 8-bit PCM: the upper byte of each
    /// unsigned 16-bit frame.
    pub fn data_8bit_unsigned(&self) -> (out: Vec<u8>)
        requires
            self.wf(),
        ensures
            out@.len() == frame_count(self.payload().len() as int, self.wide()),
            forall|i: int|
                0 <= i < out@.len() ==> out@[i] == (linear(self.payload(), self.wide(), i)
                    + 32768) / 256,
    {
        let frames = self.data_16bit_signed();
        let mut out: Vec<u8> = Vec::with_capacity(frames.len());
        let mut i: usize = 0;
        while i < frames.len()
            invariant
                i <= frames@.len(),
                out@.len() == i,
                forall|j: int| 0 <= j < i ==> out@[j] == (frames@[j] + 32768) / 256,
            decreases frames@.len() - i,
        {
            let shifted: u16 = (frames[i] as i32 + 32768) as u16;
            out.push((shifted / 256) as u8);
            i += 1;
        }
        out
    }

    /// Returns the sample as signed 16-bit PCM: the running sums of the
    /// deltas, which wrap in the width of the payload.
    pub fn data_16bit_signed(&self) -> (out: Vec<i16>)
        requires
            self.wf(),
        ensures
            out@.len() == frame_count(self.payload().len() as int, self.wide()),
            forall|i: int|
                0 <= i < out@.len() ==> out@[i] == linear(self.payload(), self.wide(), i),
    {
        let bytes = self.data.as_slice();
        let len: usize = bytes.len();
        let mut out: Vec<i16> = Vec::new();
        if self.is_16bit() {
            let mut sum: i16 = 0;
            let mut pos: usize = 0;
            while len - pos >= 2
                invariant
                    pos <= len == bytes@.len(),
                    pos == 2 * out@.len(),
                    bytes@ == self.payload(),
                    sum == running(bytes@, true, out@.len() - 1),
                    forall|j: int| 0 <= j < out@.len() ==> out@[j] == linear(bytes@, true, j),
                decreases len - pos,
            {
                let raw: u16 = read_u16(bytes, pos);
                let step: i16 = if raw < 32768 {
                    raw as i16
                } else {
                    (raw as i32 - 65536) as i16
                };
                sum = sum.wrapping_add(step);
                out.push(sum);
                pos += 2;
            }
        } else {
            let mut sum: i8 = 0;
            let mut pos: usize = 0;
            while pos < len
                invariant
                    pos <= len == bytes@.len(),
                    pos == out@.len(),
                    bytes@ == self.payload(),
                    sum == running(bytes@, false, out@.len() - 1),
                    forall|j: int| 0 <= j < out@.len() ==> out@[j] == linear(bytes@, false, j),
                decreases len - pos,
            {
                let raw: u8 = bytes[pos];
                let step: i8 = if raw < 128 {
                    raw as i8
                } else {
                    (raw as i16 - 256) as i8
                };
                sum = sum.wrapping_add(step);
                out.push(sum as i16 * 256);
                pos += 1;
            }
        }
        out
    }

    /// Returns the sample as unsigned 16-bit PCM: each signed frame moved up
    /// by 32768.
    pub fn data_16bit_unsigned(&self) -> (out: Vec<u16>)
        requires
            self.wf(),
        ensures
            out@.len() == frame_count(self.payload().len() as int, self.wide()),
            forall|i: int|
                0 <= i < out@.len() ==> out@[i] == linear(self.payload(), self.wide(), i) + 32768,
    {
        let frames = self.data_16bit_signed();
        let mut out: Vec<u16> = Vec::with_capacity(frames.len());
        let mut i: usize = 0;
        while i < frames.len()
            invariant
                i <= frames@.len(),
                out@.len() == i,
                forall|j: int| 0 <= j < i ==> out@[j] == frames@[j] + 32768,
            decreases frames@.len() - i,
        {
            out.push((frames[i] as i32 + 32768) as u16);
            i += 1;
        }
        out
    }

    /// Returns the payload as it is stored, as deltas.
    pub fn data_native(&self) -> (out: Vec<u8>)
        ensures
            out@ == self.payload(),
    {
        self.data.clone()
    }

    /// Returns the finetune setting, a signed value.
    pub fn finetune(&self) -> (v: i8)
        requires
            self.wf(),
        ensures
            v == signed8(self.header()[13]),
    {
        to_signed(self.header[13])
    }

    /// Returns the length of the payload in bytes.
    pub fn len(&self) -> (n: usize)
        requires
            self.wf(),
        ensures
            n == u32_le(self.header(), 0),
            n == self.payload().len(),
    {
        read_usize(self.header.as_slice(), 0)
    }

    /// Returns the loop length setting.
    pub fn loop_len(&self) -> (n: usize)
        requires
            self.wf(),
        ensures
            n == u32_le(self.header(), 8),
    {
        read_usize(self.header.as_slice(), 8)
    }

    /// Returns the loop start setting.
    pub fn loop_start(&self) -> (n: usize)
        requires
            self.wf(),
        ensures
            n == u32_le(self.header(), 4),
    {
        read_usize(self.header.as_slice(), 4)
    }

    /// Returns the loop type: `XM_SAMPLE_LOOP_NONE` where bit 0 of the type
    /// byte is set, else `XM_SAMPLE_LOOP_FORWARD` where bit 1 is set, else
    /// `XM_SAMPLE_LOOP_PINGPONG`.
    pub fn loop_type(&self) -> (t: u8)
        requires
            self.wf(),
        ensures
            t == if self.header()[14] & 0x1 != 0 {
                XM_SAMPLE_LOOP_NONE
            } else if self.header()[14] & 0x2 != 0 {
                XM_SAMPLE_LOOP_FORWARD
            } else {
                XM_SAMPLE_LOOP_PINGPONG
            },
    {
        let kind = self.header[14];
        if kind & 0x1 != 0 {
            XM_SAMPLE_LOOP_NONE
        } else if kind & 0x2 != 0 {
            XM_SAMPLE_LOOP_FORWARD
        } else {
            XM_SAMPLE_LOOP_PINGPONG
        }
    }

    /// Returns the name of the sample.
    pub fn name(&self) -> (s: String)
        requires
            self.wf(),
        ensures
            s@ == text_field(self.header(), 18, 22),
    {
        read_string(self.header.as_slice(), 18, 22)
    }

    /// Returns the panning setting.
    pub fn panning(&self) -> (v: u8)
        requires
            self.wf(),
        ensures
            v == self.header()[15],
    {
        self.header[15]
    }

    /// Returns the relative note setting, a signed value.
    pub fn relative_note(&self) -> (v: i8)
        requires
            self.wf(),
        ensures
            v == signed8(self.header()[16]),
    {
        to_signed(self.header[16])
    }

    /// Returns the volume setting.
    pub fn volume(&self) -> (v: u8)
        requires
            self.wf(),
        ensures
            v == self.header()[12],
    {
        self.header[12]
    }
}

/// Reads a byte as a signed number.
fn to_signed(b: u8) -> (v: i8)
    ensures
        v == signed8(b),
{
    if b < 128 {
        b as i8
    } else {
        (b as i16 - 256) as i8
    }
}

} // verus!
