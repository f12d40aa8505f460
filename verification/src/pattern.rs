//! Patterns: the packed cell data of one song section, unpacked into one
//! track for each channel.

use crate::bytes::{read_u16, read_usize, u16_le, u32_le};
use crate::effects::XM_FX_FXX;
use crate::error::{row_message, XMErrorKind, XMParseError};
use crate::module::XModule;
use crate::track::{XMCell, XMTrack};
use vstd::prelude::*;

verus! {

/// 1 where the control byte has a bit of `mask` set, else 0.
pub open spec fn flag(ctrl: u8, mask: u8) -> int {
    if ctrl & mask != 0 {
        1
    } else {
        0
    }
}

/// The number of bytes of the packed cell that begins with `ctrl`. With the
/// high bit set, `ctrl` is a mask and one byte follows for each of its five
/// low bits that is set. With the high bit clear, `ctrl` is the note and four
/// bytes follow.
pub open spec fn cell_len(ctrl: u8) -> int {
    if ctrl & 0x80 != 0 {
        1 + flag(ctrl, 0x01) + flag(ctrl, 0x02) + flag(ctrl, 0x04) + flag(ctrl, 0x08) + flag(
            ctrl,
            0x10,
        )
    } else {
        5
    }
}

/// Whether a whole packed cell lies at `off`.
pub open spec fn cell_fits(s: Seq<u8>, off: int) -> bool {
    0 <= off < s.len() && off + cell_len(s[off]) <= s.len()
}

/// The field of a masked cell that the bit `mask` stands for: the byte at
/// `at` where the bit is set.
pub open spec fn masked_field(s: Seq<u8>, ctrl: u8, mask: u8, at: int) -> Option<u8> {
    if ctrl & mask != 0 {
        Some(s[at])
    } else {
        None
    }
}

/// The cell that is packed at `off`. The fields follow the control byte in
/// the order note, instrument, volume, effect command, effect parameter.
pub open spec fn decode_cell(s: Seq<u8>, off: int) -> XMCell
    recommends
        cell_fits(s, off),
{
    let ctrl = s[off];
    if ctrl & 0x80 != 0 {
        let at_note = off + 1;
        let at_instrument = at_note + flag(ctrl, 0x01);
        let at_volume = at_instrument + flag(ctrl, 0x02);
        let at_command = at_volume + flag(ctrl, 0x04);
        let at_param = at_command + flag(ctrl, 0x08);
        XMCell {
            note: masked_field(s, ctrl, 0x01, at_note),
            instrument: masked_field(s, ctrl, 0x02, at_instrument),
            volume: masked_field(s, ctrl, 0x04, at_volume),
            fx_command: masked_field(s, ctrl, 0x08, at_command),
            fx_param: masked_field(s, ctrl, 0x10, at_param),
        }
    } else {
        XMCell {
            note: Some(ctrl),
            instrument: Some(s[off + 1]),
            volume: Some(s[off + 2]),
            fx_command: Some(s[off + 3]),
            fx_param: Some(s[off + 4]),
        }
    }
}

/// The offset at which `k` packed cells end that begin at `start`, where `s`
/// holds that many whole cells.
pub open spec fn cells_end(s: Seq<u8>, start: int, k: int) -> Option<int>
    decreases k,
{
    if k <= 0 {
        Some(start)
    } else {
        match cells_end(s, start, k - 1) {
            Some(off) => if cell_fits(s, off) {
                Some(off + cell_len(s[off]))
            } else {
                None
            },
            None => None,
        }
    }
}

/// The number of rows that the pattern header declares.
pub open spec fn declared_rows(s: Seq<u8>) -> int {
    u16_le(s, 5)
}

/// The number of bytes of packed cell data that the pattern header declares.
pub open spec fn declared_packed_size(s: Seq<u8>) -> int {
    u16_le(s, 7)
}

/// The number of bytes that the cells of all rows and channels take, where
/// `s` holds them all.
pub open spec fn packed_size_used(s: Seq<u8>, channels: int) -> Option<int> {
    match cells_end(s, u32_le(s, 0), declared_rows(s) * channels) {
        Some(end) => Some(end - u32_le(s, 0)),
        None => None,
    }
}

/// Whether `s` is the record of a pattern of `channels` channels: a header
/// whose lengths add up to the length of `s`, packing type 0, 1 to 256 rows,
/// and cells that take the declared packed size to the byte.
pub open spec fn pattern_ok(s: Seq<u8>, channels: int) -> bool {
    &&& s.len() >= 9
    &&& s.len() == u32_le(s, 0) + declared_packed_size(s)
    &&& s[4] == 0
    &&& 1 <= declared_rows(s) <= 256
    &&& packed_size_used(s, channels) == Some(declared_packed_size(s))
}

/// The cell with the number `k`, counted row by row and within a row channel
/// by channel.
pub open spec fn packed_cell(s: Seq<u8>, k: int) -> XMCell {
    decode_cell(s, cells_end(s, u32_le(s, 0), k)->Some_0)
}

/// The cells of the pattern, by channel and row.
pub open spec fn decoded_grid(s: Seq<u8>, channels: int) -> Seq<Seq<XMCell>> {
    Seq::new(
        channels as nat,
        |c: int| Seq::new(declared_rows(s) as nat, |r: int| packed_cell(s, r * channels + c)),
    )
}

/// The cells of a well-formed pattern record take the declared packed size,
/// no more and no less: they end where the record ends.
pub proof fn lemma_packed_size_exact(s: Seq<u8>, channels: int)
    requires
        pattern_ok(s, channels),
    ensures
        packed_size_used(s, channels) == Some(declared_packed_size(s)),
        cells_end(s, u32_le(s, 0), declared_rows(s) * channels) == Some(s.len() as int),
{
}

/// Once the data has run out, it has run out for every greater number of
/// cells.
pub proof fn lemma_cells_end_none(s: Seq<u8>, start: int, k: int, n: int)
    requires
        k <= n,
        cells_end(s, start, k) is None,
    ensures
        cells_end(s, start, n) is None,
    decreases n - k,
{
    if k < n {
        lemma_cells_end_none(s, start, k, n - 1);
    }
}

/// The number of bytes of the packed cell that begins with `ctrl`.
fn packed_len(ctrl: u8) -> (n: usize)
    ensures
        n == cell_len(ctrl),
{
    if ctrl & 0x80 != 0 {
        let mut n: usize = 1;
        if ctrl & 0x01 != 0 {
            n += 1;
        }
        if ctrl & 0x02 != 0 {
            n += 1;
        }
        if ctrl & 0x04 != 0 {
            n += 1;
        }
        if ctrl & 0x08 != 0 {
            n += 1;
        }
        if ctrl & 0x10 != 0 {
            n += 1;
        }
        n
    } else {
        5
    }
}

/// Unpacks the cell at `off`.
fn read_cell(data: &[u8], off: usize) -> (cell: XMCell)
    requires
        cell_fits(data@, off as int),
    ensures
        cell == decode_cell(data@, off as int),
{
    let ctrl = data[off];
    if ctrl & 0x80 != 0 {
        let mut at: usize = off + 1;
        let mut note: Option<u8> = None;
        let mut instrument: Option<u8> = None;
        let mut volume: Option<u8> = None;
        let mut fx_command: Option<u8> = None;
        let mut fx_param: Option<u8> = None;
        if ctrl & 0x01 != 0 {
            note = Some(data[at]);
            at += 1;
        }
        if ctrl & 0x02 != 0 {
            instrument = Some(data[at]);
            at += 1;
        }
        if ctrl & 0x04 != 0 {
            volume = Some(data[at]);
            at += 1;
        }
        if ctrl & 0x08 != 0 {
            fx_command = Some(data[at]);
            at += 1;
        }
        if ctrl & 0x10 != 0 {
            fx_param = Some(data[at]);
        }
        XMCell { note, instrument, volume, fx_command, fx_param }
    } else {
        XMCell {
            note: Some(ctrl),
            instrument: Some(data[off + 1]),
            volume: Some(data[off + 2]),
            fx_command: Some(data[off + 3]),
            fx_param: Some(data[off + 4]),
        }
    }
}

/// Unpacks `total` cells that begin at `start` and end with the data.
fn unpack_cells(data: &[u8], start: usize, total: usize) -> (r: Option<Vec<XMCell>>)
    requires
        start <= data@.len(),
    ensures
        match r {
            Some(cells) => {
                &&& cells_end(data@, start as int, total as int) == Some(data@.len() as int)
                &&& cells@.len() == total
                &&& forall|k: int|
                    0 <= k < total ==> cells@[k] == decode_cell(
                        data@,
                        cells_end(data@, start as int, k)->Some_0,
                    )
            },
            None => cells_end(data@, start as int, total as int) != Some(data@.len() as int),
        },
{
    let len: usize = data.len();
    let mut cells: Vec<XMCell> = Vec::new();
    let mut off: usize = start;
    let mut k: usize = 0;
    while k < total
        invariant
            k <= total,
            off <= len == data@.len(),
            cells@.len() == k,
            cells_end(data@, start as int, k as int) == Some(off as int),
            forall|j: int|
                0 <= j < k ==> cells@[j] == decode_cell(
                    data@,
                    cells_end(data@, start as int, j)->Some_0,
                ),
        decreases total - k,
    {
        if off >= len {
            proof {
                lemma_cells_end_none(data@, start as int, k + 1, total as int);
            }
            return None;
        }
        let size: usize = packed_len(data[off]);
        if size > len - off {
            proof {
                lemma_cells_end_none(data@, start as int, k + 1, total as int);
            }
            return None;
        }
        cells.push(read_cell(data, off));
        off += size;
        k += 1;
    }
    if off != len {
        return None;
    }
    Some(cells)
}

/// Picks the cells of the channel `c` out of the cells of all channels.
fn column(cells: &Vec<XMCell>, rows: usize, channels: usize, c: usize) -> (col: Vec<XMCell>)
    requires
        c < channels,
        cells@.len() == rows * channels,
    ensures
        col@ == Seq::new(rows as nat, |r: int| cells@[r * channels + c]),
{
    let total: usize = cells.len();
    let mut col: Vec<XMCell> = Vec::new();
    let mut r: usize = 0;
    while r < rows
        invariant
            r <= rows,
            c < channels,
            cells@.len() == total == rows * channels,
            col@.len() == r,
            forall|j: int| 0 <= j < r ==> col@[j] == cells@[j * channels + c],
        decreases rows - r,
    {
        assert(0 <= r * channels && r * channels + c < rows * channels) by (nonlinear_arith)
            requires
                r < rows,
                c < channels,
        ;
        col.push(cells[r * channels + c]);
        r += 1;
    }
    assert(col@ =~= Seq::new(rows as nat, |r: int| cells@[r * channels + c]));
    col
}

/// The least parameter of the speed command that sets the BPM; a lesser one
/// sets the tempo.
pub const XM_BPM_MIN: u8 = 0x20;

/// Whether the cell holds the speed command with a parameter that sets the
/// BPM (`fast`) or the tempo (not `fast`).
pub open spec fn sets_speed(cell: XMCell, fast: bool) -> bool {
    &&& cell.fx_command == Some(0x0fu8)
    &&& cell.fx_param is Some
    &&& (cell.fx_param->Some_0 >= 0x20) == fast
}

/// The speed that `row` sets in the channels below `channels`: that of the
/// highest such channel that sets one.
pub open spec fn speed_in_row(grid: Seq<Seq<XMCell>>, row: int, channels: int, fast: bool) -> Option<
    u8,
>
    decreases channels,
{
    if channels <= 0 {
        None
    } else if sets_speed(grid[channels - 1][row], fast) {
        grid[channels - 1][row].fx_param
    } else {
        speed_in_row(grid, row, channels - 1, fast)
    }
}

/// The speed that was set last in the rows up to `row`, where the cells
/// follow each other row by row and within a row channel by channel.
pub open spec fn speed_upto(grid: Seq<Seq<XMCell>>, row: int, fast: bool) -> Option<u8>
    decreases row + 1,
{
    if row < 0 {
        None
    } else {
        match speed_in_row(grid, row, grid.len() as int, fast) {
            Some(p) => Some(p),
            None => speed_upto(grid, row - 1, fast),
        }
    }
}

/// The speed in effect: the one that was set last, else the default.
pub open spec fn speed_or(set: Option<u8>, default: u8) -> u8 {
    match set {
        Some(p) => p,
        None => default,
    }
}

/// Where no channel below `channels` sets a speed on `row`, the row sets
/// none.
pub proof fn lemma_row_without_speed(grid: Seq<Seq<XMCell>>, row: int, channels: int, fast: bool)
    requires
        forall|c: int| 0 <= c < channels ==> !sets_speed(#[trigger] grid[c][row], fast),
    ensures
        speed_in_row(grid, row, channels, fast) is None,
    decreases channels,
{
    if channels > 0 {
        lemma_row_without_speed(grid, row, channels - 1, fast);
    }
}

/// Where the channel `c` sets a speed on `row` and no higher channel below
/// `channels` does, the row sets that speed.
pub proof fn lemma_row_speed(grid: Seq<Seq<XMCell>>, row: int, c: int, channels: int, fast: bool)
    requires
        0 <= c < channels,
        sets_speed(grid[c][row], fast),
        forall|d: int| c < d < channels ==> !sets_speed(#[trigger] grid[d][row], fast),
    ensures
        speed_in_row(grid, row, channels, fast) == grid[c][row].fx_param,
    decreases channels,
{
    if c < channels - 1 {
        lemma_row_speed(grid, row, c, channels - 1, fast);
    }
}

/// Where no cell up to `row` sets a speed, none is set.
pub proof fn lemma_speed_unset(grid: Seq<Seq<XMCell>>, row: int, fast: bool)
    requires
        forall|c: int, r: int|
            0 <= c < grid.len() && 0 <= r <= row ==> !sets_speed(#[trigger] grid[c][r], fast),
    ensures
        speed_upto(grid, row, fast) is None,
    decreases row + 1,
{
    if row >= 0 {
        lemma_row_without_speed(grid, row, grid.len() as int, fast);
        lemma_speed_unset(grid, row - 1, fast);
    }
}

/// The last speed command wins. The cell of channel `c` on row `at` sets a
/// speed; no cell after it up to `row` does, where a cell comes after another
/// if its row is later, or its row is the same and its channel higher. Then
/// that speed is the one set last.
pub proof fn lemma_speed_last(grid: Seq<Seq<XMCell>>, row: int, c: int, at: int, fast: bool)
    requires
        0 <= c < grid.len(),
        0 <= at <= row,
        sets_speed(grid[c][at], fast),
        forall|d: int, r: int|
            0 <= d < grid.len() && (at < r <= row || (r == at && c < d)) ==> !sets_speed(
                #[trigger] grid[d][r],
                fast,
            ),
    ensures
        speed_upto(grid, row, fast) == grid[c][at].fx_param,
    decreases row - at,
{
    if at < row {
        lemma_row_without_speed(grid, row, grid.len() as int, fast);
        lemma_speed_last(grid, row - 1, c, at, fast);
    } else {
        lemma_row_speed(grid, row, c, grid.len() as int, fast);
    }
}

/// One section of the song: rows of cells, kept as one track for each
/// channel.
#[derive(Debug)]
pub struct XMPattern {
    rows: u16,
    pub tracks: Vec<XMTrack>,
}

impl XMPattern {
    /// The number of rows.
    pub closed spec fn spec_len(&self) -> int {
        self.rows as int
    }

    /// The cells, by channel and row.
    pub closed spec fn grid(&self) -> Seq<Seq<XMCell>> {
        Seq::new(self.tracks@.len(), |c: int| self.tracks@[c]@)
    }

    /// A pattern has 1 to 256 rows and at most 255 tracks, each with one cell
    /// for every row.
    pub open spec fn wf(&self) -> bool {
        &&& 1 <= self.spec_len() <= 256
        &&& self.grid().len() <= 255
        &&& forall|c: int| 0 <= c < self.grid().len() ==> (#[trigger] self.grid()[c]).len() == self.spec_len()
    }

    /// Whether the pattern holds what the record `s` codes for `channels`
    /// channels.
    pub open spec fn represents(&self, s: Seq<u8>, channels: int) -> bool {
        &&& self.spec_len() == declared_rows(s)
        &&& self.grid() == decoded_grid(s, channels)
    }

    /// Decodes the record of a pattern of `channel_count` channels.
    ///
    /// Fails with `Format` unless the record is well formed; in particular
    /// the cells must take the declared packed size, no more and no less.
    pub fn parse(data: Vec<u8>, channel_count: u8) -> (r: Result<XMPattern, XMParseError>)
        ensures
            match r {
                Ok(ptn) => {
                    &&& pattern_ok(data@, channel_count as int)
                    &&& packed_size_used(data@, channel_count as int) == Some(
                        declared_packed_size(data@),
                    )
                    &&& ptn.wf()
                    &&& ptn.represents(data@, channel_count as int)
                },
                Err(e) => !pattern_ok(data@, channel_count as int) && e.kind()
                    == XMErrorKind::Format,
            },
    {
        let bytes = data.as_slice();
        let len: usize = bytes.len();
        if len < 9 {
            return Err(corrupt_pattern());
        }
        let header_len: usize = read_usize(bytes, 0);
        let packed: usize = read_u16(bytes, 7) as usize;
        if header_len > len || len - header_len != packed {
            return Err(corrupt_pattern());
        }
        let rows: u16 = read_u16(bytes, 5);
        if bytes[4] != 0 || rows < 1 || rows > 256 {
            return Err(corrupt_pattern());
        }
        let channels: usize = channel_count as usize;
        let height: usize = rows as usize;
        assert(height * channels <= 256 * 255) by (nonlinear_arith)
            requires
                height <= 256,
                channels <= 255,
        ;
        let cells = match unpack_cells(bytes, header_len, height * channels) {
            Some(cells) => cells,
            None => {
                return Err(corrupt_pattern());
            },
        };
        let mut tracks: Vec<XMTrack> = Vec::new();
        let mut c: usize = 0;
        while c < channels
            invariant
                c <= channels,
                cells@.len() == height * channels,
                tracks@.len() == c,
                forall|i: int|
                    0 <= i < c ==> (#[trigger] tracks@[i])@ == Seq::new(
                        height as nat,
                        |r: int| cells@[r * channels + i],
                    ),
            decreases channels - c,
        {
            tracks.push(XMTrack::from_cells(column(&cells, height, channels, c)));
            c += 1;
        }
        let ptn = XMPattern { rows, tracks };
        proof {
            let want = decoded_grid(data@, channels as int);
            assert(ptn.grid().len() == want.len());
            assert forall|i: int| 0 <= i < channels implies ptn.grid()[i] == want[i] by {
                assert(ptn.tracks@[i]@.len() == height);
                assert forall|r: int| 0 <= r < height implies ptn.grid()[i][r] == want[i][r] by {
                    assert(0 <= r * channels + i < height * channels) by (nonlinear_arith)
                        requires
                            0 <= r < height,
                            0 <= i < channels,
                    ;
                }
                assert(ptn.grid()[i] =~= want[i]);
            }
            assert(ptn.grid() =~= want);
        }
        Ok(ptn)
    }

    /// Returns the BPM in effect on `row`: the parameter of the last speed
    /// command up to that row that is at least 0x20, else the default of the
    /// module.
    ///
    /// Fails with `RowOutOfRange` where the pattern has no such row.
    pub fn bpm(&self, xm: &XModule, row: u8) -> (r: Result<u8, XMParseError>)
        requires
            self.wf(),
            xm.wf(),
        ensures
            match r {
                Ok(v) => row < self.spec_len() && v == speed_or(
                    speed_upto(self.grid(), row as int, true),
                    xm.bpm(),
                ),
                Err(e) => row >= self.spec_len() && e.kind() == XMErrorKind::RowOutOfRange,
            },
    {
        self.speed(row, true, xm.bpm())
    }

    /// Returns the track of the channel, or `None` where the pattern has no
    /// such channel.
    pub fn track(&self, channel: u8) -> (r: Option<&XMTrack>)
        ensures
            match r {
                Some(t) => channel < self.grid().len() && t@ == self.grid()[channel as int],
                None => channel >= self.grid().len(),
            },
    {
        let c: usize = channel as usize;
        if c < self.tracks.len() {
            Some(&self.tracks[c])
        } else {
            None
        }
    }

    /// Returns the number of channels.
    pub fn channel_count(&self) -> (n: u8)
        requires
            self.wf(),
        ensures
            n == self.grid().len(),
    {
        self.tracks.len() as u8
    }

    /// Returns the number of rows, 256 at most.
    pub fn len(&self) -> (n: u16)
        ensures
            n == self.spec_len(),
    {
        self.rows
    }

    /// Returns the tempo in effect on `row`: the parameter of the last speed
    /// command up to that row that is less than 0x20, else the default of the
    /// module.
    ///
    /// Fails with `RowOutOfRange` where the pattern has no such row.
    pub fn tempo(&self, xm: &XModule, row: u8) -> (r: Result<u8, XMParseError>)
        requires
            self.wf(),
            xm.wf(),
        ensures
            match r {
                Ok(v) => row < self.spec_len() && v == speed_or(
                    speed_upto(self.grid(), row as int, false),
                    xm.tempo(),
                ),
                Err(e) => row >= self.spec_len() && e.kind() == XMErrorKind::RowOutOfRange,
            },
    {
        self.speed(row, false, xm.tempo())
    }

    /// Looks for the last speed command up to `row`, going back from it.
    fn speed(&self, row: u8, fast: bool, default: u8) -> (r: Result<u8, XMParseError>)
        requires
            self.wf(),
        ensures
            match r {
                Ok(v) => row < self.spec_len() && v == speed_or(
                    speed_upto(self.grid(), row as int, fast),
                    default,
                ),
                Err(e) => row >= self.spec_len() && e.kind() == XMErrorKind::RowOutOfRange,
            },
    {
        if row as u16 >= self.rows {
            let why = row_message(row as usize, self.rows as usize);
            return Err(XMParseError::new(XMErrorKind::RowOutOfRange, why.as_str()));
        }
        let mut next: usize = row as usize + 1;
        while next > 0
            invariant
                self.wf(),
                next <= row + 1,
                row < self.spec_len(),
                speed_upto(self.grid(), row as int, fast) == speed_upto(
                    self.grid(),
                    next - 1,
                    fast,
                ),
            decreases next,
        {
            next -= 1;
            match self.row_speed(next as u8, fast) {
                Some(p) => {
                    return Ok(p);
                },
                None => (),
            }
        }
        Ok(default)
    }

    /// Looks for the speed command of the highest channel on `row`.
    fn row_speed(&self, row: u8, fast: bool) -> (r: Option<u8>)
        requires
            self.wf(),
            row < self.spec_len(),
        ensures
            r == speed_in_row(self.grid(), row as int, self.grid().len() as int, fast),
    {
        let mut c: usize = self.tracks.len();
        while c > 0
            invariant
                self.wf(),
                row < self.spec_len(),
                c <= self.tracks@.len() == self.grid().len(),
                speed_in_row(self.grid(), row as int, self.grid().len() as int, fast)
                    == speed_in_row(self.grid(), row as int, c as int, fast),
            decreases c,
        {
            c -= 1;
            assert(self.grid()[c as int] == self.tracks@[c as int]@);
            let track = &self.tracks[c];
            match (track.fx_command_raw(row), track.fx_param_raw(row)) {
                (Ok(Some(cmd)), Ok(Some(p))) => {
                    if cmd == XM_FX_FXX && (p >= XM_BPM_MIN) == fast {
                        return Some(p);
                    }
                },
                _ => (),
            }
        }
        None
    }
}

/// The error for a pattern record that is not well formed.
fn corrupt_pattern() -> (e: XMParseError)
    ensures
        e.kind() == XMErrorKind::Format,
{
    XMParseError::new(XMErrorKind::Format, "XM Pattern data corrupt or incomplete.")
}

} // verus!
