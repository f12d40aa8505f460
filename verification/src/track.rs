//! One channel's column of a pattern, and the parameters in effect on a row.

use crate::effects::{command_byte, default_param, has_memory, is_effect, selects, value_of};
use crate::error::{effect_message, row_message, XMErrorKind, XMParseError};
use vstd::prelude::*;

verus! {

/// What one row of one channel holds. A field that the pattern did not code
/// for the row is `None`.
#[derive(Clone, Copy, Debug)]
pub struct XMCell {
    pub note: Option<u8>,
    pub instrument: Option<u8>,
    pub volume: Option<u8>,
    pub fx_command: Option<u8>,
    pub fx_param: Option<u8>,
}

/// The volume in effect where no row has set one.
pub const XM_DEFAULT_VOLUME: u8 = 0x40;

/// The note in effect on `row`: that of the nearest row at or before it that
/// holds one, 0 where there is none.
pub open spec fn note_at(cells: Seq<XMCell>, row: int) -> u8
    recommends
        row < cells.len(),
    decreases row + 1,
{
    if row < 0 {
        0
    } else {
        match cells[row].note {
            Some(n) => n,
            None => note_at(cells, row - 1),
        }
    }
}

/// The instrument in effect on `row`: that of the nearest row at or before it
/// that holds one, 0 where there is none.
pub open spec fn instrument_at(cells: Seq<XMCell>, row: int) -> u8
    recommends
        row < cells.len(),
    decreases row + 1,
{
    if row < 0 {
        0
    } else {
        match cells[row].instrument {
            Some(i) => i,
            None => instrument_at(cells, row - 1),
        }
    }
}

/// Whether the cell sets the volume: its volume byte lies in 0x10..=0x50.
pub open spec fn sets_volume(cell: XMCell) -> bool {
    match cell.volume {
        Some(v) => 0x10 <= v <= 0x50,
        None => false,
    }
}

/// The volume in effect on `row`, in 0..=0x40. Going back from `row`, the
/// first row that sets the volume gives it; a row that holds a note and does
/// not set the volume ends the search with the default.
pub open spec fn volume_at(cells: Seq<XMCell>, row: int) -> u8
    recommends
        row < cells.len(),
    decreases row + 1,
{
    if row < 0 {
        0x40
    } else if sets_volume(cells[row]) {
        (cells[row].volume->Some_0 - 0x10) as u8
    } else if cells[row].note is Some {
        0x40
    } else {
        volume_at(cells, row - 1)
    }
}

/// Whether the cell sets the effect class `fx`: it holds the command byte of
/// the class and a parameter that belongs to it.
pub open spec fn sets_effect(cell: XMCell, fx: u8) -> bool {
    &&& cell.fx_command == Some(command_byte(fx))
    &&& cell.fx_param is Some
    &&& selects(fx, cell.fx_param->Some_0)
}

/// The value of the class `fx` after a row, given its value before the row.
///
/// A note sends the value back to the default of the class. Then a cell that
/// sets the class gives it the value of its parameter, unless the class has
/// memory and the parameter byte is 0: the earlier value stays. A cell with
/// the command byte of the class and no parameter changes nothing. Any other
/// cell, with another command or with none, sends a class without memory back
/// to its default.
pub open spec fn fx_step(cell: XMCell, fx: u8, before: u8) -> u8 {
    let carried = if cell.note is Some {
        default_param(fx)
    } else {
        before
    };
    if sets_effect(cell, fx) {
        if cell.fx_param->Some_0 != 0 || !has_memory(fx) {
            value_of(fx, cell.fx_param->Some_0)
        } else {
            carried
        }
    } else if cell.fx_command == Some(command_byte(fx)) && cell.fx_param is None {
        carried
    } else if has_memory(fx) {
        carried
    } else {
        default_param(fx)
    }
}

/// The value of the class `fx` after the first `n` rows, starting from 0.
pub open spec fn fx_after(cells: Seq<XMCell>, fx: u8, n: int) -> u8
    recommends
        n <= cells.len(),
    decreases n,
{
    if n <= 0 {
        0
    } else {
        fx_step(cells[n - 1], fx, fx_after(cells, fx, n - 1))
    }
}

/// The value of the class `fx` after one row.
fn fx_advance(cell: &XMCell, fx: u8, before: u8) -> (after: u8)
    ensures
        after == fx_step(*cell, fx, before),
{
    let rest = default_param(fx);
    let memory = has_memory(fx);
    let carried = match cell.note {
        Some(_) => rest,
        None => before,
    };
    let lapsed = if memory {
        carried
    } else {
        rest
    };
    match cell.fx_command {
        Some(cmd) => {
            if cmd == command_byte(fx) {
                match cell.fx_param {
                    Some(p) => {
                        if selects(fx, p) {
                            if p != 0 || !memory {
                                value_of(fx, p)
                            } else {
                                carried
                            }
                        } else {
                            lapsed
                        }
                    },
                    None => carried,
                }
            } else {
                lapsed
            }
        },
        None => lapsed,
    }
}

/// The column of one channel: one cell for each row of the pattern.
#[derive(Debug)]
pub struct XMTrack {
    cells: Vec<XMCell>,
}

impl View for XMTrack {
    type V = Seq<XMCell>;

    closed spec fn view(&self) -> Seq<XMCell> {
        self.cells@
    }
}

impl XMTrack {
    /// Makes the track that holds the given cells, row by row.
    pub fn from_cells(cells: Vec<XMCell>) -> (track: XMTrack)
        ensures
            track@ == cells@,
    {
        XMTrack { cells }
    }

    /// Returns the number of rows.
    pub fn len(&self) -> (n: usize)
        ensures
            n == self@.len(),
    {
        self.cells.len()
    }

    /// Returns the value of the effect class `fx_command` in effect on `row`.
    /// The classes are named by the `XM_FX_*` constants; each extended effect
    /// (E1x..EEx, X1x, X2x) is a class of its own.
    ///
    /// Fails with `RowOutOfRange` where the track has no such row, else with
    /// `InvalidEffect` where the identifier names no class.
    pub fn fx(&self, fx_command: u8, row: u8) -> (r: Result<u8, XMParseError>)
        ensures
            match r {
                Ok(p) => row < self@.len() && is_effect(fx_command) && p == fx_after(
                    self@,
                    fx_command,
                    row + 1,
                ),
                Err(e) => if row >= self@.len() {
                    e.kind() == XMErrorKind::RowOutOfRange
                } else {
                    !is_effect(fx_command) && e.kind() == XMErrorKind::InvalidEffect
                },
            },
    {
        self.validate_row(row)?;
        if !is_effect(fx_command) {
            let why = effect_message(fx_command);
            return Err(XMParseError::new(XMErrorKind::InvalidEffect, why.as_str()));
        }
        let last: usize = row as usize;
        let mut param: u8 = 0;
        let mut r: usize = 0;
        while r <= last
            invariant
                r <= last + 1,
                last == row,
                last < self.cells@.len(),
                param == fx_after(self@, fx_command, r as int),
            decreases last + 1 - r,
        {
            param = fx_advance(&self.cells[r], fx_command, param);
            r += 1;
        }
        Ok(param)
    }

    /// Returns the effect command byte that `row` holds.
    ///
    /// Fails with `RowOutOfRange` where the track has no such row.
    pub fn fx_command_raw(&self, row: u8) -> (r: Result<Option<u8>, XMParseError>)
        ensures
            match r {
                Ok(v) => row < self@.len() && v == self@[row as int].fx_command,
                Err(e) => row >= self@.len() && e.kind() == XMErrorKind::RowOutOfRange,
            },
    {
        self.validate_row(row)?;
        Ok(self.cells[row as usize].fx_command)
    }

    /// Returns the effect parameter byte that `row` holds.
    ///
    /// Fails with `RowOutOfRange` where the track has no such row.
    pub fn fx_param_raw(&self, row: u8) -> (r: Result<Option<u8>, XMParseError>)
        ensures
            match r {
                Ok(v) => row < self@.len() && v == self@[row as int].fx_param,
                Err(e) => row >= self@.len() && e.kind() == XMErrorKind::RowOutOfRange,
            },
    {
        self.validate_row(row)?;
        Ok(self.cells[row as usize].fx_param)
    }

    /// Returns the instrument in effect on `row`: the last one named at or
    /// before it, 0 where none was.
    ///
    /// Fails with `RowOutOfRange` where the track has no such row.
    pub fn instrument(&self, row: u8) -> (r: Result<u8, XMParseError>)
        ensures
            match r {
                Ok(v) => row < self@.len() && v == instrument_at(self@, row as int),
                Err(e) => row >= self@.len() && e.kind() == XMErrorKind::RowOutOfRange,
            },
    {
        self.validate_row(row)?;
        let mut next: usize = row as usize + 1;
        while next > 0
            invariant
                next <= row + 1,
                row < self.cells@.len(),
                instrument_at(self@, row as int) == instrument_at(self@, next - 1),
            decreases next,
        {
            next -= 1;
            match self.cells[next].instrument {
                Some(instr) => {
                    return Ok(instr);
                },
                None => (),
            }
        }
        Ok(0)
    }

    /// Returns the instrument byte that `row` holds.
    ///
    /// Fails with `RowOutOfRange` where the track has no such row.
    pub fn instrument_raw(&self, row: u8) -> (r: Result<Option<u8>, XMParseError>)
        ensures
            match r {
                Ok(v) => row < self@.len() && v == self@[row as int].instrument,
                Err(e) => row >= self@.len() && e.kind() == XMErrorKind::RowOutOfRange,
            },
    {
        self.validate_row(row)?;
        Ok(self.cells[row as usize].instrument)
    }

    /// Returns the note in effect on `row`: the last one triggered at or
    /// before it, 0 where none was.
    ///
    /// Fails with `RowOutOfRange` where the track has no such row.
    pub fn note(&self, row: u8) -> (r: Result<u8, XMParseError>)
        ensures
            match r {
                Ok(v) => row < self@.len() && v == note_at(self@, row as int),
                Err(e) => row >= self@.len() && e.kind() == XMErrorKind::RowOutOfRange,
            },
    {
        self.validate_row(row)?;
        let mut next: usize = row as usize + 1;
        while next > 0
            invariant
                next <= row + 1,
                row < self.cells@.len(),
                note_at(self@, row as int) == note_at(self@, next - 1),
            decreases next,
        {
            next -= 1;
            match self.cells[next].note {
                Some(note) => {
                    return Ok(note);
                },
                None => (),
            }
        }
        Ok(0)
    }

    /// Returns the note byte that `row` holds.
    ///
    /// Fails with `RowOutOfRange` where the track has no such row.
    pub fn note_raw(&self, row: u8) -> (r: Result<Option<u8>, XMParseError>)
        ensures
            match r {
                Ok(v) => row < self@.len() && v == self@[row as int].note,
                Err(e) => row >= self@.len() && e.kind() == XMErrorKind::RowOutOfRange,
            },
    {
        self.validate_row(row)?;
        Ok(self.cells[row as usize].note)
    }

    /// Returns whether `row` holds a note.
    ///
    /// Fails with `RowOutOfRange` where the track has no such row.
    pub fn note_trigger(&self, row: u8) -> (r: Result<bool, XMParseError>)
        ensures
            match r {
                Ok(b) => row < self@.len() && b == (self@[row as int].note is Some),
                Err(e) => row >= self@.len() && e.kind() == XMErrorKind::RowOutOfRange,
            },
    {
        match self.note_raw(row)? {
            Some(_) => Ok(true),
            None => Ok(false),
        }
    }

    /// Returns whether a note is triggered on `row`.
    ///
    /// Fails with `RowOutOfRange` where the track has no such row.
    pub fn trigger(&self, row: u8) -> (r: Result<bool, XMParseError>)
        ensures
            match r {
                Ok(b) => row < self@.len() && b == (self@[row as int].note is Some),
                Err(e) => row >= self@.len() && e.kind() == XMErrorKind::RowOutOfRange,
            },
    {
        self.validate_row(row)?;
        match self.cells[row as usize].note {
            Some(_) => Ok(true),
            None => Ok(false),
        }
    }

    /// Returns the volume in effect on `row`, in 0..=0x40. Volume column
    /// bytes outside 0x10..=0x50 are effects and set no volume.
    ///
    /// Fails with `RowOutOfRange` where the track has no such row.
    pub fn volume(&self, row: u8) -> (r: Result<u8, XMParseError>)
        ensures
            match r {
                Ok(v) => row < self@.len() && v == volume_at(self@, row as int),
                Err(e) => row >= self@.len() && e.kind() == XMErrorKind::RowOutOfRange,
            },
    {
        self.validate_row(row)?;
        let mut next: usize = row as usize + 1;
        while next > 0
            invariant
                next <= row + 1,
                row < self.cells@.len(),
                volume_at(self@, row as int) == volume_at(self@, next - 1),
            decreases next,
        {
            next -= 1;
            match self.cells[next].volume {
                Some(vol) => {
                    if vol >= 0x10 && vol <= 0x50 {
                        return Ok(vol - 0x10);
                    }
                },
                None => (),
            }
            match self.cells[next].note {
                Some(_) => {
                    return Ok(XM_DEFAULT_VOLUME);
                },
                None => (),
            }
        }
        Ok(XM_DEFAULT_VOLUME)
    }

    /// Returns the volume column byte that `row` holds.
    ///
    /// Fails with `RowOutOfRange` where the track has no such row.
    pub fn volume_raw(&self, row: u8) -> (r: Result<Option<u8>, XMParseError>)
        ensures
            match r {
                Ok(v) => row < self@.len() && v == self@[row as int].volume,
                Err(e) => row >= self@.len() && e.kind() == XMErrorKind::RowOutOfRange,
            },
    {
        self.validate_row(row)?;
        Ok(self.cells[row as usize].volume)
    }

    /// Tells whether the track has the row.
    fn validate_row(&self, row: u8) -> (r: Result<bool, XMParseError>)
        ensures
            match r {
                Ok(b) => b && row < self@.len(),
                Err(e) => row >= self@.len() && e.kind() == XMErrorKind::RowOutOfRange,
            },
    {
        let row: usize = row as usize;
        if row >= self.cells.len() {
            let why = row_message(row, self.cells.len());
            return Err(XMParseError::new(XMErrorKind::RowOutOfRange, why.as_str()));
        }
        Ok(true)
    }
}

/// A note that a row holds is the note in effect on that row.
pub proof fn lemma_note_of_trigger(cells: Seq<XMCell>, row: int, n: u8)
    requires
        0 <= row < cells.len(),
        cells[row].note == Some(n),
    ensures
        note_at(cells, row) == n,
{
}

/// Where no row up to `row` holds a note, the note in effect is 0.
pub proof fn lemma_note_unset(cells: Seq<XMCell>, row: int)
    requires
        0 <= row < cells.len(),
        forall|j: int| 0 <= j <= row ==> cells[j].note is None,
    ensures
        note_at(cells, row) == 0,
    decreases row,
{
    if row > 0 {
        lemma_note_unset(cells, row - 1);
    } else {
        assert(note_at(cells, -1) == 0);
    }
}

/// Where no row up to `row` names an instrument, the instrument in effect
/// is 0.
pub proof fn lemma_instrument_unset(cells: Seq<XMCell>, row: int)
    requires
        0 <= row < cells.len(),
        forall|j: int| 0 <= j <= row ==> cells[j].instrument is None,
    ensures
        instrument_at(cells, row) == 0,
    decreases row,
{
    if row > 0 {
        lemma_instrument_unset(cells, row - 1);
    } else {
        assert(instrument_at(cells, -1) == 0);
    }
}

/// Where no row up to `row` sets the volume, the volume in effect is the
/// default, 0x40.
pub proof fn lemma_volume_unset(cells: Seq<XMCell>, row: int)
    requires
        0 <= row < cells.len(),
        forall|j: int| 0 <= j <= row ==> !sets_volume(#[trigger] cells[j]),
    ensures
        volume_at(cells, row) == 0x40,
    decreases row,
{
    if row > 0 {
        lemma_volume_unset(cells, row - 1);
    } else {
        assert(volume_at(cells, -1) == 0x40);
    }
}

/// Effect memory. Row `a` sets a class with memory to a value other than 0.
/// No later row up to `b` holds a note or sets the class. Then the value is
/// still in effect on row `b`.
pub proof fn lemma_effect_memory(cells: Seq<XMCell>, fx: u8, a: int, b: int, p: u8)
    requires
        0 <= a < b < cells.len(),
        has_memory(fx),
        sets_effect(cells[a], fx),
        value_of(fx, cells[a].fx_param->Some_0) == p,
        p != 0,
        forall|r: int| a < r <= b ==> cells[r].note is None && !sets_effect(#[trigger] cells[r], fx),
    ensures
        fx_after(cells, fx, b + 1) == p,
    decreases b - a,
{
    assert(fx_after(cells, fx, a + 1) == p);
    if b > a + 1 {
        lemma_effect_memory(cells, fx, a, b - 1, p);
    }
    assert(fx_after(cells, fx, b + 1) == fx_step(cells[b], fx, fx_after(cells, fx, b)));
}

} // verus!
