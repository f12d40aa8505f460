use xmkit::{XMCell, XMErrorKind, XMTrack};
use xmkit::{
    XM_FX_0XX, XM_FX_1XX, XM_FX_4XX, XM_FX_8XX, XM_FX_AXX, XM_FX_CXX, XM_FX_E1X, XM_FX_E5X,
    XM_FX_E9X, XM_FX_EAX, XM_FX_FXX, XM_FX_TXX, XM_FX_X1X, XM_FX_X2X,
};

fn blank() -> XMCell {
    XMCell { note: None, instrument: None, volume: None, fx_command: None, fx_param: None }
}

fn with_note(note: u8) -> XMCell {
    XMCell { note: Some(note), ..blank() }
}

fn with_fx(cmd: u8, param: u8) -> XMCell {
    XMCell { fx_command: Some(cmd), fx_param: Some(param), ..blank() }
}

fn track_of(cells: Vec<XMCell>) -> XMTrack {
    XMTrack::from_cells(cells)
}

#[test]
fn note_is_the_raw_note_where_one_is_present() {
    let trk = track_of(vec![with_note(0x31), blank(), with_note(0x40), blank()]);
    for row in 0..4u8 {
        if let Some(n) = trk.note_raw(row).unwrap() {
            assert_eq!(trk.note(row).unwrap(), n);
        }
    }
    assert_eq!(trk.note_raw(0).unwrap(), Some(0x31));
    assert_eq!(trk.note_raw(1).unwrap(), None);
    assert_eq!(trk.note(2).unwrap(), 0x40);
}

#[test]
fn note_carries_over_from_the_nearest_earlier_row() {
    let trk = track_of(vec![blank(), with_note(0x31), blank(), blank(), with_note(0x22), blank()]);
    assert_eq!(trk.note(0).unwrap(), 0);
    assert_eq!(trk.note(1).unwrap(), 0x31);
    assert_eq!(trk.note(3).unwrap(), 0x31);
    assert_eq!(trk.note(4).unwrap(), 0x22);
    assert_eq!(trk.note(5).unwrap(), 0x22);
}

#[test]
fn instrument_carries_over_from_the_nearest_earlier_row() {
    let mut a = blank();
    a.instrument = Some(3);
    let mut b = blank();
    b.instrument = Some(9);
    let trk = track_of(vec![blank(), a, blank(), b, blank()]);
    assert_eq!(trk.instrument(0).unwrap(), 0);
    assert_eq!(trk.instrument(2).unwrap(), 3);
    assert_eq!(trk.instrument(4).unwrap(), 9);
    assert_eq!(trk.instrument_raw(2).unwrap(), None);
    assert_eq!(trk.instrument_raw(3).unwrap(), Some(9));
}

#[test]
fn defaults_where_nothing_was_set() {
    let trk = track_of(vec![blank(), with_fx(0x0f, 0x7d), blank()]);
    for row in 0..3u8 {
        assert_eq!(trk.note(row).unwrap(), 0);
        assert_eq!(trk.instrument(row).unwrap(), 0);
        assert_eq!(trk.volume(row).unwrap(), 0x40);
    }
}

#[test]
fn volume_is_set_by_bytes_from_0x10_to_0x50_only() {
    let mut low = blank();
    low.volume = Some(0x0f);
    let mut least = blank();
    least.volume = Some(0x10);
    let mut most = blank();
    most.volume = Some(0x50);
    let mut high = blank();
    high.volume = Some(0x51);
    let trk = track_of(vec![low, least, blank(), most, high, blank()]);
    assert_eq!(trk.volume(0).unwrap(), 0x40);
    assert_eq!(trk.volume(1).unwrap(), 0x00);
    assert_eq!(trk.volume(2).unwrap(), 0x00);
    assert_eq!(trk.volume(3).unwrap(), 0x40);
    assert_eq!(trk.volume(4).unwrap(), 0x40);
    assert_eq!(trk.volume(5).unwrap(), 0x40);
    assert_eq!(trk.volume_raw(4).unwrap(), Some(0x51));
}

#[test]
fn volume_carries_only_within_the_life_of_a_note() {
    let mut set = blank();
    set.volume = Some(0x30);
    let mut both = with_note(0x20);
    both.volume = Some(0x25);
    let trk = track_of(vec![set, blank(), with_note(0x31), blank(), both, blank()]);
    assert_eq!(trk.volume(0).unwrap(), 0x20);
    assert_eq!(trk.volume(1).unwrap(), 0x20);
    assert_eq!(trk.volume(2).unwrap(), 0x40);
    assert_eq!(trk.volume(3).unwrap(), 0x40);
    assert_eq!(trk.volume(4).unwrap(), 0x15);
    assert_eq!(trk.volume(5).unwrap(), 0x15);
}

#[test]
fn row_beyond_the_track_is_out_of_range() {
    let trk = track_of(vec![blank(), blank()]);
    assert_eq!(trk.len(), 2);
    assert_eq!(trk.note(2).unwrap_err().kind(), XMErrorKind::RowOutOfRange);
    assert_eq!(trk.note_raw(2).unwrap_err().kind(), XMErrorKind::RowOutOfRange);
    assert_eq!(trk.instrument(2).unwrap_err().kind(), XMErrorKind::RowOutOfRange);
    assert_eq!(trk.instrument_raw(200).unwrap_err().kind(), XMErrorKind::RowOutOfRange);
    assert_eq!(trk.volume(2).unwrap_err().kind(), XMErrorKind::RowOutOfRange);
    assert_eq!(trk.volume_raw(2).unwrap_err().kind(), XMErrorKind::RowOutOfRange);
    assert_eq!(trk.fx(XM_FX_1XX, 2).unwrap_err().kind(), XMErrorKind::RowOutOfRange);
    assert_eq!(trk.fx_command_raw(2).unwrap_err().kind(), XMErrorKind::RowOutOfRange);
    assert_eq!(trk.fx_param_raw(255).unwrap_err().kind(), XMErrorKind::RowOutOfRange);
    assert_eq!(trk.trigger(2).unwrap_err().kind(), XMErrorKind::RowOutOfRange);
    assert_eq!(trk.note_trigger(2).unwrap_err().kind(), XMErrorKind::RowOutOfRange);
    assert!(trk.note(1).is_ok());
}

#[test]
fn row_error_names_the_row_and_the_length() {
    let trk = track_of(vec![blank(), blank()]);
    let e = trk.note(7).unwrap_err();
    assert_eq!(e.description(), "Row 7 does not exist in pattern, pattern length = 2 rows.");
}

#[test]
fn empty_track_has_no_row() {
    let trk = track_of(Vec::new());
    assert_eq!(trk.note(0).unwrap_err().kind(), XMErrorKind::RowOutOfRange);
    assert_eq!(trk.fx(XM_FX_1XX, 0).unwrap_err().kind(), XMErrorKind::RowOutOfRange);
}

#[test]
fn trigger_tells_whether_the_row_holds_a_note() {
    let trk = track_of(vec![with_note(1), blank()]);
    assert!(trk.trigger(0).unwrap());
    assert!(!trk.trigger(1).unwrap());
    assert!(trk.note_trigger(0).unwrap());
    assert!(!trk.note_trigger(1).unwrap());
}

#[test]
fn unknown_effect_is_invalid() {
    let trk = track_of(vec![blank()]);
    for fx in [0x0eu8, 0x12, 0x13, 0x16, 0x1c, 0x1e, 0x21, 0x24, 0xe0, 0xef, 0xff] {
        assert_eq!(trk.fx(fx, 0).unwrap_err().kind(), XMErrorKind::InvalidEffect);
    }
    let e = trk.fx(0x0e, 0).unwrap_err();
    assert_eq!(e.description(), "Invalid fx command 14 requested.");
}

#[test]
fn row_is_checked_before_the_effect() {
    let trk = track_of(vec![blank()]);
    assert_eq!(trk.fx(0x0e, 1).unwrap_err().kind(), XMErrorKind::RowOutOfRange);
}

#[test]
fn every_named_effect_is_known() {
    let trk = track_of(vec![blank()]);
    let known: [u8; 38] = [
        0, 1, 2, 3, 4, 5, 6, 7, 8, 9, 0xa, 0xb, 0xc, 0xd, 0xf, 0x10, 0x11, 0x14, 0x15, 0x19, 0x1b,
        0x1d, 0x22, 0x23, 0xe1, 0xe2, 0xe3, 0xe4, 0xe5, 0xe6, 0xe7, 0xe8, 0xe9, 0xea, 0xeb, 0xec,
        0xed, 0xee,
    ];
    let mut count = 0;
    for fx in 0..=255u8 {
        let r = trk.fx(fx, 0);
        assert_eq!(r.is_ok(), known.contains(&fx));
        if r.is_ok() {
            count += 1;
        }
    }
    assert_eq!(count, 38);
}

#[test]
fn effect_memory_keeps_the_last_value() {
    let trk = track_of(vec![
        blank(),
        with_fx(0x01, 0x13),
        blank(),
        with_fx(0x02, 0x44),
        with_fx(0x01, 0x00),
        blank(),
    ]);
    assert_eq!(trk.fx(XM_FX_1XX, 0).unwrap(), 0);
    assert_eq!(trk.fx(XM_FX_1XX, 1).unwrap(), 0x13);
    assert_eq!(trk.fx(XM_FX_1XX, 2).unwrap(), 0x13);
    assert_eq!(trk.fx(XM_FX_1XX, 3).unwrap(), 0x13);
    assert_eq!(trk.fx(XM_FX_1XX, 4).unwrap(), 0x13);
    assert_eq!(trk.fx(XM_FX_1XX, 5).unwrap(), 0x13);
}

#[test]
fn note_sends_an_effect_back_to_its_default() {
    let trk = track_of(vec![with_fx(0x04, 0x37), blank(), with_note(0x30), blank()]);
    assert_eq!(trk.fx(XM_FX_4XX, 1).unwrap(), 0x37);
    assert_eq!(trk.fx(XM_FX_4XX, 2).unwrap(), 0);
    assert_eq!(trk.fx(XM_FX_4XX, 3).unwrap(), 0);
}

#[test]
fn note_and_command_on_one_row_leave_the_command() {
    let mut cell = with_fx(0x0a, 0x20);
    cell.note = Some(0x30);
    let trk = track_of(vec![with_fx(0x0a, 0x05), cell, blank()]);
    assert_eq!(trk.fx(XM_FX_AXX, 1).unwrap(), 0x20);
    assert_eq!(trk.fx(XM_FX_AXX, 2).unwrap(), 0x20);
}

#[test]
fn effect_without_memory_lasts_one_row() {
    let trk = track_of(vec![
        with_fx(0x0c, 0x30),
        blank(),
        with_fx(0x0c, 0x00),
        with_fx(0x0c, 0x22),
        with_fx(0x08, 0x80),
    ]);
    assert_eq!(trk.fx(XM_FX_CXX, 0).unwrap(), 0x30);
    assert_eq!(trk.fx(XM_FX_CXX, 1).unwrap(), 0);
    assert_eq!(trk.fx(XM_FX_CXX, 2).unwrap(), 0);
    assert_eq!(trk.fx(XM_FX_CXX, 3).unwrap(), 0x22);
    assert_eq!(trk.fx(XM_FX_CXX, 4).unwrap(), 0);
    assert_eq!(trk.fx(XM_FX_8XX, 4).unwrap(), 0x80);
    assert_eq!(trk.fx(XM_FX_0XX, 4).unwrap(), 0);
    assert_eq!(trk.fx(XM_FX_FXX, 0).unwrap(), 0);
}

#[test]
fn command_without_parameter_changes_nothing() {
    let lone = XMCell { fx_command: Some(0x0c), ..blank() };
    let trk = track_of(vec![with_fx(0x0c, 0x30), lone]);
    assert_eq!(trk.fx(XM_FX_CXX, 1).unwrap(), 0x30);
}

#[test]
fn extended_effects_split_the_parameter() {
    let trk = track_of(vec![
        with_fx(0x0e, 0x13),
        blank(),
        with_fx(0x0e, 0xa7),
        with_fx(0x0e, 0x94),
        blank(),
    ]);
    assert_eq!(trk.fx(XM_FX_E1X, 0).unwrap(), 3);
    assert_eq!(trk.fx(XM_FX_E1X, 1).unwrap(), 3);
    assert_eq!(trk.fx(XM_FX_E1X, 4).unwrap(), 3);
    assert_eq!(trk.fx(XM_FX_EAX, 1).unwrap(), 0);
    assert_eq!(trk.fx(XM_FX_EAX, 2).unwrap(), 7);
    assert_eq!(trk.fx(XM_FX_EAX, 4).unwrap(), 7);
    assert_eq!(trk.fx(XM_FX_E9X, 2).unwrap(), 0);
    assert_eq!(trk.fx(XM_FX_E9X, 3).unwrap(), 4);
    assert_eq!(trk.fx(XM_FX_E9X, 4).unwrap(), 0);
}

#[test]
fn extended_effect_with_memory_takes_a_zero_value() {
    let trk = track_of(vec![with_fx(0x0e, 0x13), with_fx(0x0e, 0x10)]);
    assert_eq!(trk.fx(XM_FX_E1X, 1).unwrap(), 0);
}

#[test]
fn finetune_falls_back_to_eight() {
    let trk = track_of(vec![
        blank(),
        with_fx(0x0e, 0x53),
        blank(),
        with_note(0x30),
        with_fx(0x0e, 0x5f),
        with_fx(0x0e, 0x61),
    ]);
    assert_eq!(trk.fx(XM_FX_E5X, 0).unwrap(), 8);
    assert_eq!(trk.fx(XM_FX_E5X, 1).unwrap(), 3);
    assert_eq!(trk.fx(XM_FX_E5X, 2).unwrap(), 8);
    assert_eq!(trk.fx(XM_FX_E5X, 3).unwrap(), 8);
    assert_eq!(trk.fx(XM_FX_E5X, 4).unwrap(), 0xf);
    assert_eq!(trk.fx(XM_FX_E5X, 5).unwrap(), 8);
}

#[test]
fn x_family_is_told_apart_by_the_upper_nibble() {
    let trk = track_of(vec![with_fx(0x21, 0x15), with_fx(0x21, 0x29), blank(), with_fx(0x21, 0x37)]);
    assert_eq!(trk.fx(XM_FX_X1X, 0).unwrap(), 5);
    assert_eq!(trk.fx(XM_FX_X2X, 0).unwrap(), 0);
    assert_eq!(trk.fx(XM_FX_X1X, 1).unwrap(), 5);
    assert_eq!(trk.fx(XM_FX_X2X, 1).unwrap(), 9);
    assert_eq!(trk.fx(XM_FX_X1X, 3).unwrap(), 5);
    assert_eq!(trk.fx(XM_FX_X2X, 3).unwrap(), 9);
}

#[test]
fn last_plain_effect_is_not_extended() {
    let trk = track_of(vec![with_fx(0x1d, 0x42), blank()]);
    assert_eq!(trk.fx(XM_FX_TXX, 1).unwrap(), 0x42);
}

#[test]
fn raw_effect_bytes_are_what_the_row_holds() {
    let trk = track_of(vec![with_fx(0x0f, 0x7d), blank()]);
    assert_eq!(trk.fx_command_raw(0).unwrap(), Some(0x0f));
    assert_eq!(trk.fx_param_raw(0).unwrap(), Some(0x7d));
    assert_eq!(trk.fx_command_raw(1).unwrap(), None);
    assert_eq!(trk.fx_param_raw(1).unwrap(), None);
}
