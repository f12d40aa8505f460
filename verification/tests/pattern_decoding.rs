use xmkit::{XMErrorKind, XMPattern, XModule};

fn pattern_record(rows: u16, cells: &[u8]) -> Vec<u8> {
    let mut p = Vec::new();
    p.extend_from_slice(&9u32.to_le_bytes());
    p.push(0);
    p.extend_from_slice(&rows.to_le_bytes());
    p.extend_from_slice(&(cells.len() as u16).to_le_bytes());
    p.extend_from_slice(cells);
    p
}

fn empty_rows(rows: usize, channels: usize) -> Vec<u8> {
    vec![0x80u8; rows * channels]
}

fn module_around(channels: u8, tempo: u8, bpm: u8, pattern: &[u8]) -> Vec<u8> {
    let mut m = Vec::new();
    m.extend_from_slice(b"Extended Module: ");
    m.extend_from_slice(b"speed test\0\0\0\0\0\0\0\0\0\0");
    m.extend_from_slice(b"some tracker        ");
    m.push(0);
    m.extend_from_slice(&[0x04, 0x01]);
    m.extend_from_slice(&276u32.to_le_bytes());
    m.extend_from_slice(&1u16.to_le_bytes());
    m.extend_from_slice(&0u16.to_le_bytes());
    m.extend_from_slice(&(channels as u16).to_le_bytes());
    m.extend_from_slice(&1u16.to_le_bytes());
    m.extend_from_slice(&0u16.to_le_bytes());
    m.extend_from_slice(&1u16.to_le_bytes());
    m.extend_from_slice(&(tempo as u16).to_le_bytes());
    m.extend_from_slice(&(bpm as u16).to_le_bytes());
    m.extend_from_slice(&[0u8; 256]);
    assert_eq!(m.len(), 336);
    m.extend_from_slice(pattern);
    m
}

#[test]
fn masked_cells_hold_the_fields_that_their_bits_name() {
    let cells = [
        0x83, 0x31, 0x02, // note and instrument
        0x80, // nothing
        0x98, 0x0f, 0x7d, // command and parameter
        0x84, 0x40, // volume
        0x9f, 0x10, 0x01, 0x20, 0x0a, 0x0b, // all five
        0x90, 0x33, // parameter alone
    ];
    let ptn = XMPattern::parse(pattern_record(3, &cells), 2).unwrap();
    assert_eq!(ptn.len(), 3);
    assert_eq!(ptn.channel_count(), 2);
    assert_eq!(ptn.tracks.len(), 2);
    let left = &ptn.tracks[0];
    let right = &ptn.tracks[1];
    assert_eq!(left.len(), 3);
    assert_eq!(right.len(), 3);

    assert_eq!(left.note_raw(0).unwrap(), Some(0x31));
    assert_eq!(left.instrument_raw(0).unwrap(), Some(0x02));
    assert_eq!(left.volume_raw(0).unwrap(), None);
    assert_eq!(left.fx_command_raw(0).unwrap(), None);
    assert_eq!(left.fx_param_raw(0).unwrap(), None);

    assert_eq!(right.note_raw(0).unwrap(), None);
    assert_eq!(right.instrument_raw(0).unwrap(), None);
    assert_eq!(right.volume_raw(0).unwrap(), None);
    assert_eq!(right.fx_command_raw(0).unwrap(), None);
    assert_eq!(right.fx_param_raw(0).unwrap(), None);

    assert_eq!(left.note_raw(1).unwrap(), None);
    assert_eq!(left.fx_command_raw(1).unwrap(), Some(0x0f));
    assert_eq!(left.fx_param_raw(1).unwrap(), Some(0x7d));

    assert_eq!(right.volume_raw(1).unwrap(), Some(0x40));
    assert_eq!(right.note_raw(1).unwrap(), None);

    assert_eq!(left.note_raw(2).unwrap(), Some(0x10));
    assert_eq!(left.instrument_raw(2).unwrap(), Some(0x01));
    assert_eq!(left.volume_raw(2).unwrap(), Some(0x20));
    assert_eq!(left.fx_command_raw(2).unwrap(), Some(0x0a));
    assert_eq!(left.fx_param_raw(2).unwrap(), Some(0x0b));

    assert_eq!(right.fx_command_raw(2).unwrap(), None);
    assert_eq!(right.fx_param_raw(2).unwrap(), Some(0x33));
}

#[test]
fn cell_without_mask_holds_all_five_fields() {
    let cells = [0x31, 0x02, 0x30, 0x0c, 0x40, 0x00, 0x00, 0x00, 0x00, 0x00];
    let ptn = XMPattern::parse(pattern_record(2, &cells), 1).unwrap();
    let trk = &ptn.tracks[0];
    assert_eq!(trk.note_raw(0).unwrap(), Some(0x31));
    assert_eq!(trk.instrument_raw(0).unwrap(), Some(0x02));
    assert_eq!(trk.volume_raw(0).unwrap(), Some(0x30));
    assert_eq!(trk.fx_command_raw(0).unwrap(), Some(0x0c));
    assert_eq!(trk.fx_param_raw(0).unwrap(), Some(0x40));
    assert_eq!(trk.note_raw(1).unwrap(), Some(0));
    assert_eq!(trk.fx_param_raw(1).unwrap(), Some(0));
    assert_eq!(trk.note(1).unwrap(), 0);
    assert_eq!(trk.volume(0).unwrap(), 0x20);
}

#[test]
fn cells_must_take_the_declared_size_to_the_byte() {
    let cells = [0x83, 0x31, 0x02, 0x80];
    assert!(XMPattern::parse(pattern_record(2, &cells), 1).is_ok());

    let mut long = cells.to_vec();
    long.push(0x80);
    let e = XMPattern::parse(pattern_record(2, &long), 1).unwrap_err();
    assert_eq!(e.kind(), XMErrorKind::Format);

    let e = XMPattern::parse(pattern_record(2, &cells[..3]), 1).unwrap_err();
    assert_eq!(e.kind(), XMErrorKind::Format);

    let e = XMPattern::parse(pattern_record(1, &[0x83, 0x31]), 1).unwrap_err();
    assert_eq!(e.kind(), XMErrorKind::Format);

    let e = XMPattern::parse(pattern_record(1, &[0x31, 0x02, 0x30, 0x0c]), 1).unwrap_err();
    assert_eq!(e.kind(), XMErrorKind::Format);
    assert_eq!(e.description(), "XM Pattern data corrupt or incomplete.");
}

#[test]
fn record_length_must_be_header_plus_packed_size() {
    let good = pattern_record(1, &[0x80]);
    assert!(XMPattern::parse(good.clone(), 1).is_ok());
    let mut short = good.clone();
    short.pop();
    assert_eq!(XMPattern::parse(short, 1).unwrap_err().kind(), XMErrorKind::Format);
    let mut long = good.clone();
    long.push(0);
    assert_eq!(XMPattern::parse(long, 1).unwrap_err().kind(), XMErrorKind::Format);
    assert_eq!(XMPattern::parse(vec![9, 0, 0, 0, 0, 1, 0, 0], 1).unwrap_err().kind(), XMErrorKind::Format);
    assert_eq!(XMPattern::parse(Vec::new(), 1).unwrap_err().kind(), XMErrorKind::Format);
}

#[test]
fn packing_type_and_row_count_are_held_to_the_format() {
    let mut packed = pattern_record(1, &[0x80]);
    packed[4] = 1;
    assert_eq!(XMPattern::parse(packed, 1).unwrap_err().kind(), XMErrorKind::Format);
    assert_eq!(XMPattern::parse(pattern_record(0, &[]), 1).unwrap_err().kind(), XMErrorKind::Format);
    assert_eq!(
        XMPattern::parse(pattern_record(257, &empty_rows(257, 1)), 1).unwrap_err().kind(),
        XMErrorKind::Format
    );
    let full = XMPattern::parse(pattern_record(256, &empty_rows(256, 1)), 1).unwrap();
    assert_eq!(full.len(), 256);
    assert_eq!(full.tracks[0].len(), 256);
    assert_eq!(full.tracks[0].note_raw(255).unwrap(), None);
}

#[test]
fn longer_header_is_skipped() {
    let mut p = Vec::new();
    p.extend_from_slice(&12u32.to_le_bytes());
    p.push(0);
    p.extend_from_slice(&1u16.to_le_bytes());
    p.extend_from_slice(&2u16.to_le_bytes());
    p.extend_from_slice(&[0xaa, 0xbb, 0xcc]);
    p.extend_from_slice(&[0x81, 0x25]);
    let ptn = XMPattern::parse(p, 1).unwrap();
    assert_eq!(ptn.tracks[0].note_raw(0).unwrap(), Some(0x25));
}

#[test]
fn pattern_without_channels_has_no_tracks() {
    let ptn = XMPattern::parse(pattern_record(4, &[]), 0).unwrap();
    assert_eq!(ptn.channel_count(), 0);
    assert_eq!(ptn.len(), 4);
    assert!(ptn.tracks.is_empty());
    assert!(XMPattern::parse(pattern_record(4, &[0x80]), 0).is_err());
}

#[test]
fn speed_commands_set_bpm_and_tempo() {
    // 4 channels, 8 rows; channel 2, row 3: F7D; channel 0, row 5: F04
    let mut cells = Vec::new();
    for row in 0..8 {
        for chan in 0..4 {
            if row == 3 && chan == 2 {
                cells.extend_from_slice(&[0x98, 0x0f, 0x7d]);
            } else if row == 5 && chan == 0 {
                cells.extend_from_slice(&[0x98, 0x0f, 0x04]);
            } else {
                cells.push(0x80);
            }
        }
    }
    let xm = XModule::parse(module_around(4, 6, 125, &pattern_record(8, &cells))).unwrap();
    let ptn = &xm.patterns[0];
    assert_eq!(ptn.bpm(&xm, 5).unwrap(), 0x7d);
    assert_eq!(ptn.tempo(&xm, 5).unwrap(), 0x04);
    assert_eq!(ptn.bpm(&xm, 2).unwrap(), 125);
    assert_eq!(ptn.bpm(&xm, 3).unwrap(), 0x7d);
    assert_eq!(ptn.bpm(&xm, 7).unwrap(), 0x7d);
    assert_eq!(ptn.tempo(&xm, 4).unwrap(), 6);
    assert_eq!(ptn.tempo(&xm, 7).unwrap(), 0x04);
    assert_eq!(ptn.bpm(&xm, 8).unwrap_err().kind(), XMErrorKind::RowOutOfRange);
    assert_eq!(ptn.tempo(&xm, 8).unwrap_err().kind(), XMErrorKind::RowOutOfRange);
    assert_eq!(ptn.tracks[0].note(8).unwrap_err().kind(), XMErrorKind::RowOutOfRange);
}

#[test]
fn last_speed_command_wins_row_by_row_then_channel_by_channel() {
    // channel 0 sets 0x30 on row 5, channel 1 sets 0x40 on row 3 and 0x50 on
    // row 5, channel 2 sets 0x60 on row 1
    let mut cells = Vec::new();
    for row in 0..6 {
        for chan in 0..3 {
            let p = match (row, chan) {
                (5, 0) => Some(0x30),
                (3, 1) => Some(0x40),
                (5, 1) => Some(0x50),
                (1, 2) => Some(0x60),
                (2, 0) => Some(0x1f),
                _ => None,
            };
            match p {
                Some(p) => cells.extend_from_slice(&[0x98, 0x0f, p]),
                None => cells.push(0x80),
            }
        }
    }
    let xm = XModule::parse(module_around(3, 6, 125, &pattern_record(6, &cells))).unwrap();
    let ptn = &xm.patterns[0];
    assert_eq!(ptn.bpm(&xm, 0).unwrap(), 125);
    assert_eq!(ptn.bpm(&xm, 1).unwrap(), 0x60);
    assert_eq!(ptn.bpm(&xm, 2).unwrap(), 0x60);
    assert_eq!(ptn.bpm(&xm, 3).unwrap(), 0x40);
    assert_eq!(ptn.bpm(&xm, 4).unwrap(), 0x40);
    assert_eq!(ptn.bpm(&xm, 5).unwrap(), 0x50);
    assert_eq!(ptn.tempo(&xm, 1).unwrap(), 6);
    assert_eq!(ptn.tempo(&xm, 2).unwrap(), 0x1f);
    assert_eq!(ptn.tempo(&xm, 5).unwrap(), 0x1f);
}

#[test]
fn speed_threshold_is_0x20() {
    let cells = [0x98, 0x0f, 0x1f, 0x98, 0x0f, 0x20, 0x88, 0x0f, 0x98, 0x0e, 0x99];
    let xm = XModule::parse(module_around(1, 6, 125, &pattern_record(4, &cells))).unwrap();
    let ptn = &xm.patterns[0];
    assert_eq!(ptn.tempo(&xm, 0).unwrap(), 0x1f);
    assert_eq!(ptn.bpm(&xm, 0).unwrap(), 125);
    assert_eq!(ptn.bpm(&xm, 1).unwrap(), 0x20);
    assert_eq!(ptn.tempo(&xm, 1).unwrap(), 0x1f);
    assert_eq!(ptn.bpm(&xm, 3).unwrap(), 0x20);
    assert_eq!(ptn.tempo(&xm, 3).unwrap(), 0x1f);
}
