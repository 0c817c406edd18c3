use gol::{GOLFileError, RGBA, Settings, StartingView};

const FIRST_T_SIZE: u16 = 5;
const SECOND_T_SIZE: u16 = 50;
const THIRD_T_SIZE: u16 = 500;

/// Writes a default board resized to `size` by `size`, then reads it back.
fn write_read(size: u16) {
    let bytes = {
        let mut settings = Settings::default();
        settings.resize_grid(size, size);
        settings.to_be_bytes()
    };
    assert_eq!(bytes.len(), 36 + size as usize * size as usize);
    let settings = Settings::from_be_bytes(&bytes).unwrap();
    assert_eq!(settings.squares_x(), size);
    assert_eq!(settings.squares_y(), size);
}

#[test]
fn create_write_read_1tier() {
    write_read(FIRST_T_SIZE);
}

#[test]
fn create_write_read_2tier() {
    write_read(SECOND_T_SIZE);
}

#[test]
fn create_write_read_3tier() {
    write_read(THIRD_T_SIZE);
}

/// The prelude of a valid 3 by 2 board, rate 2.0, background color 1 2 3 4,
/// off color 5 6 7 8, on color 9 10 11 12.
fn prelude_3x2() -> Vec<u8> {
    vec![
        0x67, 0x6F, 0x6C, 0x21, // gol!
        0x00, 0x03, 0x00, 0x02, // 3 by 2
        0x40, 0x00, 0x00, 0x00, // 2.0
        1, 2, 3, 4, // background
        0x00, 0x00, 0x00, 0x00, 0x00, // fit grid to screen
        5, 6, 7, 8, // off
        9, 10, 11, 12, // on
        0x00, 0x5C, 0x67, 0x6F, 0x6C, 0x21, 0x2F, // terminator
    ]
}

fn file_3x2() -> Vec<u8> {
    let mut bytes = prelude_3x2();
    bytes.extend_from_slice(&[1, 0, 0x7F, 0, 0xFF, 0]);
    bytes
}

fn is_not_valid(r: Result<Settings, GOLFileError>) -> bool {
    matches!(r, Err(GOLFileError::NotValidFile))
}

fn is_cut_short(r: Result<Settings, GOLFileError>) -> bool {
    matches!(r, Err(GOLFileError::UnexpectedEndOfBytes))
}

#[test]
fn default_board_encodes_to_61_bytes() {
    let bytes = Settings::default().to_be_bytes();
    assert_eq!(bytes.len(), 61);
    assert_eq!(&bytes[0..8], &[0x67, 0x6F, 0x6C, 0x21, 0x00, 0x05, 0x00, 0x05]);
    assert_eq!(&bytes[8..12], &[0x40, 0x00, 0x00, 0x00]);
    assert_eq!(&bytes[12..16], &[4, 4, 4, 255]);
    assert_eq!(&bytes[16..21], &[0, 0, 0, 0, 0]);
    assert_eq!(&bytes[21..25], &[105, 105, 105, 255]);
    assert_eq!(&bytes[25..29], &[211, 211, 211, 255]);
    assert_eq!(&bytes[29..36], b"\0\\gol!/");
    assert!(bytes[36..].iter().all(|b| *b == 0));

    let back = Settings::from_be_bytes(&bytes).unwrap();
    assert_eq!(back.squares_x(), 5);
    assert_eq!(back.squares_y(), 5);
    for row in 0..5 {
        for column in 0..5 {
            assert!(!back.square(row, column));
        }
    }
}

#[test]
fn resized_board_encodes_to_2536_zeroed_cells() {
    let mut settings = Settings::default();
    settings.resize_grid(50, 50);
    let bytes = settings.to_be_bytes();
    assert_eq!(bytes.len(), 2536);
    assert_eq!(&bytes[4..8], &[0x00, 0x32, 0x00, 0x32]);
    assert!(bytes[36..].iter().all(|b| *b == 0x00));
}

#[test]
fn decode_reads_every_field() {
    let settings = Settings::from_be_bytes(&file_3x2()).unwrap();
    assert_eq!(settings.squares_x(), 3);
    assert_eq!(settings.squares_y(), 2);
    assert_eq!(f32::from_bits(settings.updates_sec()), 2.0);
    assert_eq!(settings.background_color(), RGBA { r: 1, g: 2, b: 3, a: 4 });
    assert_eq!(settings.sqcolor_off(), RGBA { r: 5, g: 6, b: 7, a: 8 });
    assert_eq!(settings.sqcolor_on(), RGBA { r: 9, g: 10, b: 11, a: 12 });
    assert_eq!(settings.starting_view(), StartingView::FitGridToScreen);
    // Row major: row 0 is 1 0 7F, row 1 is 0 FF 0.
    assert!(settings.square(0, 0));
    assert!(!settings.square(0, 1));
    assert!(settings.square(0, 2));
    assert!(!settings.square(1, 0));
    assert!(settings.square(1, 1));
    assert!(!settings.square(1, 2));
}

#[test]
fn encode_writes_cells_as_zero_or_one() {
    let settings = Settings::from_be_bytes(&file_3x2()).unwrap();
    let bytes = settings.to_be_bytes();
    assert_eq!(&bytes[..36], &prelude_3x2()[..]);
    assert_eq!(&bytes[36..], &[1, 0, 1, 0, 1, 0]);
}

#[test]
fn round_trip_keeps_every_field() {
    let mut settings = Settings::from_be_bytes(&file_3x2()).unwrap();
    settings.set_updates_sec(0.5f32.to_bits());
    settings.set_starting_view(StartingView::Center(1.5f32.to_bits()));
    settings.set_background_color(RGBA { r: 10, g: 20, b: 30, a: 40 });
    settings.set_sqcolor_off(RGBA { r: 0, g: 0, b: 0, a: 0 });
    settings.set_sqcolor_on(RGBA { r: 255, g: 255, b: 255, a: 255 });
    let bytes = settings.to_be_bytes();
    assert_eq!(&bytes[16..21], &[0x01, 0x3F, 0xC0, 0x00, 0x00]);
    let back = Settings::from_be_bytes(&bytes).unwrap();
    assert_eq!(back.squares_x(), 3);
    assert_eq!(back.squares_y(), 2);
    assert_eq!(f32::from_bits(back.updates_sec()), 0.5);
    assert_eq!(back.starting_view(), StartingView::Center(1.5f32.to_bits()));
    assert_eq!(back.background_color(), RGBA { r: 10, g: 20, b: 30, a: 40 });
    assert_eq!(back.sqcolor_off(), RGBA { r: 0, g: 0, b: 0, a: 0 });
    assert_eq!(back.sqcolor_on(), RGBA { r: 255, g: 255, b: 255, a: 255 });
    for row in 0..2 {
        for column in 0..3 {
            assert_eq!(back.square(row, column), settings.square(row, column));
        }
    }
    assert_eq!(back.to_be_bytes(), bytes);
}

#[test]
fn bad_magic_is_not_valid() {
    for at in 0..4 {
        let mut bytes = file_3x2();
        bytes[at] ^= 0x01;
        assert!(is_not_valid(Settings::from_be_bytes(&bytes)));
    }
    assert!(is_not_valid(Settings::from_be_bytes(b"GOL!")));
    assert!(is_not_valid(Settings::from_be_bytes(b"nope, not a board at all")));
}

#[test]
fn zero_width_is_not_valid() {
    let mut bytes = file_3x2();
    bytes[5] = 0;
    assert!(is_not_valid(Settings::from_be_bytes(&bytes)));
}

#[test]
fn zero_height_is_not_valid() {
    let mut bytes = file_3x2();
    bytes[7] = 0;
    assert!(is_not_valid(Settings::from_be_bytes(&bytes)));
}

#[test]
fn zero_rate_is_not_valid() {
    let mut bytes = file_3x2();
    bytes[8..12].copy_from_slice(&0.0f32.to_be_bytes());
    assert!(is_not_valid(Settings::from_be_bytes(&bytes)));
    bytes[8..12].copy_from_slice(&(-0.0f32).to_be_bytes());
    assert!(is_not_valid(Settings::from_be_bytes(&bytes)));
}

#[test]
fn unknown_view_tag_is_not_valid() {
    let mut bytes = file_3x2();
    bytes[16] = 2;
    assert!(is_not_valid(Settings::from_be_bytes(&bytes)));
}

#[test]
fn fit_view_payload_is_ignored() {
    let mut bytes = file_3x2();
    bytes[17..21].copy_from_slice(&[9, 9, 9, 9]);
    let settings = Settings::from_be_bytes(&bytes).unwrap();
    assert_eq!(settings.starting_view(), StartingView::FitGridToScreen);
}

#[test]
fn any_changed_terminator_byte_is_not_valid() {
    for at in 29..36 {
        let mut bytes = file_3x2();
        bytes[at] ^= 0x40;
        assert!(is_not_valid(Settings::from_be_bytes(&bytes)));
    }
}

#[test]
fn short_prelude_is_cut_short() {
    let bytes = file_3x2();
    assert!(is_cut_short(Settings::from_be_bytes(&bytes[..35])));
    assert!(is_cut_short(Settings::from_be_bytes(&bytes[..4])));
    assert!(is_cut_short(Settings::from_be_bytes(&bytes[..2])));
    assert!(is_cut_short(Settings::from_be_bytes(&[])));
}

#[test]
fn missing_cells_are_cut_short() {
    let bytes = file_3x2();
    for len in 36..42 {
        assert!(is_cut_short(Settings::from_be_bytes(&bytes[..len])));
    }
}

#[test]
fn extra_cells_are_cut_short() {
    let mut bytes = file_3x2();
    bytes.push(0);
    assert!(is_cut_short(Settings::from_be_bytes(&bytes)));
}

#[test]
fn bad_magic_comes_before_short_prelude() {
    assert!(is_not_valid(Settings::from_be_bytes(b"abcd")));
}
