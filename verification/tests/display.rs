use nfp1315::font::FONT_5X8;
use nfp1315::protocol::INIT_COMMANDS;
use nfp1315::transport::Bus;
use nfp1315::{Transport, SSD1306};
use std::cell::RefCell;
use std::rc::Rc;

const ADDRESS: u8 = 0x3C;

type Log = Rc<RefCell<Vec<(u8, Vec<u8>)>>>;

/// What the failing write of a test bus reports: its position in the log.
#[derive(Debug, PartialEq, Eq)]
struct Nack(usize);

/// A bus that records every write, and refuses the write at one position.
struct Recorder {
    log: Log,
    refuse: Option<usize>,
}

impl Transport for Recorder {
    type Error = Nack;

    fn write(&mut self, address: u8, bytes: &[u8]) -> Result<(), Nack> {
        let position = self.log.borrow().len();
        self.log.borrow_mut().push((address, bytes.to_vec()));
        if self.refuse == Some(position) {
            Err(Nack(position))
        } else {
            Ok(())
        }
    }
}

fn display() -> (SSD1306<Recorder>, Log) {
    let log = Log::default();
    (SSD1306::new(Recorder { log: log.clone(), refuse: None }, ADDRESS), log)
}

fn display_refusing(position: usize) -> (SSD1306<Recorder>, Log) {
    let log = Log::default();
    (SSD1306::new(Recorder { log: log.clone(), refuse: Some(position) }, ADDRESS), log)
}

fn frames(log: &Log) -> Vec<Vec<u8>> {
    log.borrow()
        .iter()
        .map(|(address, bytes)| {
            assert_eq!(*address, ADDRESS);
            bytes.clone()
        })
        .collect()
}

fn commands(bytes: &[u8]) -> Vec<Vec<u8>> {
    bytes.iter().map(|b| vec![0x00, *b]).collect()
}

fn data(bytes: &[u8]) -> Vec<Vec<u8>> {
    bytes.iter().map(|b| vec![0x40, *b]).collect()
}

fn painted(value: u8) -> Vec<Vec<u8>> {
    let mut expected = commands(&[0x21, 0x00, 0x7F, 0x22, 0x00, 0x07]);
    expected.extend(data(&[value; 1024]));
    expected
}

fn brought_up() -> Vec<Vec<u8>> {
    let mut expected = commands(&[
        0xAE, 0xA8, 0x3F, 0xD3, 0x00, 0x40, 0xA1, 0xC8, 0xDA, 0x12, 0x81, 0x7F, 0xA4, 0xA6, 0xD5,
        0x80, 0x8D, 0x14, 0x20, 0x01, 0xAF,
    ]);
    expected.extend(painted(0x00));
    expected
}

fn cell(col: u8, page: u8, glyph: [u8; 5]) -> Vec<Vec<u8>> {
    let mut expected = commands(&[0x21, col, col + 5, 0x22, page, page]);
    expected.extend(data(&glyph));
    expected
}

const A: [u8; 5] = [0x7E, 0x11, 0x11, 0x11, 0x7E];
const B: [u8; 5] = [0x7F, 0x49, 0x49, 0x49, 0x36];
const D: [u8; 5] = [0x7F, 0x41, 0x41, 0x22, 0x1C];
const E: [u8; 5] = [0x7F, 0x49, 0x49, 0x49, 0x41];
const H: [u8; 5] = [0x7F, 0x08, 0x08, 0x08, 0x7F];
const L: [u8; 5] = [0x7F, 0x40, 0x40, 0x40, 0x40];
const O: [u8; 5] = [0x3E, 0x41, 0x41, 0x41, 0x3E];
const P: [u8; 5] = [0x7F, 0x09, 0x09, 0x09, 0x06];
const R: [u8; 5] = [0x7F, 0x09, 0x19, 0x29, 0x46];
const W: [u8; 5] = [0x7F, 0x20, 0x18, 0x20, 0x7F];
const SPACE: [u8; 5] = [0x00, 0x00, 0x00, 0x00, 0x00];
const DIGITS: [[u8; 5]; 10] = [
    [0x3E, 0x51, 0x49, 0x45, 0x3E],
    [0x00, 0x42, 0x7F, 0x40, 0x00],
    [0x62, 0x51, 0x49, 0x49, 0x46],
    [0x22, 0x41, 0x49, 0x49, 0x36],
    [0x18, 0x14, 0x12, 0x7F, 0x10],
    [0x27, 0x45, 0x45, 0x45, 0x39],
    [0x3E, 0x49, 0x49, 0x49, 0x32],
    [0x01, 0x71, 0x09, 0x05, 0x03],
    [0x36, 0x49, 0x49, 0x49, 0x36],
    [0x26, 0x49, 0x49, 0x49, 0x3E],
];

#[test]
fn a_new_driver_has_written_nothing() {
    let (_display, log) = display();
    assert!(log.borrow().is_empty());
}

#[test]
fn bus_hands_each_write_to_the_transport_as_it_is() {
    let log = Log::default();
    let mut bus = Bus::new(Recorder { log: log.clone(), refuse: Some(1) });
    assert!(log.borrow().is_empty());
    assert_eq!(bus.write(0x11, &[1, 2, 3]), Ok(()));
    assert_eq!(bus.write(0x22, &[]), Err(Nack(1)));
    assert_eq!(bus.write(0x33, &[9]), Ok(()));
    assert_eq!(
        *log.borrow(),
        vec![(0x11, vec![1, 2, 3]), (0x22, vec![]), (0x33, vec![9])]
    );
}

#[test]
fn every_command_is_one_write_of_control_zero_and_the_byte() {
    for byte in 0..=255u8 {
        let (mut display, log) = display();
        assert_eq!(display.send_command(byte), Ok(()));
        assert_eq!(*log.borrow(), vec![(ADDRESS, vec![0x00, byte])]);
    }
}

#[test]
fn every_data_byte_is_one_write_of_control_forty_and_the_byte() {
    for byte in 0..=255u8 {
        let (mut display, log) = display();
        assert_eq!(display.send_data(byte), Ok(()));
        assert_eq!(*log.borrow(), vec![(ADDRESS, vec![0x40, byte])]);
    }
}

#[test]
fn writes_go_to_the_address_given_at_construction() {
    for address in [0x00, 0x3C, 0x3D, 0x7F, 0xFF] {
        let log = Log::default();
        let mut display = SSD1306::new(Recorder { log: log.clone(), refuse: None }, address);
        assert_eq!(display.send_command(0xAF), Ok(()));
        assert_eq!(display.send_data(0x01), Ok(()));
        assert_eq!(display.set_cursor(1, 2, 3), Ok(()));
        assert_eq!(log.borrow().len(), 8);
        assert!(log.borrow().iter().all(|(to, _)| *to == address));
    }
}

#[test]
fn a_refused_command_returns_the_error_of_the_transport() {
    let (mut display, log) = display_refusing(0);
    assert_eq!(display.send_command(0xAE), Err(Nack(0)));
    assert_eq!(frames(&log), commands(&[0xAE]));
    assert_eq!(display.send_data(0x12), Ok(()));
    assert_eq!(frames(&log), vec![vec![0x00, 0xAE], vec![0x40, 0x12]]);
}

#[test]
fn a_refused_data_byte_returns_the_error_of_the_transport() {
    let (mut display, log) = display_refusing(1);
    assert_eq!(display.send_data(0x01), Ok(()));
    assert_eq!(display.send_data(0x02), Err(Nack(1)));
    assert_eq!(frames(&log), data(&[0x01, 0x02]));
}

#[test]
fn init_display_sends_the_golden_sequence() {
    let (mut display, log) = display();
    assert_eq!(display.init_display(), Ok(()));
    let sent = frames(&log);
    assert_eq!(sent.len(), 21 + 6 + 1024);
    assert_eq!(sent, brought_up());
    assert_eq!(sent[..21], commands(&INIT_COMMANDS)[..]);
    assert_eq!(sent[0], vec![0x00, 0xAE]);
    assert_eq!(sent[20], vec![0x00, 0xAF]);
}

#[test]
fn init_display_is_the_same_every_time() {
    let (mut first, first_log) = display();
    let (mut second, second_log) = display();
    assert_eq!(first.init_display(), Ok(()));
    assert_eq!(second.init_display(), Ok(()));
    assert_eq!(second.init_display(), Ok(()));
    assert_eq!(frames(&second_log)[..1051], frames(&first_log)[..]);
    assert_eq!(frames(&second_log)[1051..], frames(&first_log)[..]);
}

#[test]
fn init_display_stops_at_the_first_refused_write() {
    let golden = brought_up();
    for position in [0, 1, 5, 19, 20, 21, 26, 27, 500, 1049, 1050] {
        let (mut display, log) = display_refusing(position);
        assert_eq!(display.init_display(), Err(Nack(position)));
        assert_eq!(frames(&log), golden[..=position]);
    }
    let (mut display, log) = display_refusing(1051);
    assert_eq!(display.init_display(), Ok(()));
    assert_eq!(frames(&log), golden);
}

#[test]
fn clear_writes_1024_dark_bytes() {
    let (mut display, log) = display();
    assert_eq!(display.clear(), Ok(()));
    let sent = frames(&log);
    assert_eq!(sent, painted(0x00));
    assert_eq!(sent[6..].len(), 1024);
    assert!(sent[6..].iter().all(|frame| *frame == vec![0x40, 0x00]));
}

#[test]
fn fill_writes_1024_lit_bytes() {
    let (mut display, log) = display();
    assert_eq!(display.fill(), Ok(()));
    let sent = frames(&log);
    assert_eq!(sent, painted(0xFF));
    assert_eq!(sent[6..].len(), 1024);
    assert!(sent[6..].iter().all(|frame| *frame == vec![0x40, 0xFF]));
}

#[test]
fn clear_then_fill() {
    let (mut display, log) = display();
    assert_eq!(display.clear(), Ok(()));
    assert_eq!(display.fill(), Ok(()));
    let sent = frames(&log);
    assert_eq!(sent.len(), 2 * 1030);
    assert_eq!(sent[..1030], painted(0x00)[..]);
    assert_eq!(sent[1030..], painted(0xFF)[..]);
}

#[test]
fn fill_screen_with_value_paints_any_pattern() {
    for value in [0x00, 0x01, 0x55, 0xAA, 0x80, 0xFF] {
        let (mut display, log) = display();
        assert_eq!(display.fill_screen_with_value(value), Ok(()));
        assert_eq!(frames(&log), painted(value));
    }
}

#[test]
fn fill_opens_the_window_to_the_full_screen_first() {
    let (mut display, log) = display();
    assert_eq!(display.fill(), Ok(()));
    assert_eq!(
        frames(&log)[..6],
        [
            vec![0x00, 0x21],
            vec![0x00, 0],
            vec![0x00, 127],
            vec![0x00, 0x22],
            vec![0x00, 0],
            vec![0x00, 7]
        ]
    );
}

#[test]
fn fill_stops_at_the_first_refused_write() {
    for position in [0, 3, 5, 6, 7, 600, 1028, 1029] {
        let (mut display, log) = display_refusing(position);
        assert_eq!(display.fill(), Err(Nack(position)));
        assert_eq!(frames(&log), painted(0xFF)[..=position]);
    }
    for position in [0, 6, 1029] {
        let (mut display, log) = display_refusing(position);
        assert_eq!(display.clear(), Err(Nack(position)));
        assert_eq!(frames(&log), painted(0x00)[..=position]);
    }
}

#[test]
fn set_cursor_narrows_the_window() {
    let (mut display, log) = display();
    assert_eq!(display.set_cursor(10, 2, 5), Ok(()));
    assert_eq!(frames(&log), commands(&[0x21, 10, 15, 0x22, 2, 2]));
}

#[test]
fn set_cursor_at_the_edges() {
    let (mut display, log) = display();
    assert_eq!(display.set_cursor(0, 0, 0), Ok(()));
    assert_eq!(display.set_cursor(123, 7, 5), Ok(()));
    assert_eq!(display.set_cursor(250, 255, 5), Ok(()));
    let mut expected = commands(&[0x21, 0, 0, 0x22, 0, 0]);
    expected.extend(commands(&[0x21, 123, 128, 0x22, 7, 7]));
    expected.extend(commands(&[0x21, 250, 255, 0x22, 255, 255]));
    assert_eq!(frames(&log), expected);
}

#[test]
fn set_cursor_stops_at_the_first_refused_write() {
    for position in 0..6 {
        let (mut display, log) = display_refusing(position);
        assert_eq!(display.set_cursor(10, 2, 5), Err(Nack(position)));
        assert_eq!(frames(&log), commands(&[0x21, 10, 15, 0x22, 2, 2])[..=position]);
    }
}

#[test]
fn write_char_streams_the_five_columns_of_the_glyph() {
    let (mut display, log) = display();
    assert_eq!(display.write_char('A'), Ok(()));
    assert_eq!(frames(&log), data(&A));
    assert_eq!(display.write_char('7'), Ok(()));
    assert_eq!(frames(&log)[5..], data(&DIGITS[7])[..]);
    assert_eq!(display.write_char(' '), Ok(()));
    assert_eq!(frames(&log)[10..], data(&SPACE)[..]);
}

#[test]
fn write_char_draws_every_glyph_of_the_font() {
    let text = " ABCDEFGHIJKLMNOPQRSTUVWXYZ0123456789";
    for (index, c) in text.chars().enumerate() {
        let (mut display, log) = display();
        assert_eq!(display.write_char(c), Ok(()));
        assert_eq!(frames(&log), data(&FONT_5X8[index]), "{}", c);
    }
}

#[test]
fn write_char_ignores_case() {
    for c in 'a'..='z' {
        let (mut lower, lower_log) = display();
        let (mut upper, upper_log) = display();
        assert_eq!(lower.write_char(c), Ok(()));
        assert_eq!(upper.write_char(c.to_ascii_uppercase()), Ok(()));
        assert_eq!(frames(&lower_log), frames(&upper_log));
        assert_eq!(frames(&lower_log).len(), 5);
    }
}

#[test]
fn write_char_writes_nothing_for_a_character_without_glyph() {
    let (mut display, log) = display_refusing(0);
    for c in ['!', '-', '.', '\n', 'é', '🙂', '[', '`'] {
        assert_eq!(display.write_char(c), Ok(()));
    }
    assert!(log.borrow().is_empty());
}

#[test]
fn write_char_stops_at_the_first_refused_write() {
    for position in 0..5 {
        let (mut display, log) = display_refusing(position);
        assert_eq!(display.write_char('B'), Err(Nack(position)));
        assert_eq!(frames(&log), data(&B)[..=position]);
    }
}

#[test]
fn hello_world_on_the_first_line() {
    let (mut display, log) = display();
    assert_eq!(display.clear(), Ok(()));
    log.borrow_mut().clear();
    assert_eq!(display.draw_text("HELLO WORLD", 0, 0), Ok(()));
    let glyphs = [H, E, L, L, O, SPACE, W, O, R, L, D];
    let mut expected = Vec::new();
    for (i, glyph) in glyphs.iter().enumerate() {
        expected.extend(cell(5 * i as u8, 0, *glyph));
    }
    let sent = frames(&log);
    assert_eq!(sent, expected);
    assert_eq!(sent.len(), 11 * 11);
    assert_eq!(sent[..6], commands(&[0x21, 0, 5, 0x22, 0, 0])[..]);
    assert_eq!(sent[5 * 11..5 * 11 + 6], commands(&[0x21, 25, 30, 0x22, 0, 0])[..]);
    assert_eq!(sent[5 * 11 + 6..6 * 11], data(&[0, 0, 0, 0, 0])[..]);
    for window in sent.chunks(11) {
        assert_eq!(window[4], vec![0x00, 0]);
        assert_eq!(window[5], vec![0x00, 0]);
    }
}

#[test]
fn warped_text_wraps_once() {
    let (mut display, log) = display();
    assert_eq!(display.draw_text("WARPED 0123456789", 80, 3), Ok(()));
    let line = [W, A, R, P, E, D, SPACE, DIGITS[0], DIGITS[1]];
    let mut expected = Vec::new();
    for (i, glyph) in line.iter().enumerate() {
        expected.extend(cell(80 + 5 * i as u8, 3, *glyph));
    }
    for (i, glyph) in DIGITS[2..].iter().enumerate() {
        expected.extend(cell(5 * i as u8, 4, *glyph));
    }
    let sent = frames(&log);
    assert_eq!(sent, expected);
    assert_eq!(sent.len(), 17 * 11);
    let places: Vec<(u8, u8)> = sent.chunks(11).map(|cell| (cell[1][1], cell[4][1])).collect();
    assert_eq!(
        places,
        vec![
            (80, 3),
            (85, 3),
            (90, 3),
            (95, 3),
            (100, 3),
            (105, 3),
            (110, 3),
            (115, 3),
            (120, 3),
            (0, 4),
            (5, 4),
            (10, 4),
            (15, 4),
            (20, 4),
            (25, 4),
            (30, 4),
            (35, 4)
        ]
    );
    let wraps = places.windows(2).filter(|pair| pair[1].1 != pair[0].1).count();
    assert_eq!(wraps, 1);
}

#[test]
fn text_that_fits_takes_one_window_and_five_bytes_per_character() {
    for (text, start) in [("ABC", 0u8), ("ABC", 113), ("0", 123), ("HELLO WORLD 0123456789 AB", 3)] {
        let (mut display, log) = display();
        assert_eq!(display.draw_text(text, start, 5), Ok(()));
        let sent = frames(&log);
        let count = text.chars().count();
        assert!(start as usize + 5 * count <= 128);
        assert_eq!(sent.iter().filter(|frame| frame[0] == 0x00).count(), 6 * count);
        assert_eq!(sent.iter().filter(|frame| frame[0] == 0x40).count(), 5 * count);
        assert_eq!(sent.len(), 11 * count);
        for (i, cell) in sent.chunks(11).enumerate() {
            let col = start + 5 * i as u8;
            assert_eq!(cell[..6], commands(&[0x21, col, col + 5, 0x22, 5, 5])[..]);
        }
    }
}

#[test]
fn text_ending_at_the_last_column_does_not_wrap() {
    let (mut display, log) = display();
    assert_eq!(display.draw_text("AB", 118, 1), Ok(()));
    let mut expected = cell(118, 1, A);
    expected.extend(cell(123, 1, B));
    assert_eq!(frames(&log), expected);
}

#[test]
fn a_glyph_that_would_cross_the_edge_goes_to_the_next_page() {
    for start in [124u8, 125, 127] {
        let (mut display, log) = display();
        assert_eq!(display.draw_text("A", start, 2), Ok(()));
        assert_eq!(frames(&log), cell(0, 3, A));
    }
    let (mut display, log) = display();
    assert_eq!(display.draw_text("AB", 123, 2), Ok(()));
    let mut expected = cell(123, 2, A);
    expected.extend(cell(0, 3, B));
    assert_eq!(frames(&log), expected);
}

#[test]
fn a_full_line_holds_twenty_five_glyphs() {
    let (mut display, log) = display();
    let text = "ABCDEFGHIJKLMNOPQRSTUVWXYZ";
    assert_eq!(display.draw_text(text, 0, 0), Ok(()));
    let sent = frames(&log);
    let places: Vec<(u8, u8)> = sent.chunks(11).map(|cell| (cell[1][1], cell[4][1])).collect();
    assert_eq!(places.len(), 26);
    for (i, place) in places[..25].iter().enumerate() {
        assert_eq!(*place, (5 * i as u8, 0));
    }
    assert_eq!(places[25], (0, 1));
}

#[test]
fn text_past_the_last_page_goes_on_at_page_zero() {
    let (mut display, log) = display();
    assert_eq!(display.draw_text("AB", 124, 7), Ok(()));
    let mut expected = cell(0, 0, A);
    expected.extend(cell(5, 0, B));
    assert_eq!(frames(&log), expected);
}

#[test]
fn characters_without_glyph_are_passed_over() {
    let (mut plain, plain_log) = display();
    let (mut noisy, noisy_log) = display();
    assert_eq!(plain.draw_text("AB", 10, 1), Ok(()));
    assert_eq!(noisy.draw_text("!A-é.B?", 10, 1), Ok(()));
    assert_eq!(frames(&noisy_log), frames(&plain_log));
    let mut expected = cell(10, 1, A);
    expected.extend(cell(15, 1, B));
    assert_eq!(frames(&plain_log), expected);
}

#[test]
fn characters_without_glyph_do_not_cause_a_wrap() {
    let (mut display, log) = display();
    assert_eq!(display.draw_text("A#######", 123, 0), Ok(()));
    assert_eq!(frames(&log), cell(123, 0, A));
}

#[test]
fn text_without_any_glyph_writes_nothing() {
    let (mut display, log) = display_refusing(0);
    assert_eq!(display.draw_text("", 0, 0), Ok(()));
    assert_eq!(display.draw_text("!?-_.,", 0, 0), Ok(()));
    assert_eq!(display.draw_text("\u{e9}\u{1F642}", 127, 7), Ok(()));
    assert!(log.borrow().is_empty());
}

#[test]
fn lowercase_text_is_drawn_in_capitals() {
    let (mut lower, lower_log) = display();
    let (mut upper, upper_log) = display();
    assert_eq!(lower.draw_text("Hello World", 0, 0), Ok(()));
    assert_eq!(upper.draw_text("HELLO WORLD", 0, 0), Ok(()));
    assert_eq!(frames(&lower_log), frames(&upper_log));
}

#[test]
fn draw_text_stops_at_the_first_refused_write() {
    let mut golden = cell(120, 6, H);
    golden.extend(cell(0, 7, DIGITS[1]));
    golden.extend(cell(5, 7, SPACE));
    let (mut display, log) = display();
    assert_eq!(display.draw_text("h1 ", 120, 6), Ok(()));
    assert_eq!(frames(&log), golden);
    for position in 0..golden.len() {
        let (mut display, log) = display_refusing(position);
        assert_eq!(display.draw_text("h1 ", 120, 6), Err(Nack(position)));
        assert_eq!(frames(&log), golden[..=position]);
    }
}

#[test]
fn the_driver_goes_on_after_a_refused_write() {
    let (mut display, log) = display_refusing(2);
    assert_eq!(display.draw_text("A", 0, 0), Err(Nack(2)));
    assert_eq!(display.draw_text("A", 0, 0), Ok(()));
    let mut expected = cell(0, 0, A)[..3].to_vec();
    expected.extend(cell(0, 0, A));
    assert_eq!(frames(&log), expected);
}

#[test]
fn every_write_is_two_bytes_long() {
    let (mut display, log) = display();
    assert_eq!(display.init_display(), Ok(()));
    assert_eq!(display.draw_text("WARPED 0123456789", 80, 3), Ok(()));
    assert_eq!(display.fill(), Ok(()));
    assert!(log
        .borrow()
        .iter()
        .all(|(address, bytes)| *address == ADDRESS
            && bytes.len() == 2
            && (bytes[0] == 0x00 || bytes[0] == 0x40)));
}
