//! The controller's byte protocol: what each operation of the driver puts on
//! the bus, as sequences of frames.

use vstd::prelude::*;
use crate::font::{drawable, glyph_columns, glyph_index, GLYPH_WIDTH};

verus! {

/// Control byte announcing that the payload is a command.
pub const CONTROL_COMMAND: u8 = 0x00;

/// Control byte announcing that the payload goes to display memory.
pub const CONTROL_DATA: u8 = 0x40;

/// Command that sets the first and last column of the addressing window.
pub const SET_COLUMN_RANGE: u8 = 0x21;

/// Command that sets the first and last page of the addressing window.
pub const SET_PAGE_RANGE: u8 = 0x22;

/// Pixel columns on the panel.
pub const WIDTH: u8 = 128;

/// Pages on the panel, each eight pixel rows high.
pub const PAGES: u8 = 8;

/// Bytes of display memory: one per column and page.
pub const MEMORY_SIZE: usize = 1024;

/// A column byte with every pixel dark.
pub const PIXELS_OFF: u8 = 0x00;

/// A column byte with every pixel lit.
pub const PIXELS_ON: u8 = 0xFF;

/// The commands that bring the panel up, in the order they are sent: display
/// off, multiplex ratio 63, display offset 0, start line 0, segment remap,
/// remapped COM scan direction, COM pins configuration 0x12, contrast 0x7F,
/// output follows display memory, normal (non-inverted) display, oscillator
/// frequency 0x80, charge pump on, memory addressing mode 0x01, display on.
pub const INIT_COMMANDS: [u8; 21] = [
    0xAE,
    0xA8, 0x3F,
    0xD3, 0x00,
    0x40,
    0xA1,
    0xC8,
    0xDA, 0x12,
    0x81, 0x7F,
    0xA4,
    0xA6,
    0xD5, 0x80,
    0x8D, 0x14,
    0x20, 0x01,
    0xAF,
];

/// One interaction with the controller: a control byte and a payload byte,
/// written to the bus together.
pub struct Frame {
    pub control: u8,
    pub payload: u8,
}

impl Frame {
    /// The two bytes that go on the bus.
    pub open spec fn bytes(self) -> Seq<u8> {
        seq![self.control, self.payload]
    }
}

/// The frame that carries a command byte.
pub open spec fn command(byte: u8) -> Frame {
    Frame { control: CONTROL_COMMAND, payload: byte }
}

/// The frame that carries a byte of display memory.
pub open spec fn data(byte: u8) -> Frame {
    Frame { control: CONTROL_DATA, payload: byte }
}

/// One frame per payload byte, all with the same control byte.
pub open spec fn frames(control: u8, payloads: Seq<u8>) -> Seq<Frame> {
    Seq::new(payloads.len(), |i: int| Frame { control, payload: payloads[i] })
}

/// The six commands that set the addressing window.
pub open spec fn window_frames(col_start: u8, col_end: u8, page_start: u8, page_end: u8) -> Seq<
    Frame,
> {
    frames(
        CONTROL_COMMAND,
        seq![SET_COLUMN_RANGE, col_start, col_end, SET_PAGE_RANGE, page_start, page_end],
    )
}

/// Painting the whole panel with one column pattern: the window is opened to
/// the full screen, then every byte of display memory is written.
pub open spec fn fill_frames(value: u8) -> Seq<Frame> {
    window_frames(0, 127, 0, 7) + frames(
        CONTROL_DATA,
        Seq::new(MEMORY_SIZE as nat, |i: int| value),
    )
}

/// Bringing the panel up: the initialisation commands, then a cleared screen.
pub open spec fn init_frames() -> Seq<Frame> {
    frames(CONTROL_COMMAND, INIT_COMMANDS@) + fill_frames(PIXELS_OFF)
}

/// Narrowing the window to one page and to the columns `col` to `col + span`.
pub open spec fn cursor_frames(col: u8, page: u8, span: u8) -> Seq<Frame>
    recommends
        col + span <= u8::MAX,
{
    window_frames(col, (col + span) as u8, page, page)
}

/// The five data frames of a character's glyph; nothing for a character the
/// font does not have.
pub open spec fn char_frames(c: char) -> Seq<Frame> {
    match glyph_index(c) {
        Some(index) => frames(CONTROL_DATA, glyph_columns(index)),
        None => Seq::empty(),
    }
}

/// Where on the panel the next glyph is due.
#[derive(Clone, Copy, Debug, PartialEq, Eq)]
pub struct Cursor {
    pub col: u8,
    pub page: u8,
}

/// Where a glyph due at `at` is really drawn: at `at` if it fits on the line,
/// else at the start of the next page. After the last page comes page 0.
pub open spec fn placed(at: Cursor) -> Cursor {
    if at.col + GLYPH_WIDTH > WIDTH {
        Cursor { col: 0, page: if at.page + 1 < PAGES { (at.page + 1) as u8 } else { 0 } }
    } else {
        at
    }
}

/// Finds where a glyph due at `at` is drawn.
pub fn place(at: Cursor) -> (to: Cursor)
    ensures
        to == placed(at),
        to.col <= WIDTH - GLYPH_WIDTH,
{
    if at.col > WIDTH - GLYPH_WIDTH {
        Cursor { col: 0, page: if at.page < PAGES - 1 { at.page + 1 } else { 0 } }
    } else {
        at
    }
}

/// Where the cursor stands once `c` has been drawn with the cursor at `at`.
/// A character without a glyph leaves it where it was.
pub open spec fn cursor_past(c: char, at: Cursor) -> Cursor {
    if glyph_index(c) is Some {
        Cursor { col: (placed(at).col + GLYPH_WIDTH) as u8, page: placed(at).page }
    } else {
        at
    }
}

/// Drawing `c` with the cursor at `at`: the window is set to the place of the
/// glyph, then the glyph is streamed. Nothing for a character without a glyph.
pub open spec fn cell_frames(c: char, at: Cursor) -> Seq<Frame> {
    if glyph_index(c) is Some {
        cursor_frames(placed(at).col, placed(at).page, GLYPH_WIDTH) + char_frames(c)
    } else {
        Seq::empty()
    }
}

/// Where the cursor stands once all of `text` has been drawn from `start`.
pub open spec fn cursor_after(text: Seq<char>, start: Cursor) -> Cursor
    decreases text.len(),
{
    if text.len() == 0 {
        start
    } else {
        cursor_past(text.last(), cursor_after(text.drop_last(), start))
    }
}

/// Drawing `text` from `start`, character by character.
pub open spec fn text_frames(text: Seq<char>, start: Cursor) -> Seq<Frame>
    decreases text.len(),
{
    if text.len() == 0 {
        Seq::empty()
    } else {
        text_frames(text.drop_last(), start) + cell_frames(
            text.last(),
            cursor_after(text.drop_last(), start),
        )
    }
}

/// Drawing a text in two parts is drawing the first part, then the second
/// from where the first left the cursor.
pub proof fn lemma_text_in_two_parts(first: Seq<char>, second: Seq<char>, start: Cursor)
    ensures
        cursor_after(first + second, start) == cursor_after(second, cursor_after(first, start)),
        text_frames(first + second, start) == text_frames(first, start) + text_frames(
            second,
            cursor_after(first, start),
        ),
    decreases second.len(),
{
    if second.len() > 0 {
        lemma_text_in_two_parts(first, second.drop_last(), start);
        assert((first + second).drop_last() =~= first + second.drop_last());
    }
}

/// A text is drawn as the characters before one of its positions, then the
/// character there, then the characters after it.
pub proof fn lemma_text_around(text: Seq<char>, i: int, start: Cursor)
    requires
        0 <= i < text.len(),
    ensures
        cursor_after(text.take(i + 1), start) == cursor_past(
            text[i],
            cursor_after(text.take(i), start),
        ),
        text_frames(text.take(i + 1), start) == text_frames(text.take(i), start) + cell_frames(
            text[i],
            cursor_after(text.take(i), start),
        ),
        text_frames(text, start) == text_frames(text.take(i + 1), start) + text_frames(
            text.skip(i + 1),
            cursor_after(text.take(i + 1), start),
        ),
{
    assert(text.take(i + 1).drop_last() =~= text.take(i));
    assert(text.take(i + 1) + text.skip(i + 1) =~= text);
    lemma_text_in_two_parts(text.take(i + 1), text.skip(i + 1), start);
}

/// Painting the panel takes six commands, which open the window to columns 0
/// to 127 and pages 0 to 7, and then exactly 1024 data frames, every one of
/// them carrying the pattern.
pub proof fn lemma_fill_frames(value: u8)
    ensures
        fill_frames(value).len() == 6 + MEMORY_SIZE,
        fill_frames(value).take(6) == seq![
            command(0x21),
            command(0),
            command(127),
            command(0x22),
            command(0),
            command(7),
        ],
        forall|i: int| 6 <= i < 6 + MEMORY_SIZE ==> #[trigger] fill_frames(value)[i] == data(value),
{
}

/// Bringing the panel up sends the 21 initialisation commands, each as a
/// command frame and in the order of the table, and then paints the panel dark.
pub proof fn lemma_init_frames()
    ensures
        init_frames().len() == 21 + 6 + MEMORY_SIZE,
        forall|i: int| 0 <= i < 21 ==> #[trigger] init_frames()[i] == command(INIT_COMMANDS[i]),
        init_frames().skip(21) == fill_frames(PIXELS_OFF),
{
}

/// Setting the cursor sends the column range command with `col` and
/// `col + span`, then the page range command with `page` twice.
pub proof fn lemma_cursor_frames(col: u8, page: u8, span: u8)
    requires
        col + span <= u8::MAX,
    ensures
        cursor_frames(col, page, span) == seq![
            command(0x21),
            command(col),
            command((col + span) as u8),
            command(0x22),
            command(page),
            command(page),
        ],
{
}

/// A character with a glyph is streamed as five data frames, one per column of
/// the glyph and from left to right.
pub proof fn lemma_char_frames(c: char, index: int)
    requires
        glyph_index(c) == Some(index),
    ensures
        char_frames(c).len() == GLYPH_WIDTH,
        forall|k: int| 0 <= k < GLYPH_WIDTH ==> #[trigger] char_frames(c)[k] == data(glyph_columns(index)[k]),
{
}

/// A character without a glyph puts nothing on the bus and does not move the
/// cursor, alone or at the end of a text.
pub proof fn lemma_undrawable_is_skipped(text: Seq<char>, c: char, start: Cursor)
    requires
        !drawable(c),
    ensures
        char_frames(c) == Seq::<Frame>::empty(),
        cell_frames(c, start) == Seq::<Frame>::empty(),
        cursor_past(c, start) == start,
        text_frames(text.push(c), start) == text_frames(text, start),
        cursor_after(text.push(c), start) == cursor_after(text, start),
{
    assert(text.push(c).drop_last() =~= text);
}

/// A text in which no character has a glyph, the empty text among them, puts
/// nothing on the bus and leaves the cursor where it started.
pub proof fn lemma_text_without_glyphs(text: Seq<char>, start: Cursor)
    requires
        forall|i: int| 0 <= i < text.len() ==> !drawable(#[trigger] text[i]),
    ensures
        text_frames(text, start) == Seq::<Frame>::empty(),
        cursor_after(text, start) == start,
    decreases text.len(),
{
    if text.len() > 0 {
        lemma_text_without_glyphs(text.drop_last(), start);
        lemma_undrawable_is_skipped(text.drop_last(), text.last(), start);
        assert(text.drop_last().push(text.last()) =~= text);
    }
}

/// A glyph that still fits on the line is drawn where the cursor stands, and
/// the cursor moves five columns to the right on the same page.
pub proof fn lemma_no_wrap(c: char, at: Cursor)
    requires
        drawable(c),
        at.col + GLYPH_WIDTH <= WIDTH,
    ensures
        placed(at) == at,
        cell_frames(c, at) == cursor_frames(at.col, at.page, GLYPH_WIDTH) + char_frames(c),
        cursor_past(c, at) == (Cursor { col: (at.col + GLYPH_WIDTH) as u8, page: at.page }),
{
}

/// A glyph that would end beyond the last column is drawn at column 0 of the
/// next page, and leaves the cursor at column 5 of that page.
pub proof fn lemma_wrap(c: char, at: Cursor)
    requires
        drawable(c),
        at.col + GLYPH_WIDTH > WIDTH,
        at.page + 1 < PAGES,
    ensures
        placed(at) == (Cursor { col: 0, page: (at.page + 1) as u8 }),
        cell_frames(c, at) == cursor_frames(0, (at.page + 1) as u8, GLYPH_WIDTH) + char_frames(c),
        cursor_past(c, at) == (Cursor { col: GLYPH_WIDTH, page: (at.page + 1) as u8 }),
{
}

/// On the last page, or on a page the panel does not have, a glyph that would
/// end beyond the last column is drawn at column 0 of page 0.
pub proof fn lemma_wrap_past_last_page(c: char, at: Cursor)
    requires
        drawable(c),
        at.col + GLYPH_WIDTH > WIDTH,
        at.page + 1 >= PAGES,
    ensures
        placed(at) == (Cursor { col: 0, page: 0 }),
        cell_frames(c, at) == cursor_frames(0, 0, GLYPH_WIDTH) + char_frames(c),
        cursor_past(c, at) == (Cursor { col: GLYPH_WIDTH, page: 0 }),
{
}

/// A text that starts on the panel stays on the panel: no glyph is placed on
/// a page beyond the last or so that it would end beyond the last column.
pub proof fn lemma_cursor_stays_on_panel(text: Seq<char>, start: Cursor)
    requires
        start.col <= WIDTH,
        start.page < PAGES,
    ensures
        cursor_after(text, start).col <= WIDTH,
        cursor_after(text, start).page < PAGES,
        placed(cursor_after(text, start)).col + GLYPH_WIDTH <= WIDTH,
        placed(cursor_after(text, start)).page < PAGES,
    decreases text.len(),
{
    if text.len() > 0 {
        lemma_cursor_stays_on_panel(text.drop_last(), start);
    }
}

/// A text of characters that all have a glyph, and that fits on the line it
/// starts on, is drawn without a wrap: for each character in turn the window
/// is set once, five columns further right than for the one before and on the
/// page the text started on, and then the five columns of its glyph are
/// streamed. So a text of `n` characters takes `n` window updates of six
/// commands and `5 * n` data frames, and nothing else.
pub proof fn lemma_text_on_one_line(text: Seq<char>, start: Cursor)
    requires
        forall|i: int| 0 <= i < text.len() ==> drawable(#[trigger] text[i]),
        start.col + GLYPH_WIDTH * text.len() <= WIDTH,
    ensures
        cursor_after(text, start) == (Cursor {
            col: (start.col + GLYPH_WIDTH * text.len()) as u8,
            page: start.page,
        }),
        text_frames(text, start).len() == 11 * text.len(),
        forall|i: int|
            #![trigger text[i]]
            0 <= i < text.len() ==> text_frames(text, start).subrange(11 * i, 11 * i + 11)
                == cursor_frames((start.col + GLYPH_WIDTH * i) as u8, start.page, GLYPH_WIDTH)
                + char_frames(text[i]),
    decreases text.len(),
{
    if text.len() > 0 {
        let before = text.drop_last();
        let c = text.last();
        lemma_text_on_one_line(before, start);
        lemma_no_wrap(c, cursor_after(before, start));
        lemma_char_frames(c, glyph_index(c)->0);
        assert forall|i: int| 0 <= i < text.len() implies text_frames(text, start).subrange(
            11 * i,
            11 * i + 11,
        ) == cursor_frames((start.col + GLYPH_WIDTH * i) as u8, start.page, GLYPH_WIDTH)
            + char_frames(#[trigger] text[i]) by {
            if i < before.len() {
                assert(before[i] == text[i]);
            }
        }
    }
}

} // verus!
