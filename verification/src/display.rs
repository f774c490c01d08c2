//! The display controller driver.

use vstd::prelude::*;
use crate::delivery::{
    delivered, lemma_delivered_cut_short, lemma_delivered_nothing, lemma_delivered_one,
    lemma_delivered_then,
};
use crate::font::{classify, glyph, glyph_index, GLYPH_WIDTH};
use crate::protocol::{
    cell_frames, char_frames, cursor_after, cursor_frames, cursor_past, fill_frames, frames,
    init_frames, lemma_text_around, place, text_frames, window_frames, Cursor, Frame,
    CONTROL_COMMAND, CONTROL_DATA, INIT_COMMANDS, MEMORY_SIZE, PAGES, PIXELS_OFF, PIXELS_ON,
    SET_COLUMN_RANGE, SET_PAGE_RANGE, WIDTH,
};
use crate::transport::{failure_of, Bus, BusWrite, Transport};

verus! {

/// An SSD1306 display controller behind a bus.
///
/// The driver keeps no copy of what the panel shows or of where its cursor
/// stands: every operation that writes pixels first tells the controller where.
pub struct SSD1306<T: Transport> {
    bus: Bus<T>,
    address: u8,
}

impl<T: Transport> SSD1306<T> {
    /// The bus address of the controller.
    pub closed spec fn address(&self) -> u8 {
        self.address
    }

    /// The transport the driver owns, as it is now.
    pub closed spec fn transport(&self) -> T {
        self.bus.transport()
    }

    /// Every write this driver has made on its bus, oldest first.
    pub closed spec fn history(&self) -> Seq<BusWrite<T::Error>> {
        self.bus.history()
    }

    /// An attempt to send `script` took the driver from `before` to `self` and
    /// ended in `result`: the address is unchanged, and the record of the bus
    /// has grown as [`delivered`] says.
    pub open spec fn sent(&self, before: &Self, script: Seq<Frame>, result: Result<(), T::Error>) -> bool {
        &&& self.address() == before.address()
        &&& delivered(before.history(), self.history(), before.address(), script, result)
    }

    /// Makes a driver for the controller at `address` out of a transport.
    /// Nothing is written to the bus.
    pub fn new(transport: T, address: u8) -> (display: Self)
        ensures
            display.transport() == transport,
            display.address() == address,
            display.history() == Seq::<BusWrite<T::Error>>::empty(),
    {
        SSD1306 { bus: Bus::new(transport), address }
    }

    /// Writes one frame to the controller.
    fn send_frame(&mut self, control: u8, payload: u8) -> (r: Result<(), T::Error>)
        ensures
            final(self).address() == old(self).address(),
            final(self).history() == old(self).history().push(
                BusWrite {
                    address: old(self).address(),
                    bytes: seq![control, payload],
                    failure: failure_of(r),
                },
            ),
            final(self).sent(old(self), seq![Frame { control, payload }], r),
            exists|transport: &mut T, bytes: &[u8]|
                *transport == old(self).transport()
                    && *final(transport) == final(self).transport()
                    && bytes@ == seq![control, payload]
                    && call_ensures(T::write, (transport, old(self).address(), bytes), r),
    {
        let frame: [u8; 2] = [control, payload];
        let r = self.bus.write(self.address, &frame);
        proof {
            lemma_delivered_one(
                old(self).history(),
                self.history(),
                self.address(),
                Frame { control, payload },
                r,
            );
        }
        r
    }

    /// Sends a command byte: one write of the two bytes `[0x00, command]`. The
    /// answer of the transport is returned as it came.
    pub fn send_command(&mut self, command: u8) -> (r: Result<(), T::Error>)
        ensures
            final(self).address() == old(self).address(),
            final(self).history() == old(self).history().push(
                BusWrite {
                    address: old(self).address(),
                    bytes: seq![0x00u8, command],
                    failure: failure_of(r),
                },
            ),
            exists|transport: &mut T, bytes: &[u8]|
                *transport == old(self).transport()
                    && *final(transport) == final(self).transport()
                    && bytes@ == seq![0x00u8, command]
                    && call_ensures(T::write, (transport, old(self).address(), bytes), r),
    {
        self.send_frame(CONTROL_COMMAND, command)
    }

    /// Sends a byte of display memory: one write of the two bytes
    /// `[0x40, data]`. The answer of the transport is returned as it came.
    pub fn send_data(&mut self, data: u8) -> (r: Result<(), T::Error>)
        ensures
            final(self).address() == old(self).address(),
            final(self).history() == old(self).history().push(
                BusWrite {
                    address: old(self).address(),
                    bytes: seq![0x40u8, data],
                    failure: failure_of(r),
                },
            ),
            exists|transport: &mut T, bytes: &[u8]|
                *transport == old(self).transport()
                    && *final(transport) == final(self).transport()
                    && bytes@ == seq![0x40u8, data]
                    && call_ensures(T::write, (transport, old(self).address(), bytes), r),
    {
        self.send_frame(CONTROL_DATA, data)
    }

    /// Sends one frame per payload byte, in order, and stops at the first
    /// write that fails.
    fn send_each(&mut self, control: u8, payloads: &[u8]) -> (r: Result<(), T::Error>)
        ensures
            final(self).sent(old(self), frames(control, payloads@), r),
    {
        let ghost script = frames(control, payloads@);
        let mut i: usize = 0;
        proof {
            lemma_delivered_nothing(
                old(self).history(),
                self.history(),
                self.address(),
                Ok::<(), T::Error>(()),
            );
        }
        while i < payloads.len()
            invariant
                i <= payloads.len(),
                script == frames(control, payloads@),
                self.sent(old(self), script.take(i as int), Ok(())),
            decreases payloads.len() - i,
        {
            let ghost here = self.history();
            let r = self.send_frame(control, payloads[i]);
            proof {
                assert(script.take(i as int) + seq![Frame { control, payload: payloads[i as int] }]
                    =~= script.take(i + 1));
                lemma_delivered_then(
                    old(self).history(),
                    here,
                    self.history(),
                    self.address(),
                    script.take(i as int),
                    seq![Frame { control, payload: payloads[i as int] }],
                    r,
                );
            }
            match r {
                Ok(_) => {},
                Err(error) => {
                    proof {
                        lemma_delivered_cut_short(
                            old(self).history(),
                            self.history(),
                            self.address(),
                            script.take(i + 1),
                            script.skip(i + 1),
                            error,
                        );
                    }
                    return Err(error);
                },
            }
            i += 1;
        }
        assert(script.take(i as int) =~= script);
        Ok(())
    }

    /// Sets the addressing window: the column range command with its two
    /// bounds, then the page range command with its two bounds.
    fn set_addressing_window(
        &mut self,
        col_start: u8,
        col_end: u8,
        page_start: u8,
        page_end: u8,
    ) -> (r: Result<(), T::Error>)
        ensures
            final(self).sent(old(self), window_frames(col_start, col_end, page_start, page_end), r),
    {
        let window: [u8; 6] = [
            SET_COLUMN_RANGE,
            col_start,
            col_end,
            SET_PAGE_RANGE,
            page_start,
            page_end,
        ];
        self.send_each(CONTROL_COMMAND, &window)
    }

    /// Paints the whole panel with one column pattern: sets the addressing
    /// window to the full screen, then writes `value` to every byte of display
    /// memory. Stops at the first write that fails; what was painted stays.
    pub fn fill_screen_with_value(&mut self, value: u8) -> (r: Result<(), T::Error>)
        ensures
            final(self).sent(old(self), fill_frames(value), r),
    {
        let ghost pattern = Seq::new(MEMORY_SIZE as nat, |i: int| value);
        let ghost painting = frames(CONTROL_DATA, pattern);
        match self.set_addressing_window(0, WIDTH - 1, 0, PAGES - 1) {
            Ok(_) => {},
            Err(error) => {
                proof {
                    lemma_delivered_cut_short(
                        old(self).history(),
                        self.history(),
                        self.address(),
                        window_frames(0, 127, 0, 7),
                        painting,
                        error,
                    );
                }
                return Err(error);
            },
        }
        let ghost opened = self.history();
        let mut written: usize = 0;
        proof {
            lemma_delivered_nothing(opened, opened, self.address(), Ok::<(), T::Error>(()));
        }
        while written < MEMORY_SIZE
            invariant
                written <= MEMORY_SIZE,
                painting == frames(CONTROL_DATA, Seq::new(MEMORY_SIZE as nat, |i: int| value)),
                self.address() == old(self).address(),
                delivered(
                    old(self).history(),
                    opened,
                    self.address(),
                    window_frames(0, 127, 0, 7),
                    Ok(()),
                ),
                delivered(opened, self.history(), self.address(), painting.take(written as int), Ok(())),
            decreases MEMORY_SIZE - written,
        {
            let ghost here = self.history();
            let r = self.send_frame(CONTROL_DATA, value);
            proof {
                assert(painting.take(written as int) + seq![Frame { control: CONTROL_DATA, payload: value }]
                    =~= painting.take(written + 1));
                lemma_delivered_then(
                    opened,
                    here,
                    self.history(),
                    self.address(),
                    painting.take(written as int),
                    seq![Frame { control: CONTROL_DATA, payload: value }],
                    r,
                );
            }
            match r {
                Ok(_) => {},
                Err(error) => {
                    proof {
                        lemma_delivered_cut_short(
                            opened,
                            self.history(),
                            self.address(),
                            painting.take(written + 1),
                            painting.skip(written + 1),
                            error,
                        );
                        lemma_delivered_then(
                            old(self).history(),
                            opened,
                            self.history(),
                            self.address(),
                            window_frames(0, 127, 0, 7),
                            painting,
                            r,
                        );
                    }
                    return Err(error);
                },
            }
            written += 1;
        }
        proof {
            assert(painting.take(written as int) =~= painting);
            lemma_delivered_then(
                old(self).history(),
                opened,
                self.history(),
                self.address(),
                window_frames(0, 127, 0, 7),
                painting,
                Ok::<(), T::Error>(()),
            );
        }
        Ok(())
    }

    /// Lights every pixel of the panel.
    pub fn fill(&mut self) -> (r: Result<(), T::Error>)
        ensures
            final(self).sent(old(self), fill_frames(PIXELS_ON), r),
    {
        self.fill_screen_with_value(PIXELS_ON)
    }

    /// Darkens every pixel of the panel.
    pub fn clear(&mut self) -> (r: Result<(), T::Error>)
        ensures
            final(self).sent(old(self), fill_frames(PIXELS_OFF), r),
    {
        self.fill_screen_with_value(PIXELS_OFF)
    }

    /// Brings the panel up: sends the initialisation commands in their fixed
    /// order, then clears the screen. Stops at the first write that fails and
    /// returns its error; the panel is then left partly configured.
    pub fn init_display(&mut self) -> (r: Result<(), T::Error>)
        ensures
            final(self).sent(old(self), init_frames(), r),
    {
        match self.send_each(CONTROL_COMMAND, &INIT_COMMANDS) {
            Ok(_) => {},
            Err(error) => {
                proof {
                    lemma_delivered_cut_short(
                        old(self).history(),
                        self.history(),
                        self.address(),
                        frames(CONTROL_COMMAND, INIT_COMMANDS@),
                        fill_frames(PIXELS_OFF),
                        error,
                    );
                }
                return Err(error);
            },
        }
        let ghost configured = self.history();
        let r = self.clear();
        proof {
            lemma_delivered_then(
                old(self).history(),
                configured,
                self.history(),
                self.address(),
                frames(CONTROL_COMMAND, INIT_COMMANDS@),
                fill_frames(PIXELS_OFF),
                r,
            );
        }
        r
    }

    /// Narrows the addressing window to the page `page` and to the columns
    /// `col` to `col + len`, so that the data bytes that follow land there.
    pub fn set_cursor(&mut self, col: u8, page: u8, len: u8) -> (r: Result<(), T::Error>)
        requires
            col + len <= u8::MAX,
        ensures
            final(self).sent(old(self), cursor_frames(col, page, len), r),
    {
        self.set_addressing_window(col, col + len, page, page)
    }

    /// Streams the glyph of `c` to display memory, one data byte per pixel
    /// column. A character the font does not have writes nothing and succeeds.
    pub fn write_char(&mut self, c: char) -> (r: Result<(), T::Error>)
        ensures
            final(self).sent(old(self), char_frames(c), r),
            glyph_index(c) is None ==> r is Ok && final(self).history() == old(self).history(),
    {
        match classify(c) {
            Some(index) => {
                let columns: [u8; 5] = glyph(index);
                self.send_each(CONTROL_DATA, &columns)
            },
            None => {
                proof {
                    lemma_delivered_nothing(
                        old(self).history(),
                        self.history(),
                        self.address(),
                        Ok::<(), T::Error>(()),
                    );
                }
                Ok(())
            },
        }
    }

    /// Draws `text` from left to right, beginning at column `col` of page
    /// `page`, five columns to a character and with no gap between characters.
    ///
    /// A character the font does not have is passed over: nothing is written
    /// for it and the cursor stays. A glyph that would end beyond the last
    /// column is drawn at the start of the next page instead; after the last
    /// page the text goes on at page 0. Before each glyph the addressing window
    /// is set to the place of that glyph. Stops at the first write that fails;
    /// what was drawn stays.
    ///
    /// No start is refused. From a column beyond the panel the first glyph
    /// wraps; a page beyond the panel is named to the controller as it is,
    /// until the first wrap.
    pub fn draw_text(&mut self, text: &str, col: u8, page: u8) -> (r: Result<(), T::Error>)
        ensures
            final(self).sent(old(self), text_frames(text@, Cursor { col, page }), r),
            text_frames(text@, Cursor { col, page }).len() == 0 ==> r is Ok && final(self).history()
                == old(self).history(),
    {
        let ghost start = Cursor { col, page };
        let mut at = Cursor { col, page };
        proof {
            broadcast use vstd::string::axiom_spec_iter;
            lemma_delivered_nothing(
                old(self).history(),
                self.history(),
                self.address(),
                Ok::<(), T::Error>(()),
            );
        }
        for c in it: text.chars()
            invariant
                it.seq() == text@,
                start == (Cursor { col, page }),
                at == cursor_after(text@.take(it.index() as int), start),
                self.sent(old(self), text_frames(text@.take(it.index() as int), start), Ok(())),
        {
            let ghost i = it.index();
            let ghost drawn = text_frames(text@.take(i), start);
            let ghost cell = cell_frames(c, at);
            let ghost rest = text_frames(text@.skip(i + 1), cursor_past(c, at));
            let ghost here = self.history();
            proof {
                lemma_text_around(text@, i, start);
            }
            match classify(c) {
                Some(_) => {
                    let to = place(at);
                    let moved = self.set_cursor(to.col, to.page, GLYPH_WIDTH);
                    let ghost pointed = self.history();
                    proof {
                        lemma_delivered_then(
                            old(self).history(),
                            here,
                            pointed,
                            self.address(),
                            drawn,
                            cursor_frames(to.col, to.page, GLYPH_WIDTH),
                            moved,
                        );
                    }
                    match moved {
                        Ok(_) => {},
                        Err(error) => {
                            proof {
                                assert(drawn + cursor_frames(to.col, to.page, GLYPH_WIDTH) + (
                                char_frames(c) + rest) =~= drawn + cell + rest);
                                lemma_delivered_cut_short(
                                    old(self).history(),
                                    pointed,
                                    self.address(),
                                    drawn + cursor_frames(to.col, to.page, GLYPH_WIDTH),
                                    char_frames(c) + rest,
                                    error,
                                );
                            }
                            return Err(error);
                        },
                    }
                    let streamed = self.write_char(c);
                    proof {
                        assert(drawn + cursor_frames(to.col, to.page, GLYPH_WIDTH) + char_frames(c)
                            =~= drawn + cell);
                        lemma_delivered_then(
                            old(self).history(),
                            pointed,
                            self.history(),
                            self.address(),
                            drawn + cursor_frames(to.col, to.page, GLYPH_WIDTH),
                            char_frames(c),
                            streamed,
                        );
                    }
                    match streamed {
                        Ok(_) => {},
                        Err(error) => {
                            proof {
                                lemma_delivered_cut_short(
                                    old(self).history(),
                                    self.history(),
                                    self.address(),
                                    drawn + cell,
                                    rest,
                                    error,
                                );
                            }
                            return Err(error);
                        },
                    }
                    at = Cursor { col: to.col + GLYPH_WIDTH, page: to.page };
                },
                None => {
                },
            }
        }
        proof {
            assert(text@.take(text@.len() as int) =~= text@);
        }
        Ok(())
    }
}

} // verus!
