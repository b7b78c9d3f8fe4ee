//! The panel commands and their exact form on the wire.
//!
//! | Command      | Bytes on the bus while chip-select is high                 |
//! |--------------|------------------------------------------------------------|
//! | flush        | `0x80`, 128 row records, `0x00`                            |
//! | clear        | `0x20 0x00`                                                |
//! | display mode | `0x00 0x00`                                                |
//! | dotted line  | `0x80 0x82`, 16 times `0x33`, `0x00 0x00`                  |
//!
//! A row record is the address byte of the row followed by the 16 bytes of the
//! row as the frame buffer holds them. Rows are numbered from 1 on the wire,
//! and the address byte is that number with its bits reversed.

use vstd::prelude::*;
use crate::action::{
    bracketed, lemma_steps_push, lemma_wire_bytes_push, steps, wire_bytes, Action, Level, Step,
};
use crate::display::Ls010b7dh01;
use crate::reverse_bits::{reverse_bits, reversed};

verus! {

/// First byte of a frame: the command that writes rows.
pub const WRITE_ROWS: u8 = 0x80;

/// First byte of the command that clears the panel.
pub const CLEAR_PANEL: u8 = 0x20;

/// Filler byte that ends every command, and the whole of the command that
/// keeps the panel displaying without an update.
pub const NO_UPDATE: u8 = 0x00;

/// The record of row `row` on the wire: its address byte, then its 16 bytes.
pub open spec fn row_record(buf: Seq<u8>, row: int) -> Seq<u8> {
    seq![reversed((row + 1) as u8)] + buf.subrange(row * 16, row * 16 + 16)
}

/// The bus writes of a flush: the start byte, one record for each of the 128
/// rows in ascending order, and the trailer byte.
pub open spec fn frame_writes(buf: Seq<u8>) -> Seq<Seq<u8>> {
    seq![seq![0x80u8]] + Seq::new(128, |row: int| row_record(buf, row)) + seq![seq![0x00u8]]
}

/// Byte `k` of a frame, counted over all of its bus writes.
pub open spec fn frame_byte(buf: Seq<u8>, k: int) -> u8 {
    if k == 0 {
        0x80
    } else if k == 2177 {
        0x00
    } else {
        let row = (k - 1) / 17;
        let column = (k - 1) % 17;
        if column == 0 {
            reversed((row + 1) as u8)
        } else {
            buf[row * 16 + column - 1]
        }
    }
}

/// The 2178 bytes of a frame, counted over all of its bus writes.
pub open spec fn frame(buf: Seq<u8>) -> Seq<u8> {
    Seq::new(2178, |k: int| frame_byte(buf, k))
}

/// The bytes of the dotted-line test pattern: the command that writes rows,
/// the address byte of row 65, sixteen payload bytes `0x33` and two trailer
/// bytes.
pub open spec fn dotted_line_bytes() -> Seq<u8> {
    seq![0x80u8, 0x82u8] + Seq::new(16, |i: int| 0x33u8) + seq![0x00u8, 0x00u8]
}

/// The steps of a flush up to and including the record of row `rows - 1`.
spec fn frame_head(buf: Seq<u8>, rows: int) -> Seq<Step> {
    seq![Step::ChipSelect(Level::High), Step::Write(seq![0x80u8])] + Seq::new(
        rows as nat,
        |row: int| Step::Write(row_record(buf, row)),
    )
}

proof fn lemma_frame_head_bytes(buf: Seq<u8>, rows: int)
    requires
        buf.len() == 2048,
        0 <= rows <= 128,
    ensures
        wire_bytes(frame_head(buf, rows)) == Seq::new(
            (1 + 17 * rows) as nat,
            |k: int| frame_byte(buf, k),
        ),
    decreases rows,
{
    if rows == 0 {
        let cs = seq![Step::ChipSelect(Level::High)];
        assert(frame_head(buf, 0) =~= cs.push(Step::Write(seq![0x80u8])));
        lemma_wire_bytes_push(cs, Step::Write(seq![0x80u8]));
        assert(cs =~= Seq::<Step>::empty().push(Step::ChipSelect(Level::High)));
        lemma_wire_bytes_push(Seq::<Step>::empty(), Step::ChipSelect(Level::High));
        assert(wire_bytes(frame_head(buf, 0)) =~= Seq::new(1, |k: int| frame_byte(buf, k)));
    } else {
        let last = Step::Write(row_record(buf, rows - 1));
        lemma_frame_head_bytes(buf, rows - 1);
        assert(frame_head(buf, rows) =~= frame_head(buf, rows - 1).push(last));
        lemma_wire_bytes_push(frame_head(buf, rows - 1), last);
        assert(wire_bytes(frame_head(buf, rows)) =~= Seq::new(
            (1 + 17 * rows) as nat,
            |k: int| frame_byte(buf, k),
        ));
    }
}

/// A flush puts exactly the 2178 bytes of the frame on the bus: the start
/// byte, then for each row its reversed address and its 16 bytes, then the
/// trailer byte.
pub proof fn lemma_flush_wire_bytes(buf: Seq<u8>)
    requires
        buf.len() == 2048,
    ensures
        frame_writes(buf).len() == 130,
        wire_bytes(bracketed(frame_writes(buf))) == frame(buf),
        frame(buf).len() == 2178,
        frame(buf)[0] == 0x80,
        frame(buf)[2177] == 0x00,
        forall|row: int|
            0 <= row < 128 ==> #[trigger] frame(buf)[1 + row * 17] == reversed((row + 1) as u8),
        forall|row: int, column: int|
            0 <= row < 128 && 0 <= column < 16 ==> frame(buf)[2 + row * 17 + column]
                == #[trigger] buf[row * 16 + column],
{
    let trailer = Step::Write(seq![0x00u8]);
    let deselect = Step::ChipSelect(Level::Low);
    lemma_frame_head_bytes(buf, 128);
    assert(bracketed(frame_writes(buf)) =~= frame_head(buf, 128).push(trailer).push(deselect));
    lemma_wire_bytes_push(frame_head(buf, 128), trailer);
    lemma_wire_bytes_push(frame_head(buf, 128).push(trailer), deselect);
    assert(wire_bytes(bracketed(frame_writes(buf))) =~= frame(buf));
}

impl Ls010b7dh01 {
    /// Enables the panel: the panel-enable line goes high. Neither the bus nor
    /// the frame buffer is involved.
    pub fn enable(&self) -> (actions: Vec<Action>)
        ensures
            steps(actions@) == seq![Step::PanelEnable(Level::High)],
    {
        let actions = vec![Action::PanelEnable(Level::High)];
        assert(steps(actions@) =~= seq![Step::PanelEnable(Level::High)]);
        actions
    }

    /// Disables the panel: the panel-enable line goes low. Neither the bus nor
    /// the frame buffer is involved.
    pub fn disable(&self) -> (actions: Vec<Action>)
        ensures
            steps(actions@) == seq![Step::PanelEnable(Level::Low)],
    {
        let actions = vec![Action::PanelEnable(Level::Low)];
        assert(steps(actions@) =~= seq![Step::PanelEnable(Level::Low)]);
        actions
    }

    /// Sends the whole frame buffer to the panel.
    ///
    /// The frame is one transaction of 130 bus writes: the start byte, one
    /// record for each row from the first to the last, and the trailer byte.
    /// The frame buffer itself stays as it is.
    pub fn flush_buffer(&self) -> (actions: Vec<Action>)
        ensures
            steps(actions@) == bracketed(frame_writes(self@)),
    {
        broadcast use Ls010b7dh01::lemma_len;

        let bytes = self.buffer();
        let mut actions: Vec<Action> = Vec::new();
        let start = vec![WRITE_ROWS];
        assert(start@ =~= seq![0x80u8]);
        actions.push(Action::ChipSelect(Level::High));
        actions.push(Action::Write(start));
        assert(steps(actions@) =~= frame_head(self@, 0));

        let mut row: u8 = 0;
        while row < 128
            invariant
                row <= 128,
                bytes@ == self@,
                self@.len() == 2048,
                steps(actions@) == frame_head(self@, row as int),
            decreases 128 - row,
        {
            let mut record: Vec<u8> = Vec::new();
            record.push(reverse_bits(row + 1));
            let mut column: usize = 0;
            while column < 16
                invariant
                    row < 128,
                    column <= 16,
                    bytes@ == self@,
                    self@.len() == 2048,
                    record@ == seq![reversed((row + 1) as u8)] + self@.subrange(
                        row * 16,
                        row * 16 + column,
                    ),
                decreases 16 - column,
            {
                record.push(bytes[row as usize * 16 + column]);
                column += 1;
            }
            let entry = Action::Write(record);
            proof {
                lemma_steps_push(actions@, entry);
                assert(frame_head(self@, row + 1) =~= frame_head(self@, row as int).push(
                    Step::Write(row_record(self@, row as int)),
                ));
            }
            actions.push(entry);
            row += 1;
        }
        let end = vec![NO_UPDATE];
        assert(end@ =~= seq![0x00u8]);
        let trailer = Action::Write(end);
        let deselect = Action::ChipSelect(Level::Low);
        proof {
            lemma_steps_push(actions@, trailer);
            lemma_steps_push(actions@.push(trailer), deselect);
            assert(bracketed(frame_writes(self@)) =~= frame_head(self@, 128).push(trailer@).push(
                deselect@,
            ));
        }
        actions.push(trailer);
        actions.push(deselect);
        actions
    }

    /// Clears the panel and the frame buffer.
    ///
    /// The command on the wire is one transaction with the single write
    /// `0x20 0x00`. The frame buffer is set to all white, every byte `0xFF`,
    /// so that it shows what the cleared panel shows.
    pub fn clear(&mut self) -> (actions: Vec<Action>)
        ensures
            steps(actions@) == bracketed(seq![seq![0x20u8, 0x00u8]]),
            final(self)@ == Seq::new(2048, |i: int| 0xFFu8),
    {
        let actions = Self::write_spi(vec![CLEAR_PANEL, NO_UPDATE]);
        self.reset(0xFF);
        actions
    }

    /// Puts the panel into display mode, in which it keeps showing its
    /// contents at low power and takes no update.
    ///
    /// The command on the wire is one transaction with the single write
    /// `0x00 0x00`. The frame buffer is not involved.
    pub fn display_mode(&self) -> (actions: Vec<Action>)
        ensures
            steps(actions@) == bracketed(seq![seq![0x00u8, 0x00u8]]),
    {
        Self::write_spi(vec![NO_UPDATE, NO_UPDATE])
    }

    /// Sends the dotted-line test pattern straight to the panel: one dotted
    /// row in the middle of the panel, whatever the frame buffer holds.
    ///
    /// The command on the wire is one transaction with a single write of 20
    /// bytes. The frame buffer is not involved.
    pub fn dotted_line(&self) -> (actions: Vec<Action>)
        ensures
            steps(actions@) == bracketed(seq![dotted_line_bytes()]),
    {
        let mut data: Vec<u8> = vec![WRITE_ROWS, 0x82];
        let mut i: usize = 0;
        while i < 16
            invariant
                i <= 16,
                data@ == seq![0x80u8, 0x82u8] + Seq::new(i as nat, |k: int| 0x33u8),
            decreases 16 - i,
        {
            data.push(0x33);
            i += 1;
        }
        data.push(NO_UPDATE);
        data.push(NO_UPDATE);
        assert(data@ =~= dotted_line_bytes());
        Self::write_spi(data)
    }

    /// Wraps one bus write into a transaction: the chip-select line goes high
    /// before the write and low after it.
    pub fn write_spi(data: Vec<u8>) -> (actions: Vec<Action>)
        ensures
            steps(actions@) == bracketed(seq![data@]),
    {
        let actions = vec![
            Action::ChipSelect(Level::High),
            Action::Write(data),
            Action::ChipSelect(Level::Low),
        ];
        assert(steps(actions@) =~= bracketed(seq![data@]));
        actions
    }
}

} // verus!
