//! The driver: its state and its operations.

use vstd::prelude::*;
use vstd::slice::slice_subrange;
use crate::command::{Instruction, Orientation};
use crate::startup::{
    commands_ops, hard_reset_ops, init_command, init_ops, init_table, INIT_COMMANDS, RESET_HOLD_MS,
    SETTLE_MS,
};
use crate::stream::{
    chunked_ops, lemma_chunks_transmit, lemma_full_rows_transmit, rows_ops, write_chunks,
};
use crate::transaction::{
    begin_data, begin_data_ops, command_ops, data_ops, word_ops, words_buffered_ops, words_ops,
    write_command, write_data, write_word, write_words_buffered,
};
use crate::window::{
    lemma_window_transmits, memory_write_ops, orientation_ops, window_bytes, window_fits,
    window_ops, BGR_BIT,
};
use crate::wire::{extend, lemma_concat, ops, transmitted, Line, Op, Step};

verus! {

/// What a driver knows about its panel.
#[derive(Clone, Copy, Debug, PartialEq, Eq)]
pub struct Settings {
    /// Whether the panel's colour order is red, green, blue (`true`) or blue,
    /// green, red (`false`).
    pub rgb: bool,
    /// Added to every column of an address window.
    pub offset_x: u16,
    /// Added to every row of an address window.
    pub offset_y: u16,
    /// Width of the panel in pixels.
    pub width: u32,
    /// Height of the panel in pixels.
    pub height: u32,
}

/// Driver for the GC9A01A display.
///
/// Each operation returns the program that carries it out on the hardware. The
/// driver itself only remembers the panel's settings.
pub struct GC9A01A {
    rgb: bool,
    dx: u16,
    dy: u16,
    width: u32,
    height: u32,
}

impl View for GC9A01A {
    type V = Settings;

    closed spec fn view(&self) -> Settings {
        Settings {
            rgb: self.rgb,
            offset_x: self.dx,
            offset_y: self.dy,
            width: self.width,
            height: self.height,
        }
    }
}

/// The panel's width as a window coordinate can hold it: its low 16 bits.
pub open spec fn columns(settings: Settings) -> int {
    settings.width as int % 0x1_0000
}

/// The panel's height as a window coordinate can hold it: its low 16 bits.
pub open spec fn rows(settings: Settings) -> int {
    settings.height as int % 0x1_0000
}

/// Whether the whole panel can be addressed as one window: it has at least one
/// column and one row, and its far corner, moved by the offset, is still a
/// 16-bit coordinate.
pub open spec fn image_fits(settings: Settings) -> bool {
    &&& columns(settings) >= 1
    &&& rows(settings) >= 1
    &&& columns(settings) - 1 + settings.offset_x <= u16::MAX
    &&& rows(settings) - 1 + settings.offset_y <= u16::MAX
}

/// Drawing a full frame: the window over the whole panel, the memory write,
/// then the image in chunks.
pub open spec fn draw_image_ops(settings: Settings, image: Seq<u8>) -> Seq<Op> {
    window_ops(
        settings.offset_x,
        settings.offset_y,
        0,
        0,
        (columns(settings) - 1) as u16,
        (rows(settings) - 1) as u16,
    ) + memory_write_ops() + chunked_ops(image)
}

/// The column range, and the row range, of a panel of 240 by 240 pixels, as
/// the parameters of an address-set command.
pub open spec fn full_span() -> Seq<u8> {
    seq![0x00, 0x00, 0x00, 0xEF]
}

/// Showing a frame on a panel of 240 by 240 pixels: the two ranges as plain
/// data transactions, the memory write closed again, then the whole buffer in
/// one data transaction.
pub open spec fn show_ops(buffer: Seq<u8>) -> Seq<Op> {
    command_ops(Instruction::CASET.spec_code(), Seq::empty()) + data_ops(full_span())
        + command_ops(Instruction::RASET.spec_code(), Seq::empty()) + data_ops(full_span())
        + command_ops(Instruction::RAMWR.spec_code(), Seq::empty()) + data_ops(buffer)
}

/// Whether the region of `width` by `height` pixels at (`x`, `y`) can be taken
/// from a buffer of `len` bytes laid out for the whole panel: the region has a
/// far corner, that corner moved by the offset is still a 16-bit coordinate,
/// and the last row of the region ends inside the buffer.
pub open spec fn region_fits(
    settings: Settings,
    len: nat,
    x: u16,
    y: u16,
    width: u16,
    height: u16,
) -> bool {
    &&& 1 <= x + width <= u16::MAX
    &&& 1 <= y + height <= u16::MAX
    &&& x + width - 1 + settings.offset_x <= u16::MAX
    &&& y + height - 1 + settings.offset_y <= u16::MAX
    &&& x + settings.offset_x <= u16::MAX
    &&& y + settings.offset_y <= u16::MAX
    &&& height > 0 ==> ((y + height - 1) * settings.width + x + width) * 2 <= len
}

/// Updating a region from a buffer laid out for the whole panel: the window
/// over the region, the memory write, then the region's stretch of each row in
/// chunks. The rows of the buffer are as long as the panel is wide.
pub open spec fn show_region_ops(
    settings: Settings,
    buffer: Seq<u8>,
    x: u16,
    y: u16,
    width: u16,
    height: u16,
) -> Seq<Op> {
    window_ops(
        settings.offset_x,
        settings.offset_y,
        x,
        y,
        (x + width - 1) as u16,
        (y + height - 1) as u16,
    ) + memory_write_ops() + rows_ops(
        buffer,
        settings.width as int,
        x as int,
        y as int,
        width as int,
        height as int,
    )
}

/// Once the offset has been set to (`dx`, `dy`), whatever it was before,
/// latching the window from (`sx`, `sy`) to (`ex`, `ey`) sends `sx + dx` and
/// `ex + dx` as the column bounds and `sy + dy` and `ey + dy` as the row
/// bounds, in that order, each as a 16-bit word with its most significant byte
/// first.
pub proof fn lemma_window_follows_offset(
    before: Settings,
    dx: u16,
    dy: u16,
    sx: u16,
    sy: u16,
    ex: u16,
    ey: u16,
)
    requires
        window_fits(dx, dy, sx, sy, ex, ey),
    ensures
        ({
            let moved = Settings { offset_x: dx, offset_y: dy, ..before };
            let program = window_ops(moved.offset_x, moved.offset_y, sx, sy, ex, ey);
            &&& program == command_ops(0x2A, Seq::empty()) + begin_data_ops() + word_ops(
                (sx + dx) as u16,
            ) + word_ops((ex + dx) as u16) + command_ops(0x2B, Seq::empty()) + begin_data_ops()
                + word_ops((sy + dy) as u16) + word_ops((ey + dy) as u16)
            &&& transmitted(program) == seq![
                0x2Au8,
                ((sx + dx) / 256) as u8,
                ((sx + dx) % 256) as u8,
                ((ex + dx) / 256) as u8,
                ((ex + dx) % 256) as u8,
                0x2Bu8,
                ((sy + dy) / 256) as u8,
                ((sy + dy) % 256) as u8,
                ((ey + dy) / 256) as u8,
                ((ey + dy) % 256) as u8,
            ]
        }),
{
    lemma_window_transmits(dx, dy, sx, sy, ex, ey);
    assert(window_bytes(dx, dy, sx, sy, ex, ey) =~= seq![
        0x2Au8,
        ((sx + dx) / 256) as u8,
        ((sx + dx) % 256) as u8,
        ((ex + dx) / 256) as u8,
        ((ex + dx) % 256) as u8,
        0x2Bu8,
        ((sy + dy) / 256) as u8,
        ((sy + dy) % 256) as u8,
        ((ey + dy) / 256) as u8,
        ((ey + dy) % 256) as u8,
    ]);
}

/// Updating the region that covers the whole panel sends what drawing the
/// buffer as a full frame sends: the same window, the same memory write, and
/// the same bytes in the same order, cut into data transactions row by row
/// instead of over the whole buffer. This holds for a buffer of exactly two
/// bytes for each pixel of a panel whose width and height are 16-bit.
pub proof fn lemma_full_region_is_image(settings: Settings, buffer: Seq<u8>)
    requires
        1 <= settings.width <= u16::MAX,
        1 <= settings.height <= u16::MAX,
        settings.width - 1 + settings.offset_x <= u16::MAX,
        settings.height - 1 + settings.offset_y <= u16::MAX,
        buffer.len() == settings.width * settings.height * 2,
    ensures
        image_fits(settings),
        region_fits(
            settings,
            buffer.len(),
            0,
            0,
            settings.width as u16,
            settings.height as u16,
        ),
        ({
            let head = window_ops(
                settings.offset_x,
                settings.offset_y,
                0,
                0,
                (settings.width - 1) as u16,
                (settings.height - 1) as u16,
            ) + memory_write_ops();
            let region = show_region_ops(
                settings,
                buffer,
                0,
                0,
                settings.width as u16,
                settings.height as u16,
            );
            let image = draw_image_ops(settings, buffer);
            &&& region.take(head.len() as int) == head
            &&& image.take(head.len() as int) == head
            &&& transmitted(region.skip(head.len() as int)) == buffer
            &&& transmitted(image.skip(head.len() as int)) == buffer
            &&& transmitted(region) == transmitted(image)
        }),
{
    let width = settings.width as int;
    let height = settings.height as int;
    assert(((height - 1) * width + 0 + width) * 2 == width * height * 2) by (nonlinear_arith);
    assert(height * width * 2 == width * height * 2) by (nonlinear_arith);
    let head = window_ops(
        settings.offset_x,
        settings.offset_y,
        0,
        0,
        (width - 1) as u16,
        (height - 1) as u16,
    ) + memory_write_ops();
    let rows_part = rows_ops(buffer, width, 0, 0, width, height);
    let chunks_part = chunked_ops(buffer);
    lemma_full_rows_transmit(buffer, width, height);
    assert(buffer.take(height * width * 2) =~= buffer);
    lemma_chunks_transmit(buffer);
    lemma_same_head(head, rows_part, chunks_part);
}

/// Two programs that begin alike and then put the same bytes on the bus put
/// the same bytes on the bus as a whole.
proof fn lemma_same_head(head: Seq<Op>, first: Seq<Op>, second: Seq<Op>)
    requires
        transmitted(first) == transmitted(second),
    ensures
        (head + first).take(head.len() as int) == head,
        (head + second).take(head.len() as int) == head,
        (head + first).skip(head.len() as int) == first,
        (head + second).skip(head.len() as int) == second,
        transmitted(head + first) == transmitted(head + second),
{
    assert((head + first).take(head.len() as int) =~= head);
    assert((head + second).take(head.len() as int) =~= head);
    assert((head + first).skip(head.len() as int) =~= first);
    assert((head + second).skip(head.len() as int) =~= second);
    lemma_concat(head, first);
    lemma_concat(head, second);
}

impl GC9A01A {
    /// Creates a driver for a panel of the given colour order and size, with
    /// no offset.
    pub fn new(rgb: bool, width: u32, height: u32) -> (driver: Self)
        ensures
            driver@ == (Settings { rgb, offset_x: 0, offset_y: 0, width, height }),
    {
        GC9A01A { rgb, dx: 0, dy: 0, width, height }
    }

    /// The panel's settings as they are now.
    pub fn settings(&self) -> (settings: Settings)
        ensures
            settings == self@,
    {
        Settings {
            rgb: self.rgb,
            offset_x: self.dx,
            offset_y: self.dy,
            width: self.width,
            height: self.height,
        }
    }

    /// Whether [`set_address_window`](Self::set_address_window) can latch
    /// this window under the offset in force.
    pub fn can_address(&self, sx: u16, sy: u16, ex: u16, ey: u16) -> (fits: bool)
        ensures
            fits == window_fits(self@.offset_x, self@.offset_y, sx, sy, ex, ey),
    {
        let room_x: u16 = u16::MAX - self.dx;
        let room_y: u16 = u16::MAX - self.dy;
        sx <= room_x && ex <= room_x && sy <= room_y && ey <= room_y
    }

    /// Whether [`draw_image`](Self::draw_image) can address the whole panel
    /// under the offset in force.
    pub fn can_draw_image(&self) -> (fits: bool)
        ensures
            fits == image_fits(self@),
    {
        let panel_width: u32 = self.width;
        let panel_height: u32 = self.height;
        assert(panel_width & 0xFFFF == panel_width % 0x1_0000 && panel_width & 0xFFFF <= 0xFFFF)
            by (bit_vector);
        assert(panel_height & 0xFFFF == panel_height % 0x1_0000 && panel_height & 0xFFFF <= 0xFFFF)
            by (bit_vector);
        let width: u16 = (panel_width & 0xFFFF) as u16;
        let height: u16 = (panel_height & 0xFFFF) as u16;
        width >= 1 && height >= 1 && width - 1 <= u16::MAX - self.dx
            && height - 1 <= u16::MAX - self.dy
    }

    /// Whether [`show_region`](Self::show_region) can take this region from a
    /// buffer of `len` bytes under the offset in force.
    pub fn can_show_region(
        &self,
        len: usize,
        x: u16,
        y: u16,
        width: u16,
        height: u16,
    ) -> (fits: bool)
        ensures
            fits == region_fits(self@, len as nat, x, y, width, height),
    {
        let far_x: u32 = x as u32 + width as u32;
        let far_y: u32 = y as u32 + height as u32;
        if far_x < 1 || far_x > 0xFFFF || far_y < 1 || far_y > 0xFFFF {
            return false;
        }
        if far_x - 1 + self.dx as u32 > 0xFFFF || far_y - 1 + self.dy as u32 > 0xFFFF {
            return false;
        }
        if x as u32 + self.dx as u32 > 0xFFFF || y as u32 + self.dy as u32 > 0xFFFF {
            return false;
        }
        if height == 0 {
            return true;
        }
        let stride: u64 = self.width as u64;
        let last_row: u64 = (far_y - 1) as u64;
        assert(last_row * stride <= 0xFFFF * 0xFFFF_FFFF) by (nonlinear_arith)
            requires
                last_row <= 0xFFFF,
                stride <= 0xFFFF_FFFF,
        ;
        let needed: u64 = (last_row * stride + far_x as u64) * 2;
        needed <= len as u64
    }

    /// Brings the controller from power-on to a displaying state: the reset
    /// pulse, the register program, and the settling delay.
    pub fn init(&self) -> (program: Vec<Step>)
        ensures
            ops(program@) == init_ops(),
    {
        let mut program: Vec<Step> = self.hard_reset();
        let mut index: usize = 0;
        while index < INIT_COMMANDS
            invariant
                index <= INIT_COMMANDS,
                ops(program@) == hard_reset_ops() + commands_ops(init_table().take(index as int)),
            decreases INIT_COMMANDS - index,
        {
            let (opcode, params) = init_command(index);
            extend(&mut program, write_command(opcode, params.as_slice()));
            proof {
                let issued = init_table().take(index + 1);
                assert(issued.drop_last() =~= init_table().take(index as int));
                assert(issued.last() == init_table()[index as int]);
            }
            index += 1;
        }
        assert(init_table().take(INIT_COMMANDS as int) =~= init_table());
        let ghost programmed = ops(program@);
        program.push(Step::DelayMs(SETTLE_MS));
        assert(ops(program@) =~= programmed + seq![Op::DelayMs(SETTLE_MS)]);
        program
    }

    /// Pulses the reset line, which forces the controller into its power-on
    /// state.
    pub fn hard_reset(&self) -> (program: Vec<Step>)
        ensures
            ops(program@) == hard_reset_ops(),
    {
        let mut program: Vec<Step> = Vec::new();
        program.push(Step::SetHigh(Line::Reset));
        program.push(Step::DelayMs(RESET_HOLD_MS));
        program.push(Step::SetLow(Line::Reset));
        program.push(Step::DelayMs(RESET_HOLD_MS));
        program.push(Step::SetHigh(Line::Reset));
        program.push(Step::DelayMs(RESET_HOLD_MS));
        assert(ops(program@) =~= hard_reset_ops());
        program
    }

    /// Selects how the controller maps window coordinates onto the panel. The
    /// driver's own window arithmetic is not affected.
    pub fn set_orientation(&self, orientation: &Orientation) -> (program: Vec<Step>)
        ensures
            ops(program@) == orientation_ops(self@.rgb, *orientation),
    {
        let value: u8 = if self.rgb {
            orientation.bits()
        } else {
            orientation.bits() | BGR_BIT
        };
        let params: [u8; 1] = [value];
        assert(params@ =~= seq![value]);
        write_command(Instruction::MADCTL.code(), &params)
    }

    /// Replaces the global offset. Windows latched earlier are not moved.
    pub fn set_offset(&mut self, dx: u16, dy: u16)
        ensures
            final(self)@ == (Settings { offset_x: dx, offset_y: dy, ..old(self)@ }),
    {
        self.dx = dx;
        self.dy = dy;
    }

    /// Latches the window from (`sx`, `sy`) to (`ex`, `ey`), both inclusive,
    /// moved by the global offset. The next memory write fills it.
    pub fn set_address_window(&self, sx: u16, sy: u16, ex: u16, ey: u16) -> (program: Vec<Step>)
        requires
            window_fits(self@.offset_x, self@.offset_y, sx, sy, ex, ey),
        ensures
            ops(program@) == window_ops(self@.offset_x, self@.offset_y, sx, sy, ex, ey),
    {
        let none: [u8; 0] = [];
        assert(none@ =~= Seq::<u8>::empty());
        let mut program: Vec<Step> = write_command(Instruction::CASET.code(), &none);
        extend(&mut program, begin_data());
        extend(&mut program, write_word(sx + self.dx));
        extend(&mut program, write_word(ex + self.dx));
        extend(&mut program, write_command(Instruction::RASET.code(), &none));
        extend(&mut program, begin_data());
        extend(&mut program, write_word(sy + self.dy));
        extend(&mut program, write_word(ey + self.dy));
        program
    }

    /// Sets the pixel at (`x`, `y`) to `color`.
    pub fn set_pixel(&self, x: u16, y: u16, color: u16) -> (program: Vec<Step>)
        requires
            window_fits(self@.offset_x, self@.offset_y, x, y, x, y),
        ensures
            ops(program@) == window_ops(self@.offset_x, self@.offset_y, x, y, x, y)
                + memory_write_ops() + word_ops(color),
    {
        let mut program: Vec<Step> = self.set_address_window(x, y, x, y);
        extend(&mut program, open_stream());
        extend(&mut program, write_word(color));
        program
    }

    /// Streams `colors` into the window latched last, one data transaction
    /// per pixel.
    pub fn write_pixels(&self, colors: &[u16]) -> (program: Vec<Step>)
        ensures
            ops(program@) == memory_write_ops() + words_ops(colors@),
    {
        let mut program: Vec<Step> = open_stream();
        let mut sent: usize = 0;
        assert(words_ops(colors@.take(0)) =~= Seq::<Op>::empty());
        assert(ops(program@) =~= memory_write_ops() + words_ops(colors@.take(0)));
        while sent < colors.len()
            invariant
                sent <= colors.len(),
                ops(program@) == memory_write_ops() + words_ops(colors@.take(sent as int)),
            decreases colors.len() - sent,
        {
            extend(&mut program, write_word(colors[sent]));
            proof {
                let streamed = colors@.take(sent + 1);
                assert(streamed.drop_last() =~= colors@.take(sent as int));
                assert(streamed.last() == colors@[sent as int]);
            }
            sent += 1;
        }
        assert(colors@.take(sent as int) =~= colors@);
        program
    }

    /// Streams `colors` into the window latched last, sixteen pixels to a data
    /// transaction.
    pub fn write_pixels_buffered(&self, colors: &[u16]) -> (program: Vec<Step>)
        ensures
            ops(program@) == memory_write_ops() + words_buffered_ops(colors@),
    {
        let mut program: Vec<Step> = open_stream();
        extend(&mut program, write_words_buffered(colors));
        program
    }

    /// Latches the window from (`sx`, `sy`) to (`ex`, `ey`) and streams
    /// `colors` into it, one data transaction per pixel.
    pub fn set_pixels(
        &self,
        sx: u16,
        sy: u16,
        ex: u16,
        ey: u16,
        colors: &[u16],
    ) -> (program: Vec<Step>)
        requires
            window_fits(self@.offset_x, self@.offset_y, sx, sy, ex, ey),
        ensures
            ops(program@) == window_ops(self@.offset_x, self@.offset_y, sx, sy, ex, ey)
                + memory_write_ops() + words_ops(colors@),
    {
        let mut program: Vec<Step> = self.set_address_window(sx, sy, ex, ey);
        extend(&mut program, self.write_pixels(colors));
        program
    }

    /// Latches the window from (`sx`, `sy`) to (`ex`, `ey`) and streams
    /// `colors` into it, sixteen pixels to a data transaction.
    pub fn set_pixels_buffered(
        &self,
        sx: u16,
        sy: u16,
        ex: u16,
        ey: u16,
        colors: &[u16],
    ) -> (program: Vec<Step>)
        requires
            window_fits(self@.offset_x, self@.offset_y, sx, sy, ex, ey),
        ensures
            ops(program@) == window_ops(self@.offset_x, self@.offset_y, sx, sy, ex, ey)
                + memory_write_ops() + words_buffered_ops(colors@),
    {
        let mut program: Vec<Step> = self.set_address_window(sx, sy, ex, ey);
        extend(&mut program, self.write_pixels_buffered(colors));
        program
    }

    /// Draws a full frame of two bytes a pixel. The length of `image_data` is
    /// not checked against the panel's size: all of it is streamed.
    pub fn draw_image(&self, image_data: &[u8]) -> (program: Vec<Step>)
        requires
            image_fits(self@),
        ensures
            ops(program@) == draw_image_ops(self@, image_data@),
    {
        let panel_width: u32 = self.width;
        let panel_height: u32 = self.height;
        assert(panel_width & 0xFFFF == panel_width % 0x1_0000 && panel_width & 0xFFFF <= 0xFFFF)
            by (bit_vector);
        assert(panel_height & 0xFFFF == panel_height % 0x1_0000 && panel_height & 0xFFFF <= 0xFFFF)
            by (bit_vector);
        let width: u16 = (panel_width & 0xFFFF) as u16;
        let height: u16 = (panel_height & 0xFFFF) as u16;
        let mut program: Vec<Step> = self.set_address_window(0, 0, width - 1, height - 1);
        extend(&mut program, open_stream());
        extend(&mut program, write_chunks(image_data));
        program
    }

    /// Shows a full frame on a panel of 240 by 240 pixels. Neither the global
    /// offset nor the size the driver was made with plays a part, and the
    /// buffer goes out in a single data transaction.
    pub fn show(&self, buffer: &[u8]) -> (program: Vec<Step>)
        ensures
            ops(program@) == show_ops(buffer@),
    {
        let none: [u8; 0] = [];
        assert(none@ =~= Seq::<u8>::empty());
        let span: [u8; 4] = [0x00, 0x00, 0x00, 0xEF];
        assert(span@ =~= full_span());
        let mut program: Vec<Step> = write_command(Instruction::CASET.code(), &none);
        extend(&mut program, write_data(&span));
        extend(&mut program, write_command(Instruction::RASET.code(), &none));
        extend(&mut program, write_data(&span));
        extend(&mut program, write_command(Instruction::RAMWR.code(), &none));
        extend(&mut program, write_data(buffer));
        program
    }

    /// Updates the region of `width` by `height` pixels at (`top_left_x`,
    /// `top_left_y`) from `buffer`, which is laid out for the whole panel: two
    /// bytes a pixel, rows as long as the panel is wide.
    pub fn show_region(
        &self,
        buffer: &[u8],
        top_left_x: u16,
        top_left_y: u16,
        width: u16,
        height: u16,
    ) -> (program: Vec<Step>)
        requires
            region_fits(self@, buffer@.len(), top_left_x, top_left_y, width, height),
        ensures
            ops(program@) == show_region_ops(self@, buffer@, top_left_x, top_left_y, width, height),
    {
        let ex: u16 = top_left_x + width - 1;
        let ey: u16 = top_left_y + height - 1;
        let buffer_width: usize = self.width as usize;
        let mut program: Vec<Step> = self.set_address_window(top_left_x, top_left_y, ex, ey);
        extend(&mut program, open_stream());
        let ghost head = ops(program@);
        let ghost stride = self.width as int;
        let mut done: u16 = 0;
        assert(buffer@.len() == buffer.len() <= usize::MAX);
        assert(head =~= head + rows_ops(
            buffer@,
            stride,
            top_left_x as int,
            top_left_y as int,
            width as int,
            0,
        ));
        while done < height
            invariant
                done <= height,
                buffer@.len() <= usize::MAX,
                stride == self.width,
                buffer_width == self.width,
                top_left_y + height <= u16::MAX,
                height > 0 ==> ((top_left_y + height - 1) * stride + top_left_x + width) * 2
                    <= buffer@.len(),
                ops(program@) == head + rows_ops(
                    buffer@,
                    stride,
                    top_left_x as int,
                    top_left_y as int,
                    width as int,
                    done as int,
                ),
            decreases height - done,
        {
            let y: usize = (top_left_y + done) as usize;
            assert(y * stride <= (top_left_y + height - 1) * stride) by (nonlinear_arith)
                requires
                    y <= top_left_y + height - 1,
                    stride >= 0,
            ;
            assert(0 <= y * stride) by (nonlinear_arith)
                requires
                    stride >= 0,
                    y >= 0,
            ;
            let start_index: usize = (y * buffer_width + (top_left_x as usize)) * 2;
            let end_index: usize = start_index + (width as usize) * 2;
            extend(&mut program, write_chunks(slice_subrange(buffer, start_index, end_index)));
            done += 1;
        }
        program
    }
}

/// Issues the memory-write command and raises the selector for the pixel data
/// that follows.
fn open_stream() -> (program: Vec<Step>)
    ensures
        ops(program@) == memory_write_ops(),
{
    let none: [u8; 0] = [];
    assert(none@ =~= Seq::<u8>::empty());
    let mut program: Vec<Step> = write_command(Instruction::RAMWR.code(), &none);
    extend(&mut program, begin_data());
    program
}

} // verus!
