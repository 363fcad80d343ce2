//! Driver for the RM690B0 AMOLED panel controller: 450 columns by 600 rows,
//! driven over a shared multi-lane serial bus.
//!
//! Every operation is planned rather than performed: a method returns the
//! exact sequence of bus transfers, lock actions, reset-line changes and
//! delays that the hardware layer must carry out, and its contract pins that
//! sequence down byte for byte. The driver itself holds no framebuffer and no
//! other state — identical requests always yield identical plans — so the
//! receiver is recorded as unchanged by every method.
use vstd::prelude::*;

use crate::bus::{
    lemma_plan_view_add, lemma_plan_view_push, plan_view, ActionModel, BusAction, BusWrite,
    WriteModel,
};
use crate::command::{
    command_only, command_write, spec_command_model, HEADER_QUAD, HEADER_SINGLE,
    OP_ALL_PIXELS_OFF, OP_ALL_PIXELS_ON, OP_BRIGHTNESS, OP_DISPLAY_MODE, OP_DISPLAY_ON,
    OP_MEMORY_WRITE, OP_MIPI_OFF, OP_NOP, OP_PAGE_SELECT, OP_PIXEL_FORMAT, OP_RAM_WRITE_CONFIG,
    OP_SLEEP_OUT, OP_TEARING_EFFECT_OFF,
};
use crate::geometry::{
    color_bytes, lemma_clip_correct, lemma_color_bytes_len, spec_clip_nonempty, spec_clip_x1,
    spec_clip_x2, spec_clip_y1, spec_clip_y2, spec_color_bytes, spec_on_panel, Pixel, Rect, Rgb,
};
use crate::stream::{
    burst_actions, lemma_chunk_writes_reassemble, spec_chunk_writes, spec_write_pixels_actions,
    written_bytes,
};
use crate::window::{
    align_end, align_start, column_command, row_command, spec_align_end, spec_align_start,
    spec_column_command, spec_row_command,
};

verus! {

/// The panel's native extent in columns.
pub const WIDTH: usize = 450;

/// The panel's native extent in rows.
pub const HEIGHT: usize = 600;

/// The brightness the bring-up sequence settles on. The controller accepts up
/// to 0xFF, but the board's regulator is weak, so the driver stays at half.
pub const BRIGHTNESS_TARGET: u8 = 0x80;

/// One step of the bring-up sequence: a change of the reset line, a timed
/// wait, or one framed command transaction.
#[derive(Debug, PartialEq, Eq)]
pub enum InitStep {
    ResetHigh,
    ResetLow,
    DelayMillis(u64),
    Command(BusWrite),
}

/// Mathematical model of an [`InitStep`].
#[verifier::ext_equal]
pub enum InitStepModel {
    ResetHigh,
    ResetLow,
    DelayMillis(u64),
    Command(WriteModel),
}

impl View for InitStep {
    type V = InitStepModel;

    open spec fn view(&self) -> InitStepModel {
        match self {
            InitStep::ResetHigh => InitStepModel::ResetHigh,
            InitStep::ResetLow => InitStepModel::ResetLow,
            InitStep::DelayMillis(ms) => InitStepModel::DelayMillis(*ms),
            InitStep::Command(w) => InitStepModel::Command(w@),
        }
    }
}

/// The model of a whole bring-up plan.
pub open spec fn init_view(steps: Seq<InitStep>) -> Seq<InitStepModel> {
    steps.map_values(|s: InitStep| s@)
}

/// The fixed manufacturer bring-up script, in order: select the
/// configuration page, disable the default MIPI mode, set the RAM-access
/// width, restore the default page, select the 24-bit pixel format, select
/// internally timed display mode, wait, switch the tearing-effect line off,
/// set brightness to zero, leave sleep, wait for the panel to wake, enable
/// display output, wait, and raise brightness to its operating target.
pub open spec fn spec_manufacturer_init_steps() -> Seq<InitStepModel> {
    seq![
        InitStepModel::Command(spec_command_model(HEADER_SINGLE, OP_PAGE_SELECT, seq![0x20u8])),
        InitStepModel::Command(spec_command_model(HEADER_SINGLE, OP_MIPI_OFF, seq![0x0Au8])),
        InitStepModel::Command(
            spec_command_model(HEADER_SINGLE, OP_RAM_WRITE_CONFIG, seq![0x80u8]),
        ),
        InitStepModel::Command(spec_command_model(HEADER_SINGLE, OP_PAGE_SELECT, seq![0x00u8])),
        InitStepModel::Command(spec_command_model(HEADER_SINGLE, OP_PIXEL_FORMAT, seq![0x77u8])),
        InitStepModel::Command(spec_command_model(HEADER_SINGLE, OP_DISPLAY_MODE, seq![0x00u8])),
        InitStepModel::DelayMillis(10),
        InitStepModel::Command(
            spec_command_model(HEADER_SINGLE, OP_TEARING_EFFECT_OFF, Seq::empty()),
        ),
        InitStepModel::Command(spec_command_model(HEADER_SINGLE, OP_BRIGHTNESS, seq![0x00u8])),
        InitStepModel::Command(spec_command_model(HEADER_SINGLE, OP_SLEEP_OUT, Seq::empty())),
        InitStepModel::DelayMillis(120),
        InitStepModel::Command(spec_command_model(HEADER_SINGLE, OP_DISPLAY_ON, Seq::empty())),
        InitStepModel::DelayMillis(10),
        InitStepModel::Command(
            spec_command_model(HEADER_SINGLE, OP_BRIGHTNESS, seq![BRIGHTNESS_TARGET]),
        ),
    ]
}

/// The whole bring-up plan: the timed reset pulse — high, a short settle, a
/// low pulse, then high again with a longer wait — followed by the
/// manufacturer script.
pub open spec fn spec_init_steps() -> Seq<InitStepModel> {
    seq![
        InitStepModel::ResetHigh,
        InitStepModel::DelayMillis(1),
        InitStepModel::ResetLow,
        InitStepModel::DelayMillis(20),
        InitStepModel::ResetHigh,
        InitStepModel::DelayMillis(50),
    ] + spec_manufacturer_init_steps()
}

/// Whether the pixel lies on the panel; only such pixels are drawn.
pub open spec fn spec_point_in_bounds(p: Pixel) -> bool {
    spec_on_panel(p.x as int, p.y as int, WIDTH as int, HEIGHT as int)
}

/// The plan for one drawn pixel: set its one-pixel row and column windows,
/// then stream its three color bytes.
pub open spec fn spec_point_actions(p: Pixel) -> Seq<ActionModel> {
    seq![
        ActionModel::Write(spec_row_command(p.y as int, p.y as int)),
        ActionModel::Write(spec_column_command(p.x as int, p.x as int)),
    ] + spec_write_pixels_actions(seq![p.color.r, p.color.g, p.color.b])
}

/// The plan for a point-draw request: each pixel on the panel contributes its
/// plan in order; pixels off the panel are skipped.
pub open spec fn spec_draw_actions(pts: Seq<Pixel>) -> Seq<ActionModel>
    decreases pts.len(),
{
    if pts.len() == 0 {
        Seq::empty()
    } else {
        (if spec_point_in_bounds(pts[0]) {
            spec_point_actions(pts[0])
        } else {
            Seq::empty()
        }) + spec_draw_actions(pts.skip(1))
    }
}

/// How many pixels the fill's aligned hardware window covers: the clipped
/// rectangle's bounds, aligned outward to block boundaries.
pub open spec fn spec_fill_pixel_count(area: Rect) -> int {
    (spec_align_end(spec_clip_x2(area, WIDTH as int)) - spec_align_start(spec_clip_x1(area)) + 1)
        * (spec_align_end(spec_clip_y2(area, HEIGHT as int)) - spec_align_start(
        spec_clip_y1(area),
    ) + 1)
}

/// The colors a fill streams: the source, truncated to the aligned window's
/// pixel count. Extra source colors are discarded unconsumed; a shorter
/// source is streamed whole and the burst under-fills the window.
pub open spec fn spec_fill_colors(area: Rect, colors: Seq<Rgb>) -> Seq<Rgb> {
    if colors.len() <= spec_fill_pixel_count(area) {
        colors
    } else {
        colors.take(spec_fill_pixel_count(area))
    }
}

/// The plan for a fill request: nothing at all if the clipped rectangle is
/// empty; otherwise the column and row window commands for the clipped
/// bounds, then the pixel write streaming the truncated colors.
pub open spec fn spec_fill_actions(area: Rect, colors: Seq<Rgb>) -> Seq<ActionModel> {
    if !spec_clip_nonempty(area, WIDTH as int, HEIGHT as int) {
        Seq::empty()
    } else {
        seq![
            ActionModel::Write(
                spec_column_command(spec_clip_x1(area), spec_clip_x2(area, WIDTH as int)),
            ),
            ActionModel::Write(
                spec_row_command(spec_clip_y1(area), spec_clip_y2(area, HEIGHT as int)),
            ),
        ] + spec_write_pixels_actions(spec_color_bytes(spec_fill_colors(area, colors)))
    }
}

/// For any fill whose clipped rectangle is nonempty, given enough source
/// colors, the burst's pixel payload is exactly three bytes per pixel of the
/// aligned hardware window: the chunk transfers reassemble to a byte
/// sequence of length three times aligned-window width times aligned-window
/// height.
pub proof fn lemma_fill_pixel_byte_count(area: Rect, colors: Seq<Rgb>)
    requires
        spec_clip_nonempty(area, WIDTH as int, HEIGHT as int),
        colors.len() >= spec_fill_pixel_count(area),
    ensures
        written_bytes(spec_chunk_writes(spec_color_bytes(spec_fill_colors(area, colors))))
            == spec_color_bytes(spec_fill_colors(area, colors)),
        spec_color_bytes(spec_fill_colors(area, colors)).len() == 3 * (spec_align_end(
            spec_clip_x2(area, WIDTH as int),
        ) - spec_align_start(spec_clip_x1(area)) + 1) * (spec_align_end(
            spec_clip_y2(area, HEIGHT as int),
        ) - spec_align_start(spec_clip_y1(area)) + 1),
{
    let w = spec_align_end(spec_clip_x2(area, WIDTH as int)) - spec_align_start(
        spec_clip_x1(area),
    ) + 1;
    let h = spec_align_end(spec_clip_y2(area, HEIGHT as int)) - spec_align_start(
        spec_clip_y1(area),
    ) + 1;
    let picked = spec_fill_colors(area, colors);
    lemma_clip_correct(area, WIDTH as int, HEIGHT as int);
    assert(w >= 1 && h >= 1);
    assert(spec_fill_pixel_count(area) >= 1) by (nonlinear_arith)
        requires
            w >= 1,
            h >= 1,
            spec_fill_pixel_count(area) == w * h,
    ;
    assert(picked.len() == w * h);
    lemma_color_bytes_len(picked);
    lemma_chunk_writes_reassemble(spec_color_bytes(picked));
    assert(3 * (w * h) == 3 * w * h) by (nonlinear_arith);
}

/// The RM690B0 panel driver. It owns no framebuffer and carries no state
/// between calls: each method's plan is a function of its arguments alone.
pub struct Rm690B0 {}

impl Rm690B0 {
    pub fn new() -> (r: Rm690B0) {
        Rm690B0 {}
    }

    /// The fixed manufacturer bring-up command script.
    fn manufacturer_init(&mut self) -> (steps: Vec<InitStep>)
        ensures
            *final(self) == *old(self),
            init_view(steps@) == spec_manufacturer_init_steps(),
    {
        let page_cfg: Vec<u8> = vec![0x20];
        let mipi_off: Vec<u8> = vec![0x0A];
        let ram_cfg: Vec<u8> = vec![0x80];
        let page_dft: Vec<u8> = vec![0x00];
        let pix_fmt: Vec<u8> = vec![0x77];
        let disp_mode: Vec<u8> = vec![0x00];
        let dark: Vec<u8> = vec![0x00];
        let bright: Vec<u8> = vec![BRIGHTNESS_TARGET];
        let steps: Vec<InitStep> = vec![
            InitStep::Command(command_write(HEADER_SINGLE, OP_PAGE_SELECT, page_cfg.as_slice())),
            InitStep::Command(command_write(HEADER_SINGLE, OP_MIPI_OFF, mipi_off.as_slice())),
            InitStep::Command(
                command_write(HEADER_SINGLE, OP_RAM_WRITE_CONFIG, ram_cfg.as_slice()),
            ),
            InitStep::Command(command_write(HEADER_SINGLE, OP_PAGE_SELECT, page_dft.as_slice())),
            InitStep::Command(command_write(HEADER_SINGLE, OP_PIXEL_FORMAT, pix_fmt.as_slice())),
            InitStep::Command(command_write(HEADER_SINGLE, OP_DISPLAY_MODE, disp_mode.as_slice())),
            InitStep::DelayMillis(10),
            InitStep::Command(command_only(HEADER_SINGLE, OP_TEARING_EFFECT_OFF)),
            InitStep::Command(command_write(HEADER_SINGLE, OP_BRIGHTNESS, dark.as_slice())),
            InitStep::Command(command_only(HEADER_SINGLE, OP_SLEEP_OUT)),
            InitStep::DelayMillis(120),
            InitStep::Command(command_only(HEADER_SINGLE, OP_DISPLAY_ON)),
            InitStep::DelayMillis(10),
            InitStep::Command(command_write(HEADER_SINGLE, OP_BRIGHTNESS, bright.as_slice())),
        ];
        assert(page_cfg@ =~= seq![0x20u8]);
        assert(mipi_off@ =~= seq![0x0Au8]);
        assert(ram_cfg@ =~= seq![0x80u8]);
        assert(page_dft@ =~= seq![0x00u8]);
        assert(pix_fmt@ =~= seq![0x77u8]);
        assert(disp_mode@ =~= seq![0x00u8]);
        assert(dark@ =~= seq![0x00u8]);
        assert(bright@ =~= seq![BRIGHTNESS_TARGET]);
        assert(init_view(steps@) =~= spec_manufacturer_init_steps());
        steps
    }

    /// Plan the whole bring-up: drive the timed reset pulse, then issue the
    /// manufacturer script. The device is unusable unless the hardware layer
    /// completes every step.
    pub fn init(&mut self) -> (steps: Vec<InitStep>)
        ensures
            *final(self) == *old(self),
            init_view(steps@) == spec_init_steps(),
    {
        let mut steps: Vec<InitStep> = vec![
            InitStep::ResetHigh,
            InitStep::DelayMillis(1),
            InitStep::ResetLow,
            InitStep::DelayMillis(20),
            InitStep::ResetHigh,
            InitStep::DelayMillis(50),
        ];
        let ghost reset_part = steps@;
        let mut script = self.manufacturer_init();
        let ghost script_part = script@;
        steps.append(&mut script);
        assert(init_view(steps@) =~= init_view(reset_part) + init_view(script_part));
        assert(init_view(steps@) =~= spec_init_steps());
        steps
    }

    /// Frame the command that switches every pixel fully on or back to
    /// normal display.
    pub fn all_pixels(&mut self, on: bool) -> (w: BusWrite)
        ensures
            *final(self) == *old(self),
            w@ == spec_command_model(
                HEADER_SINGLE,
                if on {
                    OP_ALL_PIXELS_ON
                } else {
                    OP_ALL_PIXELS_OFF
                },
                Seq::empty(),
            ),
    {
        if on {
            command_only(HEADER_SINGLE, OP_ALL_PIXELS_ON)
        } else {
            command_only(HEADER_SINGLE, OP_ALL_PIXELS_OFF)
        }
    }

    /// Frame the column-address-set command for the requested inclusive
    /// column range, aligned and moved by the RAM origin offset.
    pub fn set_column_range(&mut self, start: u16, end: u16) -> (w: BusWrite)
        requires
            start <= end,
            end < WIDTH,
        ensures
            *final(self) == *old(self),
            w@ == spec_column_command(start as int, end as int),
    {
        column_command(start, end)
    }

    /// Frame the row-address-set command for the requested inclusive row
    /// range, aligned.
    pub fn set_row_range(&mut self, start: u16, end: u16) -> (w: BusWrite)
        requires
            start <= end,
            end < HEIGHT,
        ensures
            *final(self) == *old(self),
            w@ == spec_row_command(start as int, end as int),
    {
        row_command(start, end)
    }

    /// Plan a pixel write for an already-materialized byte slice.
    pub fn write_pixels(&mut self, pixels: &[u8]) -> (plan: Vec<BusAction>)
        ensures
            *final(self) == *old(self),
            plan_view(plan@) == spec_write_pixels_actions(pixels@),
    {
        self.write_pixels_from_iterator(pixels)
    }

    /// Plan a pixel write: open RAM-write mode, stream the header and the
    /// pixel bytes as a chunked burst under the bus-lock discipline, then
    /// close the burst with the idle command and refresh the display.
    pub fn write_pixels_from_iterator(&mut self, pixels: &[u8]) -> (plan: Vec<BusAction>)
        ensures
            *final(self) == *old(self),
            plan_view(plan@) == spec_write_pixels_actions(pixels@),
    {
        let mut plan: Vec<BusAction> = Vec::new();
        let opening = command_only(HEADER_SINGLE, OP_MEMORY_WRITE);
        proof {
            lemma_plan_view_push(plan@, BusAction::Write(opening));
        }
        plan.push(BusAction::Write(opening));
        let ghost head_part = plan@;
        let mut burst = burst_actions(pixels);
        let ghost burst_part = burst@;
        plan.append(&mut burst);
        proof {
            lemma_plan_view_add(head_part, burst_part);
        }
        let closing = command_only(HEADER_QUAD, OP_NOP);
        proof {
            lemma_plan_view_push(plan@, BusAction::Write(closing));
        }
        plan.push(BusAction::Write(closing));
        let refresh = command_only(HEADER_SINGLE, OP_DISPLAY_ON);
        proof {
            lemma_plan_view_push(plan@, BusAction::Write(refresh));
        }
        plan.push(BusAction::Write(refresh));
        assert(plan_view(plan@) =~= spec_write_pixels_actions(pixels@));
        plan
    }

    /// Plan a point-draw request: pixels off the panel are skipped; each
    /// remaining pixel gets a one-pixel window and its three color bytes.
    #[verifier::loop_isolation(false)]
    pub fn draw_iter(&mut self, pixels: &[Pixel]) -> (plan: Vec<BusAction>)
        ensures
            *final(self) == *old(self),
            plan_view(plan@) == spec_draw_actions(pixels@),
    {
        let mut plan: Vec<BusAction> = Vec::new();
        let mut i: usize = 0;
        proof {
            assert(pixels@.skip(0) =~= pixels@);
        }
        while i < pixels.len()
            invariant
                i <= pixels@.len(),
                *self == *old(self),
                plan_view(plan@) + spec_draw_actions(pixels@.skip(i as int)) == spec_draw_actions(
                    pixels@,
                ),
            decreases pixels@.len() - i,
        {
            let p = pixels[i];
            let ghost rem = pixels@.skip(i as int);
            proof {
                assert(rem[0] == pixels@[i as int]);
                assert(rem.skip(1) =~= pixels@.skip(i as int + 1));
            }
            if 0 <= p.x && p.x < WIDTH as i32 && 0 <= p.y && p.y < HEIGHT as i32 {
                let row = self.set_row_range(p.y as u16, p.y as u16);
                let col = self.set_column_range(p.x as u16, p.x as u16);
                proof {
                    lemma_plan_view_push(plan@, BusAction::Write(row));
                }
                plan.push(BusAction::Write(row));
                proof {
                    lemma_plan_view_push(plan@, BusAction::Write(col));
                }
                plan.push(BusAction::Write(col));
                let rgb: Vec<u8> = vec![p.color.r, p.color.g, p.color.b];
                assert(rgb@ =~= seq![p.color.r, p.color.g, p.color.b]);
                let ghost before = plan@;
                let mut pix = self.write_pixels(rgb.as_slice());
                let ghost pix_part = pix@;
                plan.append(&mut pix);
                proof {
                    lemma_plan_view_add(before, pix_part);
                    assert(plan_view(plan@) + spec_draw_actions(pixels@.skip(i as int + 1))
                        =~= spec_draw_actions(pixels@));
                }
            } else {
                proof {
                    assert(!spec_point_in_bounds(pixels@[i as int]));
                    assert(plan_view(plan@) + spec_draw_actions(pixels@.skip(i as int + 1))
                        =~= spec_draw_actions(pixels@));
                }
            }
            i = i + 1;
        }
        proof {
            assert(pixels@.skip(i as int) =~= Seq::<Pixel>::empty());
            assert(plan_view(plan@) =~= spec_draw_actions(pixels@));
        }
        plan
    }

    /// Plan a fill request: clip the rectangle to the panel (an empty clip
    /// plans nothing), set the clipped column and row windows, and stream the
    /// source colors truncated to the aligned window's pixel count.
    ///
    /// Identical requests always produce identical plans: the driver carries
    /// nothing from one call to the next.
    #[verifier::loop_isolation(false)]
    pub fn fill_contiguous(&mut self, area: &Rect, colors: &[Rgb]) -> (plan: Vec<BusAction>)
        ensures
            *final(self) == *old(self),
            plan_view(plan@) == spec_fill_actions(*area, colors@),
    {
        if area.width == 0 || area.height == 0 {
            let plan: Vec<BusAction> = Vec::new();
            assert(plan_view(plan@) =~= spec_fill_actions(*area, colors@));
            return plan;
        }
        let x = area.x as i64;
        let y = area.y as i64;
        let x_end = x + area.width as i64;
        let y_end = y + area.height as i64;
        if x >= WIDTH as i64 || y >= HEIGHT as i64 || x_end <= 0 || y_end <= 0 {
            let plan: Vec<BusAction> = Vec::new();
            assert(plan_view(plan@) =~= spec_fill_actions(*area, colors@));
            return plan;
        }
        let x1: u16 = if x > 0 {
            x as u16
        } else {
            0
        };
        let x2: u16 = if x_end <= WIDTH as i64 {
            (x_end - 1) as u16
        } else {
            (WIDTH - 1) as u16
        };
        let y1: u16 = if y > 0 {
            y as u16
        } else {
            0
        };
        let y2: u16 = if y_end <= HEIGHT as i64 {
            (y_end - 1) as u16
        } else {
            (HEIGHT - 1) as u16
        };
        assert(x1 as int == spec_clip_x1(*area));
        assert(x2 as int == spec_clip_x2(*area, WIDTH as int));
        assert(y1 as int == spec_clip_y1(*area));
        assert(y2 as int == spec_clip_y2(*area, HEIGHT as int));
        proof {
            lemma_clip_correct(*area, WIDTH as int, HEIGHT as int);
        }
        let ax1 = align_start(x1);
        let ax2 = align_end(x2);
        let ay1 = align_start(y1);
        let ay2 = align_end(y2);
        let w_cols: u16 = ax2 - ax1 + 1;
        let h_rows: u16 = ay2 - ay1 + 1;
        proof {
            assert((w_cols as usize) * (h_rows as usize) <= 270000) by (nonlinear_arith)
                requires
                    w_cols <= 450,
                    h_rows <= 600,
            ;
        }
        let count: usize = w_cols as usize * h_rows as usize;
        proof {
            assert(count == spec_fill_pixel_count(*area)) by (nonlinear_arith)
                requires
                    count == (w_cols as usize) * (h_rows as usize),
                    w_cols as int == spec_align_end(spec_clip_x2(*area, WIDTH as int))
                        - spec_align_start(spec_clip_x1(*area)) + 1,
                    h_rows as int == spec_align_end(spec_clip_y2(*area, HEIGHT as int))
                        - spec_align_start(spec_clip_y1(*area)) + 1,
                    spec_fill_pixel_count(*area) == (spec_align_end(
                        spec_clip_x2(*area, WIDTH as int),
                    ) - spec_align_start(spec_clip_x1(*area)) + 1) * (spec_align_end(
                        spec_clip_y2(*area, HEIGHT as int),
                    ) - spec_align_start(spec_clip_y1(*area)) + 1),
            ;
        }
        let take: usize = if colors.len() <= count {
            colors.len()
        } else {
            count
        };
        let mut picked: Vec<Rgb> = Vec::new();
        let mut j: usize = 0;
        while j < take
            invariant
                j <= take,
                take <= colors@.len(),
                picked@ == colors@.take(j as int),
            decreases take - j,
        {
            picked.push(colors[j]);
            j = j + 1;
            assert(picked@ =~= colors@.take(j as int));
        }
        proof {
            if colors@.len() <= count {
                assert(colors@.take(colors@.len() as int) =~= colors@);
            }
            assert(picked@ == spec_fill_colors(*area, colors@));
        }
        let bytes = color_bytes(picked.as_slice());
        let col = self.set_column_range(x1, x2);
        let row = self.set_row_range(y1, y2);
        let mut plan: Vec<BusAction> = Vec::new();
        proof {
            lemma_plan_view_push(plan@, BusAction::Write(col));
        }
        plan.push(BusAction::Write(col));
        proof {
            lemma_plan_view_push(plan@, BusAction::Write(row));
        }
        plan.push(BusAction::Write(row));
        let ghost head_part = plan@;
        let mut pix = self.write_pixels_from_iterator(bytes.as_slice());
        let ghost pix_part = pix@;
        plan.append(&mut pix);
        proof {
            lemma_plan_view_add(head_part, pix_part);
            assert(plan_view(plan@) =~= spec_fill_actions(*area, colors@));
        }
        plan
    }
}

} // verus!
