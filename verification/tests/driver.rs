use beacons::amoled::Rm690B0;
use beacons::bus::{BusAction, BusWrite, LineWidth};
use beacons::geometry::{Pixel, Rect, Rgb};

fn solid(v: u8, n: usize) -> Vec<Rgb> {
    vec![Rgb { r: v, g: v, b: v }; n]
}

fn write_at(plan: &[BusAction], i: usize) -> &BusWrite {
    match &plan[i] {
        BusAction::Write(w) => w,
        other => panic!("expected a write at index {i}, got {other:?}"),
    }
}

#[test]
fn fill_gray_rectangle_windows_and_bytes() {
    let mut panel = Rm690B0::new();
    let area = Rect { x: 100, y: 10, width: 30, height: 16 };
    let colors = solid(0x10, 480);
    let plan = panel.fill_contiguous(&area, &colors);

    // Column request [100,129] is already even/odd aligned; offset to [116,145].
    let col = write_at(&plan, 0);
    assert_eq!(col.bytes, vec![0x02, 0x00, 0x2A, 0x00, 0x00, 116, 0x00, 145]);
    assert_eq!(col.width, LineWidth::Single);
    assert!(!col.keep_cs);

    // Row request [10,25] is already aligned and carries no offset.
    let row = write_at(&plan, 1);
    assert_eq!(row.bytes, vec![0x02, 0x00, 0x2B, 0x00, 0x00, 10, 0x00, 25]);

    // Memory-write command opens RAM-write mode, then the locked burst.
    assert_eq!(write_at(&plan, 2).bytes, vec![0x02, 0x00, 0x2C, 0x00]);
    assert!(matches!(plan[3], BusAction::AcquireBus));
    let header = write_at(&plan, 4);
    assert_eq!(header.bytes, vec![0x32, 0x00, 0x2C, 0x00]);
    assert_eq!(header.width, LineWidth::Single);
    assert!(header.keep_cs);

    // 1440 pixel bytes arrive in 23 chunks of at most 64 bytes, quad lane,
    // all holding chip-select except the last, every byte the gray level.
    let mut total = 0usize;
    for i in 5..28 {
        let w = write_at(&plan, i);
        assert_eq!(w.width, LineWidth::Quad);
        assert_eq!(w.keep_cs, i < 27);
        assert!(w.bytes.iter().all(|&b| b == 0x10));
        total += w.bytes.len();
    }
    assert_eq!(total, 3 * 30 * 16);

    assert!(matches!(plan[28], BusAction::ReleaseBus));
    assert_eq!(write_at(&plan, 29).bytes, vec![0x32, 0x00, 0x00, 0x00]);
    assert_eq!(write_at(&plan, 30).bytes, vec![0x02, 0x00, 0x29, 0x00]);
    assert_eq!(plan.len(), 31);
}

#[test]
fn corner_point_expands_to_aligned_window() {
    let mut panel = Rm690B0::new();
    let pts = vec![Pixel { x: 449, y: 599, color: Rgb { r: 255, g: 0, b: 0 } }];
    let plan = panel.draw_iter(&pts);

    // Row request [599,599] aligns to [598,599].
    let row = write_at(&plan, 0);
    assert_eq!(row.bytes, vec![0x02, 0x00, 0x2B, 0x00, 0x02, 0x56, 0x02, 0x57]);

    // Column request [449,449] aligns to [448,449], offset to [464,465].
    let col = write_at(&plan, 1);
    assert_eq!(col.bytes, vec![0x02, 0x00, 0x2A, 0x00, 0x01, 0xD0, 0x01, 0xD1]);

    // Only the three caller-requested color bytes are streamed, even though
    // the aligned hardware window covers a 2-by-2 block.
    assert_eq!(write_at(&plan, 2).bytes, vec![0x02, 0x00, 0x2C, 0x00]);
    assert!(matches!(plan[3], BusAction::AcquireBus));
    assert!(write_at(&plan, 4).keep_cs);
    let chunk = write_at(&plan, 5);
    assert_eq!(chunk.bytes, vec![255, 0, 0]);
    assert_eq!(chunk.width, LineWidth::Quad);
    assert!(!chunk.keep_cs);
    assert!(matches!(plan[6], BusAction::ReleaseBus));
    assert_eq!(write_at(&plan, 7).bytes, vec![0x32, 0x00, 0x00, 0x00]);
    assert_eq!(write_at(&plan, 8).bytes, vec![0x02, 0x00, 0x29, 0x00]);
    assert_eq!(plan.len(), 9);
}

#[test]
fn points_off_the_panel_are_skipped() {
    let mut panel = Rm690B0::new();
    let red = Rgb { r: 255, g: 0, b: 0 };
    let pts = vec![
        Pixel { x: 450, y: 10, color: red },
        Pixel { x: 10, y: 600, color: red },
        Pixel { x: -1, y: 10, color: red },
        Pixel { x: 10, y: -1, color: red },
    ];
    let plan = panel.draw_iter(&pts);
    assert!(plan.is_empty());
}

#[test]
fn fill_clips_to_panel_width_before_alignment() {
    let mut panel = Rm690B0::new();
    let area = Rect { x: 440, y: 10, width: 20, height: 16 };
    let colors = solid(0x55, 320);
    let plan = panel.fill_contiguous(&area, &colors);

    // Columns clip to [440,449], align unchanged, offset to [456,465].
    let col = write_at(&plan, 0);
    assert_eq!(col.bytes, vec![0x02, 0x00, 0x2A, 0x00, 0x01, 0xC8, 0x01, 0xD1]);
    let row = write_at(&plan, 1);
    assert_eq!(row.bytes, vec![0x02, 0x00, 0x2B, 0x00, 0x00, 10, 0x00, 25]);

    // Only the clipped 10-by-16 pixels are streamed: 480 bytes.
    let total: usize = plan
        .iter()
        .filter_map(|a| match a {
            BusAction::Write(w) if w.width == LineWidth::Quad => Some(w.bytes.len()),
            _ => None,
        })
        .sum();
    assert_eq!(total, 3 * 10 * 16);
}

#[test]
fn fill_outside_the_panel_plans_nothing() {
    let mut panel = Rm690B0::new();
    let colors = solid(0x10, 64);
    let right = Rect { x: 500, y: 10, width: 20, height: 20 };
    assert!(panel.fill_contiguous(&right, &colors).is_empty());
    let above = Rect { x: 10, y: -40, width: 20, height: 20 };
    assert!(panel.fill_contiguous(&above, &colors).is_empty());
    let empty = Rect { x: 10, y: 10, width: 0, height: 20 };
    assert!(panel.fill_contiguous(&empty, &colors).is_empty());
}

#[test]
fn identical_fills_produce_identical_plans() {
    let mut panel = Rm690B0::new();
    let area = Rect { x: 3, y: 7, width: 13, height: 5 };
    let colors = solid(0xAB, 100);
    let first = panel.fill_contiguous(&area, &colors);
    let second = panel.fill_contiguous(&area, &colors);
    assert_eq!(first, second);
}

#[test]
fn short_color_source_is_streamed_whole() {
    let mut panel = Rm690B0::new();
    let area = Rect { x: 2, y: 2, width: 2, height: 2 };
    let colors = solid(0x11, 3);
    let plan = panel.fill_contiguous(&area, &colors);
    let total: usize = plan
        .iter()
        .filter_map(|a| match a {
            BusAction::Write(w) if w.width == LineWidth::Quad => Some(w.bytes.len()),
            _ => None,
        })
        .sum();
    assert_eq!(total, 9);
}

#[test]
fn empty_stream_is_a_single_chunk_without_lock() {
    let mut panel = Rm690B0::new();
    let plan = panel.write_pixels(&[]);
    assert_eq!(plan.len(), 4);
    assert!(plan.iter().all(|a| matches!(a, BusAction::Write(_))));
    let header = write_at(&plan, 1);
    assert_eq!(header.bytes, vec![0x32, 0x00, 0x2C, 0x00]);
    assert!(!header.keep_cs);
}

#[test]
fn exact_chunk_boundary_releases_after_one_chunk() {
    let mut panel = Rm690B0::new();
    let plan = panel.write_pixels(&[0x7Fu8; 64]);
    // Command, acquire, header, one full chunk, release, idle, refresh.
    assert_eq!(plan.len(), 7);
    assert!(matches!(plan[1], BusAction::AcquireBus));
    let chunk = write_at(&plan, 3);
    assert_eq!(chunk.bytes.len(), 64);
    assert!(!chunk.keep_cs);
    assert!(matches!(plan[4], BusAction::ReleaseBus));
}

#[test]
fn one_byte_over_the_boundary_adds_a_chunk() {
    let mut panel = Rm690B0::new();
    let plan = panel.write_pixels(&[0x7Fu8; 65]);
    assert_eq!(plan.len(), 8);
    let first = write_at(&plan, 3);
    assert_eq!(first.bytes.len(), 64);
    assert!(first.keep_cs);
    let last = write_at(&plan, 4);
    assert_eq!(last.bytes.len(), 1);
    assert!(!last.keep_cs);
    assert!(matches!(plan[5], BusAction::ReleaseBus));
}

#[test]
fn lock_actions_are_paired_in_every_plan() {
    let mut panel = Rm690B0::new();
    for n in [0usize, 1, 63, 64, 65, 128, 1000] {
        let plan = panel.write_pixels(&vec![0x33u8; n]);
        let acquires = plan.iter().filter(|a| matches!(a, BusAction::AcquireBus)).count();
        let releases = plan.iter().filter(|a| matches!(a, BusAction::ReleaseBus)).count();
        let expected = if n > 0 { 1 } else { 0 };
        assert_eq!(acquires, expected);
        assert_eq!(releases, expected);
    }
}

#[test]
fn all_pixels_commands_are_framed() {
    let mut panel = Rm690B0::new();
    let on = panel.all_pixels(true);
    assert_eq!(on.bytes, vec![0x02, 0x00, 0x23, 0x00]);
    assert_eq!(on.width, LineWidth::Single);
    assert!(!on.keep_cs);
    let off = panel.all_pixels(false);
    assert_eq!(off.bytes, vec![0x02, 0x00, 0x22, 0x00]);
}

#[test]
fn single_even_column_expands_to_its_block() {
    let mut panel = Rm690B0::new();
    // A one-pixel range at an even coordinate grows to its whole 2-wide
    // block: the aligned window contains the request and never inverts.
    let w = panel.set_column_range(2, 2);
    assert_eq!(w.bytes, vec![0x02, 0x00, 0x2A, 0x00, 0x00, 18, 0x00, 19]);
}

#[test]
fn zero_edge_point_is_drawable() {
    let mut panel = Rm690B0::new();
    let pts = vec![Pixel { x: 0, y: 0, color: Rgb { r: 1, g: 2, b: 3 } }];
    let plan = panel.draw_iter(&pts);
    // Row request [0,0] aligns to [0,1]; column request [0,0] aligns to
    // [0,1], offset to [16,17].
    let row = write_at(&plan, 0);
    assert_eq!(row.bytes, vec![0x02, 0x00, 0x2B, 0x00, 0x00, 0, 0x00, 1]);
    let col = write_at(&plan, 1);
    assert_eq!(col.bytes, vec![0x02, 0x00, 0x2A, 0x00, 0x00, 16, 0x00, 17]);
    let chunk = write_at(&plan, 5);
    assert_eq!(chunk.bytes, vec![1, 2, 3]);
}

#[test]
fn unaligned_fill_streams_the_aligned_window_count() {
    let mut panel = Rm690B0::new();
    // The clipped rectangle [1,1] x [2,3] aligns to a 2-by-2 window, so with
    // enough source colors the fill streams all four pixels' bytes.
    let area = Rect { x: 1, y: 2, width: 1, height: 2 };
    let colors = solid(0x42, 4);
    let plan = panel.fill_contiguous(&area, &colors);
    let col = write_at(&plan, 0);
    assert_eq!(col.bytes, vec![0x02, 0x00, 0x2A, 0x00, 0x00, 16, 0x00, 17]);
    let row = write_at(&plan, 1);
    assert_eq!(row.bytes, vec![0x02, 0x00, 0x2B, 0x00, 0x00, 2, 0x00, 3]);
    let total: usize = plan
        .iter()
        .filter_map(|a| match a {
            BusAction::Write(w) if w.width == LineWidth::Quad => Some(w.bytes.len()),
            _ => None,
        })
        .sum();
    assert_eq!(total, 3 * 2 * 2);
}
