use beacons::amoled::{InitStep, Rm690B0};
use beacons::bus::BusWrite;
use beacons::command::{command_only, command_write};
use beacons::window::{align_end, align_start, column_command, row_command};

fn init_cmd(steps: &[InitStep], i: usize) -> &BusWrite {
    match &steps[i] {
        InitStep::Command(w) => w,
        other => panic!("expected a command at step {i}, got {other:?}"),
    }
}

#[test]
fn command_framing_echoes_the_opcode() {
    let w = command_write(0x02, 0xFE, &[0x20]);
    assert_eq!(w.bytes, vec![0x02, 0x00, 0xFE, 0x00, 0x20]);
    assert!(!w.keep_cs);
}

#[test]
fn parameterless_command_is_four_bytes() {
    let w = command_only(0x32, 0x00);
    assert_eq!(w.bytes, vec![0x32, 0x00, 0x00, 0x00]);
}

#[test]
fn alignment_rounds_outward_to_block_boundaries() {
    assert_eq!(align_start(100), 100);
    assert_eq!(align_start(101), 100);
    assert_eq!(align_start(0), 0);
    assert_eq!(align_end(129), 129);
    assert_eq!(align_end(130), 131);
    assert_eq!(align_end(1), 1);
    assert_eq!(align_end(0), 1);
}

#[test]
fn column_window_carries_the_ram_offset() {
    let w = column_command(0, 449);
    assert_eq!(w.bytes, vec![0x02, 0x00, 0x2A, 0x00, 0x00, 16, 0x01, 0xD1]);
}

#[test]
fn row_window_carries_no_offset() {
    let w = row_command(0, 599);
    assert_eq!(w.bytes, vec![0x02, 0x00, 0x2B, 0x00, 0x00, 0x00, 0x02, 0x57]);
}

#[test]
fn bring_up_script_is_byte_exact() {
    let mut panel = Rm690B0::new();
    let steps = panel.init();
    assert_eq!(steps.len(), 20);

    assert_eq!(steps[0], InitStep::ResetHigh);
    assert_eq!(steps[1], InitStep::DelayMillis(1));
    assert_eq!(steps[2], InitStep::ResetLow);
    assert_eq!(steps[3], InitStep::DelayMillis(20));
    assert_eq!(steps[4], InitStep::ResetHigh);
    assert_eq!(steps[5], InitStep::DelayMillis(50));

    assert_eq!(init_cmd(&steps, 6).bytes, vec![0x02, 0x00, 0xFE, 0x00, 0x20]);
    assert_eq!(init_cmd(&steps, 7).bytes, vec![0x02, 0x00, 0x26, 0x00, 0x0A]);
    assert_eq!(init_cmd(&steps, 8).bytes, vec![0x02, 0x00, 0x24, 0x00, 0x80]);
    assert_eq!(init_cmd(&steps, 9).bytes, vec![0x02, 0x00, 0xFE, 0x00, 0x00]);
    assert_eq!(init_cmd(&steps, 10).bytes, vec![0x02, 0x00, 0x3A, 0x00, 0x77]);
    assert_eq!(init_cmd(&steps, 11).bytes, vec![0x02, 0x00, 0xC2, 0x00, 0x00]);
    assert_eq!(steps[12], InitStep::DelayMillis(10));
    assert_eq!(init_cmd(&steps, 13).bytes, vec![0x02, 0x00, 0x34, 0x00]);
    assert_eq!(init_cmd(&steps, 14).bytes, vec![0x02, 0x00, 0x51, 0x00, 0x00]);
    assert_eq!(init_cmd(&steps, 15).bytes, vec![0x02, 0x00, 0x11, 0x00]);
    assert_eq!(steps[16], InitStep::DelayMillis(120));
    assert_eq!(init_cmd(&steps, 17).bytes, vec![0x02, 0x00, 0x29, 0x00]);
    assert_eq!(steps[18], InitStep::DelayMillis(10));
    assert_eq!(init_cmd(&steps, 19).bytes, vec![0x02, 0x00, 0x51, 0x00, 0x80]);
}
