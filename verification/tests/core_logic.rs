//! Behavioral tests of the canvas, the wire codec, the bounded channel, the
//! body scanner, the render helpers and the link bring-up policy.

use doodle_core::canvas::{find_bounding_box, GRID_SIZE};
use doodle_core::channel::CHANNEL_CAPACITY;
use doodle_core::command::{apply_command, decode_record, encode_command};
use doodle_core::json::parse_pixel_body;
use doodle_core::link::{link_start, link_step, LinkAction, LinkEvent, LinkState};
use doodle_core::render::{display_points, drain_all, drain_step};
use doodle_core::{Canvas, Command, PixelChannel};

fn assert_all_off(c: &Canvas) {
    for y in 0..GRID_SIZE as u8 {
        for x in 0..GRID_SIZE as u8 {
            assert!(!c.get(x, y));
        }
    }
}

#[test]
fn pixel_on_cleared_canvas_sets_exactly_one_cell() {
    for &(x, y, state) in &[(0u8, 0u8, true), (47, 47, true), (10, 5, true), (3, 40, false)] {
        let mut c = Canvas::new();
        let applied = c.set(x, y, state);
        assert!(applied);
        for yy in 0..GRID_SIZE as u8 {
            for xx in 0..GRID_SIZE as u8 {
                if (xx, yy) == (x, y) {
                    assert_eq!(c.get(xx, yy), state);
                } else {
                    assert!(!c.get(xx, yy));
                }
            }
        }
    }
}

#[test]
fn out_of_range_pixel_is_rejected_and_canvas_unchanged() {
    let mut c = Canvas::new();
    c.set(1, 2, true);
    for &(x, y) in &[(48u8, 0u8), (0, 48), (48, 48), (255, 0), (0, 255), (200, 200)] {
        let applied = c.set(x, y, true);
        assert!(!applied);
    }
    // Only the one original cell is set.
    for yy in 0..GRID_SIZE as u8 {
        for xx in 0..GRID_SIZE as u8 {
            assert_eq!(c.get(xx, yy), (xx, yy) == (1, 2));
        }
    }
}

#[test]
fn clear_resets_every_cell_and_is_idempotent() {
    let mut c = Canvas::new();
    for &(x, y) in &[(0u8, 0u8), (47, 47), (12, 34)] {
        c.set(x, y, true);
    }
    c.clear();
    assert_all_off(&c);
    // Clearing an already-clear canvas keeps every cell off.
    c.clear();
    assert_all_off(&c);
}

#[test]
fn encode_decode_round_trip_over_valid_domain() {
    for x in 0..GRID_SIZE as u8 {
        for y in 0..GRID_SIZE as u8 {
            for &state in &[false, true] {
                let cmd = Command::Pixel { x, y, state };
                let (b0, b1, b2) = encode_command(&cmd);
                assert_eq!(decode_record(b0, b1, b2), Some(cmd));
            }
        }
    }
    let (b0, b1, b2) = encode_command(&Command::Clear);
    assert_eq!((b0, b1, b2), (255, 255, 2));
    assert_eq!(decode_record(b0, b1, b2), Some(Command::Clear));
}

#[test]
fn decode_rejects_out_of_range_records() {
    assert_eq!(decode_record(48, 0, 1), None);
    assert_eq!(decode_record(0, 48, 0), None);
    assert_eq!(decode_record(255, 255, 1), None);
    assert_eq!(decode_record(255, 254, 2), None);
    // A nonzero, non-1 state byte means "off" for an in-range record.
    assert_eq!(decode_record(3, 4, 7), Some(Command::Pixel { x: 3, y: 4, state: false }));
}

#[test]
fn apply_command_clear_and_pixel() {
    let mut c = Canvas::new();
    assert!(apply_command(&mut c, &Command::Pixel { x: 9, y: 8, state: true }));
    assert!(c.get(9, 8));
    assert!(!apply_command(&mut c, &Command::Pixel { x: 99, y: 8, state: true }));
    assert!(c.get(9, 8));
    assert!(apply_command(&mut c, &Command::Clear));
    assert_all_off(&c);
}

#[test]
fn channel_is_fifo() {
    let mut ch = PixelChannel::new();
    ch.write(1, 2, 1);
    ch.write(3, 4, 0);
    ch.write(255, 255, 2);
    assert_eq!(ch.try_read(), Some((1, 2, 1)));
    assert_eq!(ch.try_read(), Some((3, 4, 0)));
    assert_eq!(ch.try_read(), Some((255, 255, 2)));
    assert_eq!(ch.try_read(), None);
}

#[test]
fn channel_at_capacity_drops_exactly_one_oldest_write() {
    let mut ch = PixelChannel::new();
    for i in 0..CHANNEL_CAPACITY as u8 {
        let dropped = ch.write(i, i, 1);
        assert!(!dropped);
    }
    assert_eq!(ch.len(), CHANNEL_CAPACITY);
    let dropped = ch.write(40, 41, 0);
    assert!(dropped);
    assert_eq!(ch.len(), CHANNEL_CAPACITY);
    // The oldest record (0, 0, 1) is gone; all retained writes come out in
    // producer order, the new one last.
    for i in 1..CHANNEL_CAPACITY as u8 {
        assert_eq!(ch.try_read(), Some((i, i, 1)));
    }
    assert_eq!(ch.try_read(), Some((40, 41, 0)));
    assert_eq!(ch.try_read(), None);
}

#[test]
fn pixel_body_scanner_accepts_the_schema() {
    assert_eq!(
        parse_pixel_body(b"{\"x\":10,\"y\":5,\"state\":true}"),
        Some((10, 5, true))
    );
    assert_eq!(
        parse_pixel_body(b"  { \"y\" : 5 , \"state\" : false , \"x\" : 47 }  "),
        Some((47, 5, false))
    );
    assert_eq!(parse_pixel_body(b"{\"x\":60,\"y\":5,\"state\":true}"), Some((60, 5, true)));
    assert_eq!(parse_pixel_body(b"{x:1,y:2,state:true}"), Some((1, 2, true)));
}

#[test]
fn pixel_body_scanner_rejects_malformed_bodies() {
    assert_eq!(parse_pixel_body(b""), None);
    assert_eq!(parse_pixel_body(b"{}"), None);
    assert_eq!(parse_pixel_body(b"{\"x\":1,\"y\":2}"), None);
    assert_eq!(parse_pixel_body(b"\"x\":1,\"y\":2,\"state\":true"), None);
    assert_eq!(parse_pixel_body(b"{\"x\":a,\"y\":2,\"state\":true}"), None);
    assert_eq!(parse_pixel_body(b"{\"x\":1,\"y\":2,\"state\":yes}"), None);
    assert_eq!(parse_pixel_body(b"{\"x\":999,\"y\":2,\"state\":true}"), None);
    assert_eq!(parse_pixel_body(b"{\"x\" 1,\"y\":2,\"state\":true}"), None);
}

#[test]
fn find_bounding_box_of_empty_canvas_is_none() {
    let c = Canvas::new();
    assert_eq!(find_bounding_box(&c), None);
}

#[test]
fn find_bounding_box_is_tight() {
    let mut c = Canvas::new();
    c.set(5, 3, true);
    c.set(10, 7, true);
    c.set(7, 12, true);
    assert_eq!(find_bounding_box(&c), Some((5, 10, 3, 12)));
    let mut single = Canvas::new();
    single.set(47, 0, true);
    assert_eq!(find_bounding_box(&single), Some((47, 47, 0, 0)));
}

#[test]
fn drain_step_on_empty_channel_reports_no_change() {
    let mut ch = PixelChannel::new();
    let mut c = Canvas::new();
    assert!(!drain_step(&mut ch, &mut c));
    assert_all_off(&c);
}

#[test]
fn drain_applies_records_in_order() {
    let mut ch = PixelChannel::new();
    let mut c = Canvas::new();
    ch.write(4, 4, 1);
    assert!(drain_step(&mut ch, &mut c));
    assert!(c.get(4, 4));
    ch.write(4, 4, 0);
    ch.write(6, 6, 1);
    assert!(drain_all(&mut ch, &mut c));
    assert!(!c.get(4, 4));
    assert!(c.get(6, 6));
    assert_eq!(ch.try_read(), None);
}

#[test]
fn display_points_offsets_and_keeps_on_cells() {
    let mut c = Canvas::new();
    c.set(0, 0, true);
    c.set(47, 47, true);
    let pts = display_points(&c);
    assert_eq!(pts.len(), 2);
    assert!(pts.contains(&(0, 16)));
    assert!(pts.contains(&(47, 63)));
}

#[test]
fn link_bring_up_retries_and_reaches_ready() {
    let (s0, a0) = link_start();
    assert_eq!((s0, a0), (LinkState::Joining, LinkAction::Join));
    // Failures retry indefinitely without surfacing an error.
    let mut s = s0;
    for _ in 0..4 {
        let (s1, a1) = link_step(s, LinkEvent::JoinFailed);
        assert_eq!((s1, a1), (LinkState::Joining, LinkAction::BackoffThenJoin));
        s = s1;
    }
    let (s, a) = link_step(s, LinkEvent::JoinOk);
    assert_eq!(a, LinkAction::AwaitLinkUp);
    let (s, a) = link_step(s, LinkEvent::LinkBecameUp);
    assert_eq!((s, a), (LinkState::LinkUp, LinkAction::AwaitAddress));
    let (s, a) = link_step(s, LinkEvent::AddressConfigured);
    assert_eq!((s, a), (LinkState::AddressAssigned, LinkAction::SignalReady));
    let (s, a) = link_step(s, LinkEvent::JoinOk);
    assert_eq!((s, a), (LinkState::AddressAssigned, LinkAction::Idle));
}

#[test]
fn pixel_body_scanner_lets_a_later_duplicate_key_win() {
    assert_eq!(
        parse_pixel_body(b"{\"x\":1,\"x\":2,\"y\":0,\"state\":true}"),
        Some((2, 0, true))
    );
}
