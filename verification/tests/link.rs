//! The link protocol: session collection, completion and resync, and the
//! secondary's reply.

use splitkb::comms::{reply_frame, ComLink};
use splitkb::encoding::encode;

#[test]
fn fresh_link_is_idle() {
    let link: ComLink<4> = ComLink::new();
    assert!(!link.awaiting());
}

#[test]
fn one_full_session_returns_the_frame() {
    let mut link: ComLink<4> = ComLink::new();
    // Request deadline: idle, so no flush happened; send the request.
    let send = link.tick(None);
    assert!(send);
    link.request_sent(true);
    assert!(link.awaiting());
    // Reply arrives one byte per cycle.
    assert_eq!(link.poll(Some(0x11)), None);
    assert_eq!(link.poll(None), None);
    assert_eq!(link.poll(Some(0x22)), None);
    assert_eq!(link.poll(Some(0x33)), None);
    let frame = link.poll(Some(0x44));
    assert_eq!(frame, Some([0x11, 0x22, 0x33, 0x44]));
    // Completion resets the session.
    assert!(!link.awaiting());
}

#[test]
fn failed_request_write_stays_idle() {
    let mut link: ComLink<4> = ComLink::new();
    let send = link.tick(None);
    assert!(send);
    link.request_sent(false);
    assert!(!link.awaiting());
}

#[test]
fn stalled_session_resyncs_on_next_deadline() {
    let mut link: ComLink<4> = ComLink::new();
    assert!(link.tick(None));
    link.request_sent(true);
    // Two bytes of a frame that never completes.
    assert_eq!(link.poll(Some(0xAA)), None);
    assert_eq!(link.poll(Some(0xBB)), None);
    // Next deadline: awaiting, so the caller flushed; the partial frame is
    // discarded and a fresh session collects a clean frame.
    assert!(link.awaiting());
    let send = link.tick(Some(true));
    assert!(send);
    link.request_sent(true);
    assert_eq!(link.poll(Some(1)), None);
    assert_eq!(link.poll(Some(2)), None);
    assert_eq!(link.poll(Some(3)), None);
    assert_eq!(link.poll(Some(4)), Some([1, 2, 3, 4]));
}

#[test]
fn failed_flush_abandons_the_deadline() {
    let mut link: ComLink<4> = ComLink::new();
    assert!(link.tick(None));
    link.request_sent(true);
    assert_eq!(link.poll(Some(0xAA)), None);
    // The flush failed: no request goes out, the session stays as it was
    // and the partial fill is kept for the next deadline.
    let send = link.tick(Some(false));
    assert!(!send);
    assert!(link.awaiting());
    // The reply still completes from where it left off.
    assert_eq!(link.poll(Some(2)), None);
    assert_eq!(link.poll(Some(3)), None);
    assert_eq!(link.poll(Some(4)), Some([0xAA, 2, 3, 4]));
}

#[test]
fn single_byte_frames_complete_at_once() {
    let mut link: ComLink<1> = ComLink::new();
    assert!(link.tick(None));
    link.request_sent(true);
    assert_eq!(link.poll(Some(0x5A)), Some([0x5A]));
    assert!(!link.awaiting());
}

#[test]
fn reply_frame_is_the_encoded_scan() {
    let mut grid = [[false; 6]; 5];
    grid[1][2] = true;
    grid[4][0] = true;
    assert_eq!(reply_frame(&Some(grid)), encode(&grid));
}

#[test]
fn reply_frame_without_a_scan_is_all_clear() {
    assert_eq!(reply_frame(&None), [0, 0, 0, 0]);
}
