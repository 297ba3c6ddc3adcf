//! The animated checkerboard and what producers answer.

use looking_glass_ng::producer::{AnimatedCheckerboard, FrameResult};

type Board = AnimatedCheckerboard<u32>;

fn pixel(pixels: &[u8], w: usize, x: usize, y: usize) -> [u8; 4] {
    let at = 4 * (y * w + x);
    [pixels[at], pixels[at + 1], pixels[at + 2], pixels[at + 3]]
}

#[test]
fn first_frame_of_the_board() {
    let pixels = Board::first_frame();
    assert_eq!(pixels.len(), 256 * 256 * 4);
    assert_eq!(pixel(&pixels, 256, 0, 0), [128, 200, 255, 255]);
    assert_eq!(pixel(&pixels, 256, 31, 31), [128, 200, 255, 255]);
    assert_eq!(pixel(&pixels, 256, 32, 0), [20, 20, 40, 255]);
    assert_eq!(pixel(&pixels, 256, 0, 32), [20, 20, 40, 255]);
    assert_eq!(pixel(&pixels, 256, 32, 32), [128, 200, 255, 255]);
}

#[test]
fn colours_move_with_the_phase() {
    let pixels = Board::generate(64, 32, 1);
    assert_eq!(pixel(&pixels, 64, 0, 0), [20, 20, 40, 255]);
    assert_eq!(pixel(&pixels, 64, 32, 0), [138, 192, 249, 255]);
    let late = Board::generate(64, 32, 23);
    assert_eq!(pixel(&late, 64, 32, 0), [102, 16, 117, 255]);
}

#[test]
fn animation_repeats() {
    assert_eq!(Board::generate(40, 40, 5), Board::generate(40, 40, 29));
    assert_ne!(Board::generate(40, 40, 5), Board::generate(40, 40, 6));
    assert_eq!(Board::generate(8, 8, u64::MAX), Board::generate(8, 8, u64::MAX % 24));
}

#[test]
fn empty_boards() {
    assert!(Board::generate(0, 5, 0).is_empty());
    assert!(Board::generate(5, 0, 0).is_empty());
}

#[test]
fn every_third_request_brings_a_frame() {
    let mut board = Board::new(1);
    assert_eq!(board.size(), (256, 256));
    assert!(board.update().is_none());
    assert!(board.update().is_none());
    let pixels = board.update().unwrap();
    assert_eq!(pixels, Board::generate(256, 256, 1));
    assert!(matches!(board.accept(Some(9)), FrameResult::Updated));
    assert_eq!(*board.texture(), 9);
    assert!(board.update().is_none());
    assert_eq!(board.frame_count, 4);
}

#[test]
fn frame_that_could_not_be_made_changes_nothing() {
    let mut board = Board::new(1);
    assert!(matches!(board.accept(None), FrameResult::Unchanged));
    assert_eq!(*board.texture(), 1);
}

#[test]
fn answers_of_producers() {
    assert!(FrameResult::Updated.is_usable() && FrameResult::Updated.is_renewed());
    assert!(FrameResult::Unchanged.is_usable() && !FrameResult::Unchanged.is_renewed());
    assert!(FrameResult::Resized(1, 2).is_usable() && FrameResult::Resized(1, 2).is_renewed());
    let error = FrameResult::Error("no".to_string());
    assert!(!error.is_usable() && !error.is_renewed());
    assert!(!FrameResult::Finished.is_usable() && !FrameResult::Finished.is_renewed());
}
