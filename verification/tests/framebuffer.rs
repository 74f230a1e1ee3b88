use shaders::framebuffer::{Framebuffer, FAR};

#[test]
fn new_framebuffer_is_black_and_far() {
    let fb = Framebuffer::new(4, 3);
    assert_eq!(fb.width(), 4);
    assert_eq!(fb.height(), 3);
    assert_eq!(fb.buffer().len(), 12);
    assert!(fb.buffer().iter().all(|&c| c == 0));
    for y in 0..3 {
        for x in 0..4 {
            assert_eq!(fb.depth_at(x, y), FAR);
            assert_eq!(fb.color_at(x, y), 0);
        }
    }
}

#[test]
fn empty_framebuffer() {
    let mut fb = Framebuffer::new(0, 5);
    fb.clear();
    assert_eq!(fb.buffer().len(), 0);
}

#[test]
fn point_writes_the_current_color_row_major() {
    let mut fb = Framebuffer::new(4, 3);
    fb.set_current_color(0xABCDEF);
    fb.point(1, 2, 100);
    assert_eq!(fb.buffer()[2 * 4 + 1], 0xABCDEF);
    assert_eq!(fb.color_at(1, 2), 0xABCDEF);
    assert_eq!(fb.depth_at(1, 2), 100);
    assert_eq!(fb.buffer().iter().filter(|&&c| c != 0).count(), 1);
}

#[test]
fn default_draw_color_is_white() {
    let mut fb = Framebuffer::new(2, 2);
    fb.point(0, 0, 0);
    assert_eq!(fb.color_at(0, 0), 0xFFFFFF);
}

#[test]
fn nearer_write_wins_and_farther_is_ignored() {
    let mut fb = Framebuffer::new(2, 2);
    fb.set_current_color(1);
    fb.point(1, 1, 500);
    fb.set_current_color(2);
    fb.point(1, 1, 900);
    assert_eq!(fb.color_at(1, 1), 1);
    assert_eq!(fb.depth_at(1, 1), 500);
    fb.set_current_color(3);
    fb.point(1, 1, 499);
    assert_eq!(fb.color_at(1, 1), 3);
    assert_eq!(fb.depth_at(1, 1), 499);
}

#[test]
fn depth_tie_keeps_the_first_write() {
    let mut fb = Framebuffer::new(2, 2);
    fb.set_current_color(1);
    fb.point(0, 1, 500);
    fb.set_current_color(2);
    fb.point(0, 1, 500);
    assert_eq!(fb.color_at(0, 1), 1);
    assert_eq!(fb.depth_at(0, 1), 500);
}

#[test]
fn write_at_the_far_depth_is_ignored() {
    let mut fb = Framebuffer::new(1, 1);
    fb.set_current_color(7);
    fb.point(0, 0, FAR);
    assert_eq!(fb.color_at(0, 0), 0);
    fb.point(0, 0, FAR - 1);
    assert_eq!(fb.color_at(0, 0), 7);
    fb.point(0, 0, i32::MIN);
    assert_eq!(fb.depth_at(0, 0), i32::MIN);
}

#[test]
fn stored_depth_is_the_least_accepted() {
    let mut fb = Framebuffer::new(3, 1);
    let depths = [40, 70, 30, 30, 90, 10, 20];
    let mut least = FAR;
    for (i, d) in depths.iter().enumerate() {
        fb.set_current_color(i as u32 + 1);
        let before = fb.depth_at(2, 0);
        fb.point(2, 0, *d);
        let after = fb.depth_at(2, 0);
        assert!(after <= before);
        if *d < least {
            least = *d;
            assert_eq!(fb.color_at(2, 0), i as u32 + 1);
        }
        assert_eq!(after, least);
    }
    assert_eq!(fb.color_at(2, 0), 6);
    assert_eq!(fb.depth_at(0, 0), FAR);
}

#[test]
fn clear_fills_background_and_far() {
    let mut fb = Framebuffer::new(3, 2);
    fb.set_background_color(0x333355);
    fb.set_current_color(0x112233);
    fb.point(2, 1, -4);
    fb.clear();
    assert!(fb.buffer().iter().all(|&c| c == 0x333355));
    for y in 0..2 {
        for x in 0..3 {
            assert_eq!(fb.depth_at(x, y), FAR);
        }
    }
    fb.point(2, 1, 5);
    assert_eq!(fb.color_at(2, 1), 0x112233);
}

#[test]
fn clear_twice_is_clear_once() {
    let mut fb = Framebuffer::new(3, 2);
    fb.set_background_color(0x333355);
    fb.point(1, 1, 9);
    fb.clear();
    let colors: Vec<u32> = fb.buffer().clone();
    let depths: Vec<i32> = (0..6).map(|i| fb.depth_at(i % 3, i / 3)).collect();
    fb.clear();
    assert_eq!(fb.buffer(), &colors);
    let again: Vec<i32> = (0..6).map(|i| fb.depth_at(i % 3, i / 3)).collect();
    assert_eq!(again, depths);
}
