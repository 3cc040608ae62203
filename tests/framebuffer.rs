use planet_render::framebuffer::{Framebuffer, FAR_DEPTH};

#[test]
fn nearer_fragment_wins_when_written_first() {
    let mut fb = Framebuffer::new(4, 3);
    fb.test_and_write(1, 2, 5, 0x00ff00);
    fb.test_and_write(1, 2, 10, 0xff0000);
    assert_eq!(fb.color_at(1, 2), Some(0x00ff00));
    assert_eq!(fb.depth_at(1, 2), Some(5));
}

#[test]
fn nearer_fragment_wins_when_written_second() {
    let mut fb = Framebuffer::new(4, 3);
    fb.test_and_write(1, 2, 10, 0xff0000);
    fb.test_and_write(1, 2, 5, 0x00ff00);
    assert_eq!(fb.color_at(1, 2), Some(0x00ff00));
    assert_eq!(fb.depth_at(1, 2), Some(5));
}

#[test]
fn equal_depth_keeps_the_first_write() {
    let mut fb = Framebuffer::new(2, 2);
    fb.test_and_write(0, 0, 7, 0x111111);
    fb.test_and_write(0, 0, 7, 0x222222);
    assert_eq!(fb.color_at(0, 0), Some(0x111111));
}

#[test]
fn writes_outside_the_buffer_are_dropped() {
    let mut fb = Framebuffer::new(4, 3);
    fb.test_and_write(4, 0, 1, 0xffffff);
    fb.test_and_write(0, 3, 1, 0xffffff);
    assert_eq!(fb.color_at(4, 0), None);
    assert!(fb.buffer().iter().all(|&c| c == 0));
}

#[test]
fn clear_resets_colors_and_depths() {
    let mut fb = Framebuffer::new(3, 2);
    fb.set_background_color(0x333355);
    fb.set_current_color(0xabcdef);
    fb.point(2, 1, 0);
    assert_eq!(fb.color_at(2, 1), Some(0xabcdef));
    fb.clear();
    assert_eq!(fb.buffer().len(), 6);
    assert!(fb.buffer().iter().all(|&c| c == 0x333355));
    assert_eq!(fb.depth_at(2, 1), Some(FAR_DEPTH));
}
