use planet_render::color::Color;
use planet_render::fixed::ONE;

#[test]
fn lerp_moves_part_of_the_way_and_holds_t() {
    let black = Color::new(0, 0, 0);
    let white = Color::new(255, 255, 255);
    assert_eq!(black.lerp(&white, ONE / 2), Color::new(127, 127, 127));
    assert_eq!(black.lerp(&white, 2 * ONE), white);
    assert_eq!(black.lerp(&white, -ONE), black);
    assert_eq!(white.lerp(&black, ONE / 4), Color::new(191, 191, 191));
}

#[test]
fn scaling_clamps_every_channel() {
    let c = Color::new(100, 200, 250);
    assert_eq!(c.scale(1_500_000), Color::new(150, 255, 255));
    assert_eq!(c.scale(-ONE), Color::new(0, 0, 0));
    assert_eq!(c.scale(ONE / 2), Color::new(50, 100, 125));
}

#[test]
fn hex_packing_round_trips() {
    let c = Color::new(0x12, 0x34, 0x56);
    assert_eq!(c.to_hex(), 0x123456);
    assert_eq!(Color::from_hex(0x123456), c);
    assert_eq!(Color::from_hex(0xff_abcdef), Color::new(0xab, 0xcd, 0xef));
}
