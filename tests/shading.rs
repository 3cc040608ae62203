use planet_render::color::Color;
use planet_render::fixed::ONE;
use planet_render::fragment::Fragment;
use planet_render::linalg::{Mat4, Vec3};
use planet_render::shaders::{
    desert_noise_points, desert_planet_shader, gas_giant_shader, moon_shader, ring_noise_points, NoisePoint,
    ShaderKind,
};
use planet_render::transform::Uniforms;

fn uniforms(time: i64) -> Uniforms {
    Uniforms {
        model_matrix: Mat4::identity(),
        view_matrix: Mat4::identity(),
        projection_matrix: Mat4::identity(),
        viewport_matrix: Mat4::identity(),
        time,
    }
}

fn fragment(x: i64, y: i64, depth: i64, intensity: i64) -> Fragment {
    Fragment::new(3, 4, depth, Vec3::new(0, 0, ONE), intensity, Vec3::new(x, y, 0))
}

const KINDS: [ShaderKind; 9] = [
    ShaderKind::Ring,
    ShaderKind::GasGiant,
    ShaderKind::GasGiant2,
    ShaderKind::Rocky,
    ShaderKind::Volcanic,
    ShaderKind::Icy,
    ShaderKind::Desert,
    ShaderKind::Water,
    ShaderKind::Moon,
];

#[test]
fn every_shader_is_deterministic() {
    let f = fragment(123_456, -654_321, 420_000, 870_000);
    let u = uniforms(12 * ONE + 345);
    for kind in KINDS {
        let noise: Vec<i64> = kind.noise_points(&f).iter().enumerate().map(|(i, _)| (i as i64 * 370_001) % ONE - ONE / 3).collect();
        let first = kind.shade(&f, &u, &noise);
        let second = kind.shade(&f, &uniforms(12 * ONE + 345), &noise.clone());
        assert_eq!(first, second);
    }
}

#[test]
fn moon_crater_is_flat_toned() {
    let f = fragment(0, 0, 0, ONE);
    assert_eq!(moon_shader(&f, &uniforms(0), &vec![0, -500_000, 0, 0, 0]), Color::new(124, 115, 103));
}

#[test]
fn moon_surface_exact_color() {
    let f = fragment(250_000, -125_000, 400_000, 800_000);
    let noise = vec![900_000, 0, 100_000, 200_000, -400_000];
    assert_eq!(moon_shader(&f, &uniforms(3 * ONE), &noise), Color::new(96, 91, 84));
}

#[test]
fn gas_giant_band_colors() {
    assert_eq!(gas_giant_shader(&fragment(0, 0, 0, ONE), &uniforms(0), &vec![0]), Color::new(234, 116, 92));
    assert_eq!(
        gas_giant_shader(&fragment(100_000, 200_000, 0, 500_000), &uniforms(0), &vec![300_000]),
        Color::new(121, 84, 46)
    );
}

#[test]
fn samples_are_read_as_unit_values() {
    let f = fragment(100_000, 200_000, 0, 500_000);
    let u = uniforms(0);
    assert_eq!(gas_giant_shader(&f, &u, &vec![5 * ONE]), gas_giant_shader(&f, &u, &vec![ONE]));
    assert_eq!(gas_giant_shader(&f, &u, &vec![]), gas_giant_shader(&f, &u, &vec![0]));
}

#[test]
fn zero_intensity_is_black() {
    let f = fragment(100_000, 200_000, 300_000, 0);
    let u = uniforms(ONE);
    for kind in KINDS {
        let noise = vec![ONE / 2; 6];
        assert_eq!(kind.shade(&f, &u, &noise), Color::new(0, 0, 0));
    }
}

#[test]
fn desert_shows_its_first_band() {
    let f = fragment(0, 0, 0, ONE);
    let c = desert_planet_shader(&f, &uniforms(0), &vec![0, 0, 0, 0, 0]);
    let medium = Color::new(200, 167, 150);
    assert!(c.r <= medium.r && c.g <= medium.g && c.b <= medium.b);
    assert!(c.r > 150);
}

#[test]
fn noise_points_follow_the_fragment() {
    let f = Fragment::new(0, 0, 3 * ONE, Vec3::new(0, 0, ONE), ONE, Vec3::new(ONE, 2 * ONE, 0));
    let pts = desert_noise_points(&f);
    assert_eq!(pts.len(), 5);
    assert_eq!(pts[0], NoisePoint { x: 500 * ONE, y: 1000 * ONE, z: 1500 * ONE, planar: false });
    assert_eq!(pts[1], NoisePoint { x: 75_250 * ONE, y: 75_500 * ONE, z: 75_750 * ONE, planar: false });
    assert_eq!(ring_noise_points(&f), vec![NoisePoint { x: ONE, y: 2 * ONE, z: 0, planar: true }]);
    assert_eq!(ShaderKind::Water.noise_points(&f).len(), 6);
}
