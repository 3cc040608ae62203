use planet_render::camera::{handle_input, rotate_camera_around, update_camera, Camera, Intents};
use planet_render::color::Color;
use planet_render::culling::frustum_culling;
use planet_render::fixed::ONE;
use planet_render::fragment::Fragment;
use planet_render::framebuffer::Framebuffer;
use planet_render::linalg::{Mat4, Vec2, Vec3};
use planet_render::pipeline::{draw_fragments, rasterize_object};
use planet_render::shaders::ShaderKind;
use planet_render::spaceship::Spaceship;
use planet_render::trig::HALF_PI;
use planet_render::transform::{create_model_matrix, create_viewport_matrix, screen_position, Uniforms};
use planet_render::vertex::Vertex;

fn to_fixed(m: &nalgebra_glm::Mat4) -> Mat4 {
    let mut a = [0i64; 16];
    for r in 0..4 {
        for c in 0..4 {
            a[r * 4 + c] = (m[(r, c)] as f64 * ONE as f64).round() as i64;
        }
    }
    Mat4::new(a)
}

fn scene_uniforms(position: Vec3) -> Uniforms {
    let view = nalgebra_glm::look_at(
        &nalgebra_glm::vec3(0.0, 10.0, 20.0),
        &nalgebra_glm::vec3(0.0, 0.0, 0.0),
        &nalgebra_glm::vec3(0.0, 1.0, 0.0),
    );
    let projection = nalgebra_glm::perspective(800.0 / 600.0, 45.0f32.to_radians(), 0.1, 1000.0);
    Uniforms {
        model_matrix: create_model_matrix(&position, ONE, ONE, 0),
        view_matrix: to_fixed(&view),
        projection_matrix: to_fixed(&projection),
        viewport_matrix: create_viewport_matrix(800, 600),
        time: 0,
    }
}

fn vertex(x: i64, y: i64, z: i64) -> Vertex {
    Vertex::new(Vec3::new(x, y, z), Vec3::new(0, ONE, 0), Vec2 { x: 0, y: 0 })
}

fn quad(half: i64) -> Vec<Vertex> {
    vec![
        vertex(-half, 0, -half),
        vertex(half, 0, -half),
        vertex(half, 0, half),
        vertex(-half, 0, -half),
        vertex(half, 0, half),
        vertex(-half, 0, half),
    ]
}

#[test]
fn flat_quad_renders_its_silhouette_in_one_color() {
    let u = scene_uniforms(Vec3::new(0, 0, 0));
    let mesh = quad(4 * ONE);
    let per_triangle = rasterize_object(&mesh, &u, 800, 600);
    assert_eq!(per_triangle.len(), 2);
    let fragments: Vec<Fragment> = per_triangle.into_iter().flatten().collect();
    assert!(fragments.len() > 1000);

    let corners: Vec<Vec3> = [mesh[0], mesh[1], mesh[2], mesh[5]]
        .iter()
        .map(|v| screen_position(&v.position, &u).unwrap())
        .collect();
    let min_x = corners.iter().map(|c| c.x).min().unwrap() / ONE;
    let max_x = corners.iter().map(|c| c.x).max().unwrap() / ONE;
    let min_y = corners.iter().map(|c| c.y).min().unwrap() / ONE;
    let max_y = corners.iter().map(|c| c.y).max().unwrap() / ONE;
    let mut seen = std::collections::HashSet::new();
    for f in &fragments {
        assert!(min_x <= f.x as i64 && f.x as i64 <= max_x && min_y <= f.y as i64 && f.y as i64 <= max_y);
        assert!(seen.insert((f.x, f.y)), "pixel {:?} drawn twice", (f.x, f.y));
    }

    let mut fb = Framebuffer::new(800, 600);
    fb.set_background_color(0x333355);
    fb.clear();
    let flat = Color::new(10, 200, 30);
    let colors = vec![flat; fragments.len()];
    draw_fragments(&mut fb, &fragments, &colors);
    let mut covered = 0;
    for y in 0..600 {
        for x in 0..800 {
            let c = fb.color_at(x, y).unwrap();
            if seen.contains(&(x, y)) {
                assert_eq!(c, flat.to_hex());
                covered += 1;
            } else {
                assert_eq!(c, 0x333355);
            }
        }
    }
    assert_eq!(covered, fragments.len());
}

#[test]
fn object_far_away_is_culled_and_draws_nothing() {
    let u = scene_uniforms(Vec3::new(0, 0, 0));
    let far = Vec3::new(0, 0, -5000 * ONE);
    assert!(!frustum_culling(&far, 0, &u.view_matrix, &u.projection_matrix));
}

#[test]
fn ship_turns_and_moves_along_its_heading() {
    let mut ship = Spaceship::new(Vec3::new(0, 0, 0), Vec3::new(0, 0, 0), ONE, vec![], ShaderKind::Desert);
    ship.move_forward(ONE);
    assert_eq!(ship.position, Vec3::new(0, 0, ONE));
    ship.move_backward(ONE);
    assert_eq!(ship.position, Vec3::new(0, 0, 0));
    ship.rotate_right(600_000);
    ship.rotate_left(200_000);
    assert_eq!(ship.rotation.y, 400_000);
}

#[test]
fn camera_follows_and_orbits() {
    let ship = Spaceship::new(Vec3::new(0, 0, 0), Vec3::new(0, 0, 0), ONE, vec![], ShaderKind::Moon);
    let mut cam = Camera::new(Vec3::new(0, 10 * ONE, 20 * ONE), Vec3::new(0, 10 * ONE, 0), Vec3::new(0, ONE, 0));
    assert!(cam.has_changed);
    cam.follow_spaceship(&ship);
    assert_eq!(cam.eye, Vec3::new(0, 10 * ONE, -20 * ONE));
    assert_eq!(cam.center, Vec3::new(0, 0, 0));

    let mut eye = Vec3::new(ONE, 0, 0);
    rotate_camera_around(&mut eye, Vec3::new(0, 0, 0), HALF_PI);
    assert_eq!(eye, Vec3::new(0, 0, -ONE));
    let mut still = Vec3::new(10 * ONE, 0, 0);
    rotate_camera_around(&mut still, Vec3::new(0, 0, 0), 0);
    assert_eq!(still, Vec3::new(10 * ONE, 0, 0));
}

#[test]
fn input_turns_ship_and_camera_together() {
    let mut ship = Spaceship::new(Vec3::new(14 * ONE, 0, 18 * ONE), Vec3::new(0, 0, 0), ONE, vec![], ShaderKind::Desert);
    let mut cam = Camera::new(Vec3::new(0, 10 * ONE, 20 * ONE), Vec3::new(0, 10 * ONE, 0), Vec3::new(0, ONE, 0));
    let idle = Intents { forward: false, backward: false, left: false, right: false };
    handle_input(&idle, &mut ship, &mut cam);
    assert_eq!(cam.center, ship.position);
    assert_eq!(cam.eye, Vec3::new(0, 10 * ONE, 20 * ONE));

    let both = Intents { forward: true, backward: true, left: true, right: true };
    let before = ship.position;
    handle_input(&both, &mut ship, &mut cam);
    assert_eq!(ship.rotation.y, 0);
    assert_eq!(ship.position, before);

    let forward = Intents { forward: true, backward: false, left: false, right: false };
    handle_input(&forward, &mut ship, &mut cam);
    assert_eq!(ship.position, Vec3::new(14 * ONE, 0, 18 * ONE + 500_000));
    update_camera(&mut cam, &ship);
    assert_eq!(cam.center, ship.position);
}

#[test]
fn move_center_keeps_the_eye_and_the_distance() {
    let mut tilted = Camera::new(Vec3::new(0, 0, 0), Vec3::new(10 * ONE, 10 * ONE, 0), Vec3::new(0, ONE, 0));
    tilted.move_center(Vec3::new(0, 0, 0));
    let t = tilted.center;
    assert!((t.x - 10 * ONE).abs() <= 20 && (t.y - 10 * ONE).abs() <= 20 && t.z.abs() <= 20);
    let mut cam = Camera::new(Vec3::new(0, 0, 0), Vec3::new(0, 0, -10 * ONE), Vec3::new(0, ONE, 0));
    cam.move_center(Vec3::new(0, 0, 0));
    assert_eq!(cam.eye, Vec3::new(0, 0, 0));
    let c = cam.center;
    assert!(c.x.abs() <= 20 && c.y.abs() <= 20 && (c.z + 10 * ONE).abs() <= 20);
    cam.move_center(Vec3::new(10 * ONE, 0, 0));
    let d = cam.center;
    let dist = ((d.x as f64).powi(2) + (d.y as f64).powi(2) + (d.z as f64).powi(2)).sqrt();
    assert!((dist - 10.0 * ONE as f64).abs() < 5_000.0);
    assert!(d.x < -ONE);
}
