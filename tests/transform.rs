use planet_render::fixed::ONE;
use planet_render::linalg::{Mat4, Vec2, Vec3};
use planet_render::transform::{
    create_model_matrix, create_viewport_matrix, screen_position, transform_normal, vertex_shader, Uniforms,
};
use planet_render::vertex::Vertex;

fn identity_uniforms() -> Uniforms {
    Uniforms {
        model_matrix: Mat4::identity(),
        view_matrix: Mat4::identity(),
        projection_matrix: Mat4::identity(),
        viewport_matrix: Mat4::identity(),
        time: 0,
    }
}

#[test]
fn identity_matrices_give_the_position_back() {
    let u = identity_uniforms();
    for p in [Vec3::new(1_500_000, -2 * ONE, 250_000), Vec3::new(0, 0, 0), Vec3::new(-7, 3, -1)] {
        assert_eq!(screen_position(&p, &u), Some(p));
        let v = Vertex::new(p, Vec3::new(0, ONE, 0), Vec2 { x: 0, y: 0 });
        let t = vertex_shader(&v, &u).unwrap();
        assert_eq!(t.transformed_position, p);
        assert_eq!(t.transformed_normal, Vec3::new(0, ONE, 0));
        assert_eq!(t.position, p);
    }
}

#[test]
fn zero_w_has_no_screen_position() {
    let mut u = identity_uniforms();
    let mut m = [0i64; 16];
    m[0] = ONE;
    m[5] = ONE;
    m[10] = ONE;
    u.projection_matrix = Mat4::new(m);
    assert_eq!(screen_position(&Vec3::new(ONE, ONE, ONE), &u), None);
}

#[test]
fn viewport_maps_the_centre_of_clip_space_to_the_screen_centre() {
    let mut u = identity_uniforms();
    u.viewport_matrix = create_viewport_matrix(800, 600);
    assert_eq!(screen_position(&Vec3::new(0, 0, 0), &u), Some(Vec3::new(400 * ONE, 300 * ONE, 0)));
    assert_eq!(screen_position(&Vec3::new(ONE, ONE, ONE / 2), &u), Some(Vec3::new(800 * ONE, 0, ONE / 2)));
}

#[test]
fn perspective_division_divides_by_w() {
    let mut u = identity_uniforms();
    let mut m = [0i64; 16];
    m[0] = ONE;
    m[5] = ONE;
    m[10] = ONE;
    m[15] = 2 * ONE;
    u.projection_matrix = Mat4::new(m);
    assert_eq!(screen_position(&Vec3::new(ONE, -3, 4 * ONE), &u), Some(Vec3::new(ONE / 2, -2, 2 * ONE)));
}

#[test]
fn normal_uses_the_inverse_transpose() {
    let origin = Vec3::new(0, 0, 0);
    let doubled = create_model_matrix(&origin, 2 * ONE, ONE, 0);
    assert_eq!(transform_normal(&doubled, &Vec3::new(0, ONE, 0)), Vec3::new(0, ONE / 2, 0));
    let large = create_model_matrix(&origin, 20 * ONE, ONE, 0);
    assert_eq!(transform_normal(&large, &Vec3::new(0, 0, ONE)), Vec3::new(0, 0, ONE / 20));
    let turned = create_model_matrix(&origin, 40 * ONE, 0, ONE);
    assert_eq!(transform_normal(&turned, &Vec3::new(ONE, 0, 0)), Vec3::new(0, 0, -ONE / 40));
    let flat = create_model_matrix(&origin, 0, ONE, 0);
    assert_eq!(transform_normal(&flat, &Vec3::new(0, ONE, 0)), Vec3::new(0, ONE, 0));
}

#[test]
fn model_matrix_places_rotates_and_scales() {
    let m = create_model_matrix(&Vec3::new(2 * ONE, 0, -ONE), ONE / 2, 0, ONE);
    assert_eq!(
        m.m,
        [0, 0, ONE / 2, 2 * ONE, 0, ONE / 2, 0, 0, -ONE / 2, 0, 0, -ONE, 0, 0, 0, ONE]
    );
}
