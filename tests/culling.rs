use planet_render::culling::frustum_culling;
use planet_render::fixed::ONE;
use planet_render::linalg::{Mat4, Vec3};

fn to_fixed(m: &nalgebra_glm::Mat4) -> Mat4 {
    let mut a = [0i64; 16];
    for r in 0..4 {
        for c in 0..4 {
            a[r * 4 + c] = (m[(r, c)] as f64 * ONE as f64).round() as i64;
        }
    }
    Mat4::new(a)
}

fn camera() -> (Mat4, Mat4) {
    let view = nalgebra_glm::look_at(
        &nalgebra_glm::vec3(0.0, 10.0, 20.0),
        &nalgebra_glm::vec3(0.0, 0.0, 0.0),
        &nalgebra_glm::vec3(0.0, 1.0, 0.0),
    );
    let projection = nalgebra_glm::perspective(400.0 / 300.0, 45.0f32.to_radians(), 0.1, 1000.0);
    (to_fixed(&view), to_fixed(&projection))
}

#[test]
fn object_at_the_look_at_centre_with_scale_zero_is_visible() {
    let (view, projection) = camera();
    assert!(frustum_culling(&Vec3::new(0, 0, 0), 0, &view, &projection));
    let id = Mat4::identity();
    assert!(frustum_culling(&Vec3::new(0, 0, 0), 0, &id, &id));
}

#[test]
fn object_far_beyond_the_far_plane_is_culled() {
    let (view, projection) = camera();
    assert!(!frustum_culling(&Vec3::new(0, 0, -5000 * ONE), 0, &view, &projection));
    let id = Mat4::identity();
    assert!(!frustum_culling(&Vec3::new(0, 0, 5 * ONE), 0, &id, &id));
}

#[test]
fn zero_w_is_not_visible() {
    let id = Mat4::identity();
    let mut m = [0i64; 16];
    m[0] = ONE;
    m[5] = ONE;
    m[10] = ONE;
    let flat = Mat4::new(m);
    assert!(!frustum_culling(&Vec3::new(0, 0, 0), 0, &id, &flat));
    assert!(!frustum_culling(&Vec3::new(0, 0, 0), 100 * ONE, &id, &flat));
}

#[test]
fn margin_grows_with_scale() {
    let id = Mat4::identity();
    let p = Vec3::new(2 * ONE, 0, 0);
    assert!(!frustum_culling(&p, 0, &id, &id));
    assert!(!frustum_culling(&p, 600_000, &id, &id));
    assert!(frustum_culling(&p, 2 * ONE / 3 + 1, &id, &id));
    assert!(frustum_culling(&p, ONE, &id, &id));
}

#[test]
fn object_behind_the_camera_is_culled_without_margin() {
    let (view, projection) = camera();
    assert!(!frustum_culling(&Vec3::new(0, 0, 2000 * ONE), 0, &view, &projection));
}

#[test]
fn unit_scale_margin_keeps_the_object_behind_the_camera() {
    let (view, projection) = camera();
    assert!(frustum_culling(&Vec3::new(0, 0, 2000 * ONE), ONE, &view, &projection));
}
