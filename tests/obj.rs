use planet_render::fixed::ONE;
use planet_render::linalg::{Vec2, Vec3};
use planet_render::obj::{parse_decimal, parse_index, resolve_corners, triangulate, Corner, MeshError};

#[test]
fn decimals_are_read_in_fixed_point() {
    assert_eq!(parse_decimal(b"0.5"), Some(500_000));
    assert_eq!(parse_decimal(b"-1.25"), Some(-1_250_000));
    assert_eq!(parse_decimal(b"+3"), Some(3 * ONE));
    assert_eq!(parse_decimal(b"12."), Some(12 * ONE));
    assert_eq!(parse_decimal(b"0.1234567"), Some(123_456));
    assert_eq!(parse_decimal(b"1000000.999999"), Some(1_000_000_999_999));
}

#[test]
fn malformed_decimals_are_rejected() {
    assert_eq!(parse_decimal(b""), None);
    assert_eq!(parse_decimal(b"-"), None);
    assert_eq!(parse_decimal(b".5"), None);
    assert_eq!(parse_decimal(b"1.2.3"), None);
    assert_eq!(parse_decimal(b"1e3"), None);
    assert_eq!(parse_decimal(b"1000001"), None);
}

#[test]
fn indices_are_whole_numbers() {
    assert_eq!(parse_index(b"42"), Some(42));
    assert_eq!(parse_index(b""), None);
    assert_eq!(parse_index(b"-1"), None);
    assert_eq!(parse_index(b"4294967296"), None);
}

fn c(p: u64) -> Corner {
    Corner { position: p, tex: None, normal: None }
}

#[test]
fn faces_become_fans_of_triangles() {
    let faces = vec![vec![c(1), c(2), c(3), c(4)], vec![c(1), c(2)], vec![c(2), c(3), c(4)]];
    let corners = triangulate(&faces);
    assert_eq!(corners, vec![c(1), c(2), c(3), c(1), c(3), c(4), c(2), c(3), c(4)]);
}

#[test]
fn corners_resolve_to_vertices() {
    let positions = vec![Vec3::new(0, 0, 0), Vec3::new(ONE, 0, 0)];
    let normals = vec![Vec3::new(0, ONE, 0)];
    let tex = vec![Vec2 { x: ONE / 2, y: ONE / 4 }];
    let corners = vec![Corner { position: 2, tex: Some(1), normal: Some(1) }, c(1)];
    let vs = resolve_corners(&corners, &positions, &normals, &tex).unwrap();
    assert_eq!(vs[0].position, Vec3::new(ONE, 0, 0));
    assert_eq!(vs[0].normal, Vec3::new(0, ONE, 0));
    assert_eq!(vs[0].tex_coords, Vec2 { x: ONE / 2, y: ONE / 4 });
    assert_eq!(vs[1].normal, Vec3::new(0, 0, 0));
    assert_eq!(resolve_corners(&vec![c(3)], &positions, &normals, &tex), Err(MeshError::BadIndex));
    assert_eq!(resolve_corners(&vec![c(0)], &positions, &normals, &tex), Err(MeshError::BadIndex));
}
