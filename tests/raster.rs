use planet_render::fixed::ONE;
use planet_render::fragment::Fragment;
use planet_render::linalg::{Vec2, Vec3};
use planet_render::raster::{assemble_triangles, triangle};
use planet_render::vertex::Vertex;

fn screen_vertex(x: i64, y: i64, z: i64) -> Vertex {
    let mut v = Vertex::new(Vec3::new(x, y, z), Vec3::new(0, 0, ONE), Vec2 { x: 0, y: 0 });
    v.transformed_position = Vec3::new(x, y, z);
    v
}

fn pixels(fs: &[Fragment]) -> Vec<(usize, usize)> {
    fs.iter().map(|f| (f.x, f.y)).collect()
}

#[test]
fn two_triangles_sharing_a_diagonal_tile_the_square() {
    let a = screen_vertex(0, 0, 0);
    let b = screen_vertex(4 * ONE, 0, 0);
    let c = screen_vertex(4 * ONE, 4 * ONE, 0);
    let d = screen_vertex(0, 4 * ONE, 0);
    let first = pixels(&triangle(&a, &b, &c, 8, 8));
    let second = pixels(&triangle(&a, &c, &d, 8, 8));
    for p in &first {
        assert!(!second.contains(p), "pixel {:?} shaded twice", p);
    }
    let mut union: Vec<(usize, usize)> = first.iter().chain(second.iter()).cloned().collect();
    union.sort();
    let mut reference = Vec::new();
    for x in 0..4 {
        for y in 0..4 {
            reference.push((x, y));
        }
    }
    reference.sort();
    assert_eq!(union, reference);
}

#[test]
fn shared_edge_off_the_pixel_grid_has_no_gap_or_overlap() {
    let a = screen_vertex(500_000, 300_000, 0);
    let b = screen_vertex(9_700_000, 1_200_000, 0);
    let c = screen_vertex(2_100_000, 8_900_000, 0);
    let d = screen_vertex(9_900_000, 9_100_000, 0);
    let first = pixels(&triangle(&a, &b, &c, 12, 12));
    let second = pixels(&triangle(&b, &d, &c, 12, 12));
    for p in &first {
        assert!(!second.contains(p));
    }
    // Every pixel whose centre lies strictly inside the quad, off the shared edge, is drawn.
    let inside = |px: i64, py: i64, u: &Vertex, v: &Vertex, w: &Vertex| {
        let e = |p: &Vec3, q: &Vec3| (q.x - p.x) as i128 * (py - p.y) as i128 - (q.y - p.y) as i128 * (px - p.x) as i128;
        let (p, q, r) = (&u.transformed_position, &v.transformed_position, &w.transformed_position);
        let (e0, e1, e2) = (e(q, r), e(r, p), e(p, q));
        (e0 > 0 && e1 > 0 && e2 > 0) || (e0 < 0 && e1 < 0 && e2 < 0)
    };
    for x in 0..12usize {
        for y in 0..12usize {
            let (px, py) = (x as i64 * ONE + ONE / 2, y as i64 * ONE + ONE / 2);
            if inside(px, py, &a, &b, &c) || inside(px, py, &b, &d, &c) {
                assert!(first.contains(&(x, y)) || second.contains(&(x, y)), "hole at {:?}", (x, y));
            }
        }
    }
}

#[test]
fn degenerate_triangle_yields_nothing() {
    let a = screen_vertex(0, 0, 0);
    let b = screen_vertex(2 * ONE, 2 * ONE, 0);
    let c = screen_vertex(5 * ONE, 5 * ONE, 0);
    assert!(triangle(&a, &b, &c, 10, 10).is_empty());
}

#[test]
fn fragments_come_in_row_order_with_interpolated_depth() {
    let a = screen_vertex(0, 0, 0);
    let b = screen_vertex(4 * ONE, 0, 4 * ONE);
    let c = screen_vertex(0, 4 * ONE, 0);
    let fs = triangle(&a, &b, &c, 10, 10);
    let keys: Vec<usize> = fs.iter().map(|f| f.y * 10 + f.x).collect();
    let mut sorted = keys.clone();
    sorted.sort();
    sorted.dedup();
    assert_eq!(keys, sorted);
    let f = fs.iter().find(|f| f.x == 1 && f.y == 0).unwrap();
    assert_eq!(f.depth, 1_500_000);
    assert_eq!(f.vertex_position, Vec3::new(1_500_000, 500_000, 1_500_000));
    assert_eq!(f.intensity, ONE);
}

#[test]
fn triangle_is_clipped_to_the_screen() {
    let a = screen_vertex(-5 * ONE, -5 * ONE, 0);
    let b = screen_vertex(50 * ONE, -5 * ONE, 0);
    let c = screen_vertex(-5 * ONE, 50 * ONE, 0);
    let fs = triangle(&a, &b, &c, 3, 2);
    assert_eq!(pixels(&fs), vec![(0, 0), (1, 0), (2, 0), (0, 1), (1, 1), (2, 1)]);
}

#[test]
fn trailing_vertices_are_dropped_when_grouping() {
    let vs: Vec<Vertex> = (0..7).map(|i| screen_vertex(i * ONE, 0, 0)).collect();
    let tris = assemble_triangles(&vs);
    assert_eq!(tris.len(), 2);
    assert_eq!(tris[1].0, vs[3]);
    assert_eq!(tris[1].2, vs[5]);
}
