//! Reading meshes in the Wavefront OBJ text format: numbers, face corners,
//! and the triangle stream that the faces describe.
use vstd::prelude::*;
use crate::color::Color;
use crate::fixed::{ONE, COORD_MAX};
use crate::linalg::{Vec2, Vec3};
use crate::vertex::Vertex;

verus! {

/// Largest whole part of a coordinate that a mesh may hold.
pub const MAX_WHOLE: u64 = 1_000_000;

/// Largest index that a face corner may hold.
pub const MAX_INDEX: u64 = 0xffff_ffff;

pub open spec fn is_digit(b: u8) -> bool {
    48 <= b <= 57
}

pub open spec fn all_digits(s: Seq<u8>) -> bool {
    forall|i: int| 0 <= i < s.len() ==> is_digit(#[trigger] s[i])
}

/// The value of a run of decimal digits.
pub open spec fn digits_value(s: Seq<u8>) -> int
    decreases s.len(),
{
    if s.len() == 0 {
        0
    } else {
        digits_value(s.drop_last()) * 10 + (s.last() - 48)
    }
}

pub open spec fn pow10(n: nat) -> int
    decreases n,
{
    if n == 0 {
        1
    } else {
        10 * pow10((n - 1) as nat)
    }
}

/// The first six fraction digits as millionths; later digits are dropped.
pub open spec fn fraction_value(s: Seq<u8>) -> int {
    if s.len() >= 6 {
        digits_value(s.subrange(0, 6))
    } else {
        digits_value(s) * pow10((6 - s.len()) as nat)
    }
}

/// A whole number: one or more digits, at most `MAX_INDEX`.
pub open spec fn index_spec(s: Seq<u8>) -> Option<u64> {
    if s.len() > 0 && all_digits(s) && digits_value(s) <= MAX_INDEX {
        Some(digits_value(s) as u64)
    } else {
        None
    }
}

/// The position of the first `.`, or the length where there is none.
pub open spec fn dot_of(s: Seq<u8>) -> int {
    if exists|i: int| 0 <= i < s.len() && s[i] == 46 {
        choose|i: int| 0 <= i < s.len() && s[i] == 46 && forall|j: int| 0 <= j < i ==> s[j] != 46
    } else {
        s.len() as int
    }
}

proof fn lemma_dot_of(s: Seq<u8>, d: int)
    requires
        0 <= d <= s.len(),
        d < s.len() ==> s[d] == 46,
        forall|j: int| 0 <= j < d ==> s[j] != 46,
    ensures
        dot_of(s) == d,
{
    if exists|i: int| 0 <= i < s.len() && s[i] == 46 {
        assert(d < s.len()) by {
            if d == s.len() {
                let i = choose|i: int| 0 <= i < s.len() && s[i] == 46;
                assert(s[i] != 46);
            }
        }
        assert(exists|i: int| 0 <= i < s.len() && s[i] == 46 && forall|j: int| 0 <= j < i ==> s[j] != 46);
        let c = dot_of(s);
        assert(0 <= c < s.len() && s[c] == 46 && forall|j: int| 0 <= j < c ==> s[j] != 46);
        if c < d {
            assert(s[c] != 46);
        } else if c > d {
            assert(s[d] != 46);
        }
    }
}

#[verifier::opaque]
/// An unsigned decimal `digits[.digits]` with a whole part of at most
/// `MAX_WHOLE`, in fixed point.
pub open spec fn unsigned_spec(s: Seq<u8>) -> Option<i64> {
    let dot = dot_of(s);
    let whole = s.subrange(0, dot);
    let frac = if dot < s.len() {
        s.subrange(dot + 1, s.len() as int)
    } else {
        Seq::<u8>::empty()
    };
    if whole.len() > 0 && all_digits(whole) && all_digits(frac) && digits_value(whole) <= MAX_WHOLE {
        Some((digits_value(whole) * ONE + fraction_value(frac)) as i64)
    } else {
        None
    }
}

/// A decimal with an optional sign, in fixed point.
pub open spec fn decimal_spec(s: Seq<u8>) -> Option<i64> {
    if s.len() > 0 && s[0] == 45 {
        match unsigned_spec(s.subrange(1, s.len() as int)) {
            Some(v) => Some(-v as i64),
            None => None,
        }
    } else if s.len() > 0 && s[0] == 43 {
        unsigned_spec(s.subrange(1, s.len() as int))
    } else {
        unsigned_spec(s)
    }
}

proof fn lemma_digits_bound(s: Seq<u8>)
    requires
        all_digits(s),
    ensures
        0 <= digits_value(s) < pow10(s.len()),
    decreases s.len(),
{
    if s.len() > 0 {
        assert(all_digits(s.drop_last())) by {
            assert forall|i: int| 0 <= i < s.drop_last().len() implies is_digit(#[trigger] s.drop_last()[i]) by {
                assert(s.drop_last()[i] == s[i]);
            }
        }
        lemma_digits_bound(s.drop_last());
        assert(is_digit(s[s.len() - 1]));
    }
}

/// Reads the digits `s[lo..hi]` as a number, giving up once it passes `cap`.
fn read_digits(s: &[u8], lo: usize, hi: usize, cap: u64) -> (r: Option<u64>)
    requires
        lo <= hi <= s@.len(),
        cap <= 0xffff_ffff_ffff,
    ensures
        r == if all_digits(s@.subrange(lo as int, hi as int)) && digits_value(s@.subrange(lo as int, hi as int))
            <= cap {
            Some(digits_value(s@.subrange(lo as int, hi as int)) as u64)
        } else {
            None::<u64>
        },
        r matches Some(v) ==> v <= cap,
{
    let mut v: u64 = 0;
    let mut i: usize = lo;
    while i < hi
        invariant
            lo <= i <= hi <= s@.len(),
            cap <= 0xffff_ffff_ffff,
            all_digits(s@.subrange(lo as int, i as int)),
            v == digits_value(s@.subrange(lo as int, i as int)),
            v <= cap,
        decreases hi - i,
    {
        let b = s[i];
        proof {
            assert(s@.subrange(lo as int, i + 1).drop_last() =~= s@.subrange(lo as int, i as int));
        }
        if b < 48 || b > 57 {
            proof {
                assert(!is_digit(s@.subrange(lo as int, hi as int)[i - lo]));
            }
            return None;
        }
        let next: u64 = v * 10 + (b - 48) as u64;
        if next > cap {
            proof {
                let t = s@.subrange(lo as int, hi as int);
                let p = s@.subrange(lo as int, i + 1);
                if all_digits(t) {
                    assert(p =~= t.subrange(0, i + 1 - lo));
                    lemma_prefix_value_le(t, (i + 1 - lo) as int);
                }
            }
            return None;
        }
        proof {
            assert(all_digits(s@.subrange(lo as int, i + 1))) by {
                assert forall|k: int| 0 <= k < i + 1 - lo implies is_digit(#[trigger] s@.subrange(lo as int, i + 1)[k]) by {
                    if k < i - lo {
                        assert(s@.subrange(lo as int, i + 1)[k] == s@.subrange(lo as int, i as int)[k]);
                    }
                }
            }
        }
        v = next;
        i = i + 1;
    }
    Some(v)
}

/// A prefix of a run of digits has a value no larger than the whole run.
proof fn lemma_prefix_value_le(t: Seq<u8>, n: int)
    requires
        all_digits(t),
        0 <= n <= t.len(),
    ensures
        digits_value(t.subrange(0, n)) <= digits_value(t),
    decreases t.len() - n,
{
    if n < t.len() {
        lemma_prefix_value_le(t, n + 1);
        assert(t.subrange(0, n + 1).drop_last() =~= t.subrange(0, n));
        assert(is_digit(t[n]));
        lemma_digits_bound(t.subrange(0, n));
    } else {
        assert(t.subrange(0, n) =~= t);
    }
}

/// Reads a face-corner index.
pub fn parse_index(s: &[u8]) -> (r: Option<u64>)
    ensures
        r == index_spec(s@),
{
    if s.len() == 0 {
        return None;
    }
    let r = read_digits(s, 0, s.len(), MAX_INDEX);
    proof {
        assert(s@.subrange(0, s@.len() as int) =~= s@);
    }
    r
}

fn all_digits_exec(s: &[u8], lo: usize, hi: usize) -> (r: bool)
    requires
        lo <= hi <= s@.len(),
    ensures
        r == all_digits(s@.subrange(lo as int, hi as int)),
{
    let ghost t = s@.subrange(lo as int, hi as int);
    let mut i: usize = lo;
    while i < hi
        invariant
            lo <= i <= hi <= s@.len(),
            t == s@.subrange(lo as int, hi as int),
            forall|k: int| 0 <= k < i - lo ==> is_digit(#[trigger] t[k]),
        decreases hi - i,
    {
        if s[i] < 48 || s[i] > 57 {
            assert(!is_digit(t[i - lo]));
            return false;
        }
        assert(is_digit(t[i - lo]));
        i = i + 1;
    }
    true
}

#[verifier::rlimit(30)]
fn parse_unsigned(s: &[u8], lo: usize) -> (r: Option<i64>)
    requires
        lo <= s@.len(),
    ensures
        r == unsigned_spec(s@.subrange(lo as int, s@.len() as int)),
        r matches Some(x) ==> 0 <= x <= MAX_WHOLE * ONE + 999_999,
{
    reveal(unsigned_spec);
    let ghost t = s@.subrange(lo as int, s@.len() as int);
    let len = s.len();
    let mut dot: usize = lo;
    while dot < len && s[dot] != 46
        invariant
            lo <= dot <= len == s@.len(),
            forall|k: int| lo <= k < dot ==> s@[k] != 46,
        decreases len - dot,
    {
        dot = dot + 1;
    }
    proof {
        let d = (dot - lo) as int;
        assert forall|j: int| 0 <= j < d implies t[j] != 46 by {
            assert(t[j] == s@[lo + j]);
        }
        lemma_dot_of(t, d);
        assert(t.subrange(0, d) =~= s@.subrange(lo as int, dot as int));
    }
    let whole = match read_digits(s, lo, dot, MAX_WHOLE) {
        Some(w) => w,
        None => return None,
    };
    if dot == lo {
        return None;
    }
    let start: usize = if dot < len { dot + 1 } else { len };
    proof {
        let d = (dot - lo) as int;
        if dot < len {
            assert(s@.subrange(start as int, len as int) =~= t.subrange(d + 1, t.len() as int));
        } else {
            assert(s@.subrange(start as int, len as int) =~= Seq::<u8>::empty());
        }
    }
    proof {
        if all_digits(s@.subrange(lo as int, dot as int)) {
            lemma_digits_bound(s@.subrange(lo as int, dot as int));
        }
    }
    match parse_fraction(s, start) {
        Some(f) => Some((whole as i64) * ONE + (f as i64)),
        None => None,
    }
}

/// The fraction digits `s[start..]` as millionths.
fn parse_fraction(s: &[u8], start: usize) -> (r: Option<u64>)
    requires
        start <= s@.len(),
    ensures
        r == if all_digits(s@.subrange(start as int, s@.len() as int)) {
            Some(fraction_value(s@.subrange(start as int, s@.len() as int)) as u64)
        } else {
            None::<u64>
        },
        r matches Some(v) ==> v <= 999_999 && v as int == fraction_value(s@.subrange(start as int, s@.len() as int)),
{
    let ghost frac = s@.subrange(start as int, s@.len() as int);
    let len = s.len();
    let n: usize = if len - start >= 6 { 6 } else { len - start };
    proof {
        lemma_pow10_values();
    }
    let head = match read_digits(s, start, start + n, 999_999) {
        Some(h) => h,
        None => {
            proof {
                if all_digits(frac) {
                    assert forall|k: int| 0 <= k < n implies is_digit(#[trigger] s@.subrange(start as int, (start + n) as int)[k]) by {
                        assert(s@.subrange(start as int, (start + n) as int)[k] == frac[k]);
                    }
                    lemma_digits_bound(s@.subrange(start as int, (start + n) as int));
                    lemma_pow10_split(n as nat, (6 - n) as nat);
                }
            }
            return None;
        },
    };
    if !all_digits_exec(s, start + n, len) {
        proof {
            let rest = s@.subrange((start + n) as int, len as int);
            let k = choose|k: int| 0 <= k < rest.len() && !is_digit(#[trigger] rest[k]);
            assert(rest[k] == frac[n + k]);
        }
        return None;
    }
    let mut frac_v: u64 = head;
    let mut m: usize = n;
    while m < 6
        invariant
            n <= m <= 6,
            frac_v == (head as int) * pow10((m - n) as nat),
            head <= 999_999,
            pow10(0) == 1,
            pow10(1) == 10,
            pow10(2) == 100,
            pow10(3) == 1000,
            pow10(4) == 10000,
            pow10(5) == 100000,
            pow10(6) == 1000000,
        decreases 6 - m,
    {
        proof {
            assert(pow10((m + 1 - n) as nat) == 10 * pow10((m - n) as nat));
            assert(frac_v * 10 <= 999_999 * 1_000_000) by (nonlinear_arith)
                requires frac_v == (head as int) * pow10((m - n) as nat), head <= 999_999, pow10((m - n) as nat) <= 100_000;
            assert((head as int) * (10 * pow10((m - n) as nat)) == 10 * ((head as int) * pow10((m - n) as nat)))
                by (nonlinear_arith);
        }
        frac_v = frac_v * 10;
        m = m + 1;
    }
    proof {
        assert(all_digits(frac)) by {
            assert forall|k: int| 0 <= k < frac.len() implies is_digit(#[trigger] frac[k]) by {
                if k < n {
                    assert(frac[k] == s@.subrange(start as int, (start + n) as int)[k]);
                } else {
                    assert(frac[k] == s@.subrange((start + n) as int, len as int)[k - n]);
                }
            }
        }
        if frac.len() >= 6 {
            assert(frac.subrange(0, 6) =~= s@.subrange(start as int, (start + n) as int));
            lemma_digits_bound(frac.subrange(0, 6));
        } else {
            assert(frac =~= s@.subrange(start as int, (start + n) as int));
            lemma_digits_bound(frac);
            lemma_pow10_split(frac.len(), (6 - frac.len()) as nat);
            assert(0 <= digits_value(frac) * pow10((6 - frac.len()) as nat) < pow10(frac.len()) * pow10((6 - frac.len()) as nat))
                by (nonlinear_arith)
                requires 0 <= digits_value(frac), digits_value(frac) + 1 <= pow10(frac.len()), pow10((6 - frac.len()) as nat) >= 1;
        }
    }
    Some(frac_v)
}

proof fn lemma_pow10_values()
    ensures
        pow10(0) == 1,
        pow10(1) == 10,
        pow10(2) == 100,
        pow10(3) == 1000,
        pow10(4) == 10000,
        pow10(5) == 100000,
        pow10(6) == 1000000,
{
    assert(pow10(0) == 1);
    assert(pow10(1) == 10);
    assert(pow10(2) == 100);
    assert(pow10(3) == 1000);
    assert(pow10(4) == 10000);
    assert(pow10(5) == 100000);
    assert(pow10(6) == 1000000);
}

proof fn lemma_pow10_split(a: nat, b: nat)
    ensures
        pow10(a + b) == pow10(a) * pow10(b),
        pow10(b) >= 1,
    decreases a,
{
    if a > 0 {
        lemma_pow10_split((a - 1) as nat, b);
        assert(pow10(a + b) == 10 * pow10((a - 1 + b) as nat));
        assert(10 * (pow10((a - 1) as nat) * pow10(b)) == (10 * pow10((a - 1) as nat)) * pow10(b)) by (nonlinear_arith);
    } else {
        lemma_pow10_pos(b);
    }
}

proof fn lemma_pow10_pos(b: nat)
    ensures
        pow10(b) >= 1,
    decreases b,
{
    if b > 0 {
        lemma_pow10_pos((b - 1) as nat);
    }
}

/// Reads a decimal number such as `-0.25` or `12` as a fixed-point value.
pub fn parse_decimal(s: &[u8]) -> (r: Option<i64>)
    ensures
        r == decimal_spec(s@),
{
    if s.len() > 0 && (s[0] == 45 || s[0] == 43) {
        let v = parse_unsigned(s, 1);
        if s[0] == 45 {
            match v {
                Some(x) => Some(-x),
                None => None,
            }
        } else {
            v
        }
    } else {
        let v = parse_unsigned(s, 0);
        proof {
            assert(s@.subrange(0, s@.len() as int) =~= s@);
        }
        v
    }
}

/// One corner of a face: 1-based indices of its position, texture
/// coordinate and normal.
#[derive(Clone, Copy, Debug, PartialEq, Eq, Structural)]
pub struct Corner {
    pub position: u64,
    pub tex: Option<u64>,
    pub normal: Option<u64>,
}

#[derive(Clone, Copy, Debug, PartialEq, Eq, Structural)]
pub enum MeshError {
    /// A corner names a position, texture coordinate or normal that the mesh
    /// does not have, or one outside the coordinate range.
    BadIndex,
}

/// The first `n` triangles of the fan of a face about its first corner.
pub open spec fn fan(f: Seq<Corner>, n: nat) -> Seq<Corner>
    decreases n,
{
    if n == 0 {
        Seq::empty()
    } else {
        fan(f, (n - 1) as nat) + seq![f[0], f[n as int], f[n as int + 1]]
    }
}

/// The corners of a face's triangles; a face of fewer than three corners has none.
pub open spec fn face_triangles(f: Seq<Corner>) -> Seq<Corner> {
    if f.len() < 3 {
        Seq::empty()
    } else {
        fan(f, (f.len() - 2) as nat)
    }
}

/// The triangle corners of the first `n` faces, in order.
pub open spec fn corner_stream(faces: Seq<Vec<Corner>>, n: nat) -> Seq<Corner>
    decreases n,
{
    if n == 0 {
        Seq::empty()
    } else {
        corner_stream(faces, (n - 1) as nat) + face_triangles(faces[n - 1]@)
    }
}

/// Splits every face into a fan of triangles, three corners each.
pub fn triangulate(faces: &Vec<Vec<Corner>>) -> (r: Vec<Corner>)
    ensures
        r@ == corner_stream(faces@, faces@.len()),
{
    let mut r: Vec<Corner> = Vec::new();
    let mut fi: usize = 0;
    while fi < faces.len()
        invariant
            fi <= faces@.len(),
            r@ == corner_stream(faces@, fi as nat),
        decreases faces@.len() - fi,
    {
        let f = &faces[fi];
        let ghost before = r@;
        if f.len() >= 3 {
            let mut k: usize = 1;
            while k < f.len() - 1
                invariant
                    1 <= k <= f@.len() - 1,
                    f@.len() >= 3,
                    r@ == before + fan(f@, (k - 1) as nat),
                decreases f@.len() - k,
            {
                r.push(f[0]);
                r.push(f[k]);
                r.push(f[k + 1]);
                proof {
                    assert(r@ =~= before + fan(f@, k as nat));
                }
                k = k + 1;
            }
        } else {
            assert(r@ =~= before + face_triangles(f@));
        }
        proof {
            assert(r@ =~= corner_stream(faces@, (fi + 1) as nat));
        }
        fi = fi + 1;
    }
    r
}

pub open spec fn index_ok(i: u64, len: nat) -> bool {
    1 <= i <= len
}

/// The vertex that a corner names, where every index it holds is in range.
pub open spec fn corner_vertex(c: Corner, ps: Seq<Vec3>, ns: Seq<Vec3>, ts: Seq<Vec2>) -> Option<Vertex> {
    let pos_ok = index_ok(c.position, ps.len()) && ps[c.position - 1].wf();
    let tex_ok = match c.tex {
        Some(t) => index_ok(t, ts.len()),
        None => true,
    };
    let normal_ok = match c.normal {
        Some(n) => index_ok(n, ns.len()) && ns[n - 1].wf(),
        None => true,
    };
    if pos_ok && tex_ok && normal_ok {
        let normal = match c.normal {
            Some(n) => ns[n - 1],
            None => Vec3 { x: 0, y: 0, z: 0 },
        };
        let tex = match c.tex {
            Some(t) => ts[t - 1],
            None => Vec2 { x: 0, y: 0 },
        };
        Some(
            Vertex {
                position: ps[c.position - 1],
                normal,
                tex_coords: tex,
                color: Color { r: 0, g: 0, b: 0 },
                transformed_position: ps[c.position - 1],
                transformed_normal: normal,
            },
        )
    } else {
        None
    }
}

fn vec3_wf(v: &Vec3) -> (r: bool)
    ensures
        r == v.wf(),
{
    -COORD_MAX <= v.x && v.x <= COORD_MAX && -COORD_MAX <= v.y && v.y <= COORD_MAX && -COORD_MAX <= v.z && v.z
        <= COORD_MAX
}

fn resolve_corner(c: &Corner, ps: &Vec<Vec3>, ns: &Vec<Vec3>, ts: &Vec<Vec2>) -> (r: Option<Vertex>)
    ensures
        r == corner_vertex(*c, ps@, ns@, ts@),
{
    if c.position < 1 || c.position > ps.len() as u64 {
        return None;
    }
    let p = ps[(c.position - 1) as usize];
    if !vec3_wf(&p) {
        return None;
    }
    let normal = match c.normal {
        Some(n) => {
            if n < 1 || n > ns.len() as u64 {
                return None;
            }
            let v = ns[(n - 1) as usize];
            if !vec3_wf(&v) {
                return None;
            }
            v
        },
        None => Vec3 { x: 0, y: 0, z: 0 },
    };
    let tex = match c.tex {
        Some(t) => {
            if t < 1 || t > ts.len() as u64 {
                return None;
            }
            ts[(t - 1) as usize]
        },
        None => Vec2 { x: 0, y: 0 },
    };
    Some(Vertex::new(p, normal, tex))
}

/// The vertices that the corners name, in order, or `BadIndex` where one of
/// them names something the mesh does not have.
pub fn resolve_corners(corners: &Vec<Corner>, positions: &Vec<Vec3>, normals: &Vec<Vec3>, tex_coords: &Vec<Vec2>) -> (r:
    Result<Vec<Vertex>, MeshError>)
    ensures
        match r {
            Ok(vs) => vs@.len() == corners@.len() && forall|i: int|
                0 <= i < corners@.len() ==> corner_vertex(#[trigger] corners@[i], positions@, normals@, tex_coords@)
                    == Some(vs@[i]),
            Err(e) => e == MeshError::BadIndex && exists|i: int|
                0 <= i < corners@.len() && corner_vertex(#[trigger] corners@[i], positions@, normals@, tex_coords@)
                    is None,
        },
        r matches Ok(vs) ==> forall|i: int| 0 <= i < vs@.len() ==> (#[trigger] vs@[i]).wf(),
{
    let mut vs: Vec<Vertex> = Vec::new();
    let mut i: usize = 0;
    while i < corners.len()
        invariant
            i <= corners@.len(),
            vs@.len() == i,
            forall|k: int|
                0 <= k < i ==> corner_vertex(#[trigger] corners@[k], positions@, normals@, tex_coords@) == Some(vs@[k]),
            forall|k: int| 0 <= k < i ==> (#[trigger] vs@[k]).wf(),
        decreases corners@.len() - i,
    {
        match resolve_corner(&corners[i], positions, normals, tex_coords) {
            Some(v) => {
                vs.push(v);
            },
            None => {
                assert(corner_vertex(corners@[i as int], positions@, normals@, tex_coords@) is None);
                return Err(MeshError::BadIndex);
            },
        }
        i = i + 1;
    }
    Ok(vs)
}

} // verus!
