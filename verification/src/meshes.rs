use vstd::prelude::*;

verus! {

/// Index list of a star outline drawn as a triangle fan: vertex 0 is the
/// centre and vertices `1..=rim` run round the rim. The `n`-th triangle
/// (counted from one) joins the centre, rim vertex `n` and the rim vertex
/// after it, wrapping from the last back to the first.
pub open spec fn fan_triangles(rim: nat, n: nat) -> Seq<u32>
    decreases n,
{
    if n == 0 {
        seq![]
    } else {
        fan_triangles(rim, (n - 1) as nat) + seq![0u32, n as u32, ((n % rim) + 1) as u32]
    }
}

/// Index list of a tapered strip of `n` segments: vertices `2k` and
/// `2k + 1` are the left and right edge at step `k`, and each segment is
/// two triangles over the quad between step `k` and step `k + 1`.
pub open spec fn strip_triangles(n: nat) -> Seq<u32>
    decreases n,
{
    if n == 0 {
        seq![]
    } else {
        let a = 2 * (n - 1);
        strip_triangles((n - 1) as nat) + seq![
            a as u32,
            (a + 1) as u32,
            (a + 2) as u32,
            (a + 1) as u32,
            (a + 3) as u32,
            (a + 2) as u32,
        ]
    }
}

/// Triangle indices of a star with `points` points: a fan over its
/// `2 * points` rim vertices (outer and inner corners alternating).
pub fn star_outline_indices(points: u32) -> (indices: Vec<u32>)
    requires
        points <= 0x7fff_ffff,
    ensures
        indices@ == fan_triangles(2 * points as nat, 2 * points as nat),
{
    let rim: u32 = points * 2;
    let mut indices: Vec<u32> = Vec::new();
    let mut i: u32 = 0;
    while i < rim
        invariant
            i <= rim,
            rim == 2 * points,
            rim <= 0xffff_fffe,
            indices@ == fan_triangles(rim as nat, i as nat),
        decreases rim - i,
    {
        let next: u32 = i + 1;
        indices.push(0);
        indices.push(next);
        indices.push(next % rim + 1);
        assert(indices@ =~= fan_triangles(rim as nat, next as nat));
        i = next;
    }
    indices
}

/// Triangle indices of a strip of `segments` segments, two triangles each.
pub fn strip_indices(segments: u32) -> (indices: Vec<u32>)
    requires
        segments <= 0x7fff_fffe,
    ensures
        indices@ == strip_triangles(segments as nat),
{
    let mut indices: Vec<u32> = Vec::new();
    let mut i: u32 = 0;
    while i < segments
        invariant
            i <= segments,
            segments <= 0x7fff_fffe,
            indices@ == strip_triangles(i as nat),
        decreases segments - i,
    {
        let a: u32 = i * 2;
        indices.push(a);
        indices.push(a + 1);
        indices.push(a + 2);
        indices.push(a + 1);
        indices.push(a + 3);
        indices.push(a + 2);
        assert(indices@ =~= strip_triangles((i + 1) as nat));
        i = i + 1;
    }
    indices
}

/// Every index of a star fan names one of its `rim + 1` vertices, and there
/// are three per triangle.
pub proof fn law_fan_indices_in_range(rim: nat, n: nat)
    requires
        1 <= rim,
        n <= rim,
        rim < 0xffff_ffff,
    ensures
        fan_triangles(rim, n).len() == 3 * n,
        forall|k: int| 0 <= k < fan_triangles(rim, n).len() ==> #[trigger] fan_triangles(rim, n)[k] <= rim,
    decreases n,
{
    if n > 0 {
        law_fan_indices_in_range(rim, (n - 1) as nat);
        let prev = fan_triangles(rim, (n - 1) as nat);
        let s = fan_triangles(rim, n);
        assert forall|k: int| 0 <= k < s.len() implies #[trigger] s[k] <= rim by {
            if k < prev.len() {
                assert(s[k] == prev[k]);
            } else {
                assert(n % rim < rim);
            }
        }
    }
}

/// Every index of a strip of `n` segments names one of its `2 * (n + 1)`
/// vertices, and there are six per segment.
pub proof fn law_strip_indices_in_range(n: nat)
    requires
        n <= 0x7fff_fffe,
    ensures
        strip_triangles(n).len() == 6 * n,
        forall|k: int| 0 <= k < strip_triangles(n).len() ==> #[trigger] strip_triangles(n)[k] < 2 * (n + 1),
    decreases n,
{
    if n > 0 {
        law_strip_indices_in_range((n - 1) as nat);
        let prev = strip_triangles((n - 1) as nat);
        let s = strip_triangles(n);
        assert forall|k: int| 0 <= k < s.len() implies #[trigger] s[k] < 2 * (n + 1) by {
            if k < prev.len() {
                assert(s[k] == prev[k]);
            }
        }
    }
}


/// Triangle `j` (counted from one) of a star fan over `rim` rim vertices:
/// the centre, rim vertex `j`, and rim vertex `j % rim + 1`.
pub open spec fn fan_triangle(rim: nat, j: nat) -> Seq<u32> {
    seq![0u32, j as u32, ((j % rim) + 1) as u32]
}

/// The star fan triangle by triangle: triangle `j` (counted from one) joins
/// the centre, rim vertex `j` and rim vertex `j % rim + 1`, so the last
/// triangle closes the rim back at vertex 1.
pub proof fn law_fan_triangles(rim: nat, n: nat)
    requires
        1 <= rim,
        n <= rim,
        rim < 0xffff_ffff,
    ensures
        fan_triangles(rim, n).len() == 3 * n,
        forall|j: nat|
            1 <= j <= n ==> fan_triangles(rim, n).subrange(3 * j - 3, 3 * j as int) == #[trigger] fan_triangle(rim, j),
    decreases n,
{
    if n > 0 {
        law_fan_triangles(rim, (n - 1) as nat);
        let prev = fan_triangles(rim, (n - 1) as nat);
        let s = fan_triangles(rim, n);
        assert(s == prev + fan_triangle(rim, n));
        assert forall|j: nat| 1 <= j <= n implies s.subrange(3 * j - 3, 3 * j as int) == #[trigger] fan_triangle(rim, j) by {
            if j < n {
                assert(prev.subrange(3 * j - 3, 3 * j as int) == fan_triangle(rim, j));
                assert(s.subrange(3 * j - 3, 3 * j as int) =~= prev.subrange(3 * j - 3, 3 * j as int));
            } else {
                assert(s.subrange(3 * j - 3, 3 * j as int) =~= fan_triangle(rim, n));
            }
        }
    }
}


/// Segment `j` (counted from one) of a strip: the two triangles over the
/// quad of edge vertices `2(j-1)`, `2(j-1)+1`, `2j`, `2j+1`.
pub open spec fn strip_segment(j: nat) -> Seq<u32> {
    let a = 2 * (j - 1);
    seq![a as u32, (a + 1) as u32, (a + 2) as u32, (a + 1) as u32, (a + 3) as u32, (a + 2) as u32]
}

/// The strip segment by segment: segment `j` is the pair of triangles
/// `(a, a+1, a+2)` and `(a+1, a+3, a+2)` with `a = 2(j-1)`.
pub proof fn law_strip_segments(n: nat)
    requires
        n <= 0x7fff_fffe,
    ensures
        strip_triangles(n).len() == 6 * n,
        forall|j: nat|
            1 <= j <= n ==> strip_triangles(n).subrange(6 * j - 6, 6 * j as int) == #[trigger] strip_segment(j),
    decreases n,
{
    if n > 0 {
        law_strip_segments((n - 1) as nat);
        let prev = strip_triangles((n - 1) as nat);
        let s = strip_triangles(n);
        assert(s == prev + strip_segment(n));
        assert forall|j: nat| 1 <= j <= n implies s.subrange(6 * j - 6, 6 * j as int) == #[trigger] strip_segment(j) by {
            if j < n {
                assert(prev.subrange(6 * j - 6, 6 * j as int) == strip_segment(j));
                assert(s.subrange(6 * j - 6, 6 * j as int) =~= prev.subrange(6 * j - 6, 6 * j as int));
            } else {
                assert(s.subrange(6 * j - 6, 6 * j as int) =~= strip_segment(n));
            }
        }
    }
}
} // verus!
