use vstd::prelude::*;

verus! {

/// A contour vertex in pixel coordinates: x grows to the right, y downwards.
#[derive(Clone, Copy, Debug, PartialEq, Eq, Structural)]
pub struct Point {
    pub x: i32,
    pub y: i32,
}

/// Largest number of vertices a contour may have, so that the moment sums
/// stay within 128-bit integers.
pub const MAX_CONTOUR_POINTS: usize = 0xffff_ffff;

/// Index of the vertex that precedes vertex `i` on a closed contour of `n`
/// vertices.
pub open spec fn prev_index(n: int, i: int) -> int {
    if i == 0 {
        n - 1
    } else {
        i - 1
    }
}

/// Cross product of two vertices seen as vectors from the origin.
pub open spec fn cross(p: Point, q: Point) -> int {
    p.x * q.y - q.x * p.y
}

/// Shoelace term of the edge that ends at vertex `i`.
pub open spec fn area_term(c: Seq<Point>, i: int) -> int {
    cross(c[prev_index(c.len() as int, i)], c[i])
}

/// Green's-theorem term of the first x moment for the edge ending at `i`.
pub open spec fn moment_x_term(c: Seq<Point>, i: int) -> int {
    area_term(c, i) * (c[prev_index(c.len() as int, i)].x + c[i].x)
}

/// Green's-theorem term of the first y moment for the edge ending at `i`.
pub open spec fn moment_y_term(c: Seq<Point>, i: int) -> int {
    area_term(c, i) * (c[prev_index(c.len() as int, i)].y + c[i].y)
}

pub open spec fn area_sum(c: Seq<Point>, k: int) -> int
    decreases k,
{
    if k <= 0 {
        0
    } else {
        area_sum(c, k - 1) + area_term(c, k - 1)
    }
}

pub open spec fn moment_x_sum(c: Seq<Point>, k: int) -> int
    decreases k,
{
    if k <= 0 {
        0
    } else {
        moment_x_sum(c, k - 1) + moment_x_term(c, k - 1)
    }
}

pub open spec fn moment_y_sum(c: Seq<Point>, k: int) -> int
    decreases k,
{
    if k <= 0 {
        0
    } else {
        moment_y_sum(c, k - 1) + moment_y_term(c, k - 1)
    }
}

/// Twice the signed area enclosed by the contour polygon (shoelace formula).
/// The zeroth moment of the contour is its absolute value over two.
pub open spec fn signed_area2(c: Seq<Point>) -> int {
    area_sum(c, c.len() as int)
}

/// Six times the first x moment of the contour polygon, signed like
/// `signed_area2`.
pub open spec fn moment_x6(c: Seq<Point>) -> int {
    moment_x_sum(c, c.len() as int)
}

/// Six times the first y moment of the contour polygon, signed like
/// `signed_area2`.
pub open spec fn moment_y6(c: Seq<Point>) -> int {
    moment_y_sum(c, c.len() as int)
}

pub open spec fn min_x_upto(c: Seq<Point>, k: int) -> int
    decreases k,
{
    if k <= 1 {
        c[0].x as int
    } else if c[k - 1].x < min_x_upto(c, k - 1) {
        c[k - 1].x as int
    } else {
        min_x_upto(c, k - 1)
    }
}

pub open spec fn max_x_upto(c: Seq<Point>, k: int) -> int
    decreases k,
{
    if k <= 1 {
        c[0].x as int
    } else if c[k - 1].x > max_x_upto(c, k - 1) {
        c[k - 1].x as int
    } else {
        max_x_upto(c, k - 1)
    }
}

pub open spec fn min_y_upto(c: Seq<Point>, k: int) -> int
    decreases k,
{
    if k <= 1 {
        c[0].y as int
    } else if c[k - 1].y < min_y_upto(c, k - 1) {
        c[k - 1].y as int
    } else {
        min_y_upto(c, k - 1)
    }
}

pub open spec fn max_y_upto(c: Seq<Point>, k: int) -> int
    decreases k,
{
    if k <= 1 {
        c[0].y as int
    } else if c[k - 1].y > max_y_upto(c, k - 1) {
        c[k - 1].y as int
    } else {
        max_y_upto(c, k - 1)
    }
}

/// Width of the smallest pixel rectangle holding every vertex.
pub open spec fn bounding_width(c: Seq<Point>) -> int {
    max_x_upto(c, c.len() as int) - min_x_upto(c, c.len() as int) + 1
}

/// Height of the smallest pixel rectangle holding every vertex.
pub open spec fn bounding_height(c: Seq<Point>) -> int {
    max_y_upto(c, c.len() as int) - min_y_upto(c, c.len() as int) + 1
}

/// What a detected region stands for: its centroid, as the exact fractions
/// `center_x_num / center_den` and `center_y_num / center_den`, and the size
/// of its bounding box.
pub struct RegionView {
    pub center_x_num: int,
    pub center_y_num: int,
    pub center_den: int,
    pub width: int,
    pub height: int,
}

/// One detected blob: the centroid of its contour and the size of the
/// contour's bounding box. The centroid is kept exact, as two fractions over
/// the positive denominator `center_den`.
#[derive(Clone, Copy, Debug, PartialEq, Eq, Structural)]
pub struct DetectedRegion {
    pub center_x_num: i128,
    pub center_y_num: i128,
    pub center_den: i128,
    pub width: i64,
    pub height: i64,
}

impl View for DetectedRegion {
    type V = RegionView;

    open spec fn view(&self) -> RegionView {
        RegionView {
            center_x_num: self.center_x_num as int,
            center_y_num: self.center_y_num as int,
            center_den: self.center_den as int,
            width: self.width as int,
            height: self.height as int,
        }
    }
}

/// The region a contour yields: none when its area is zero (the centroid,
/// first moment over zeroth moment, is then undefined); otherwise the
/// centroid `(m10 / m00, m01 / m00)` and the bounding-box size. With
/// `m00 = |A| / 2` and `m10 = sign(A) * Mx / 6` for `A = signed_area2` and
/// `Mx = moment_x6`, the centroid's x is `sign(A) * Mx / (3 * |A|)`: the
/// fraction is kept with a positive denominator.
pub open spec fn contour_region(c: Seq<Point>) -> Option<RegionView> {
    let a = signed_area2(c);
    if a == 0 {
        None
    } else {
        Some(
            RegionView {
                center_x_num: if a > 0 {
                    moment_x6(c)
                } else {
                    -moment_x6(c)
                },
                center_y_num: if a > 0 {
                    moment_y6(c)
                } else {
                    -moment_y6(c)
                },
                center_den: if a > 0 {
                    3 * a
                } else {
                    -3 * a
                },
                width: bounding_width(c),
                height: bounding_height(c),
            },
        )
    }
}

pub open spec fn option_view(r: Option<DetectedRegion>) -> Option<RegionView> {
    match r {
        Some(g) => Some(g@),
        None => None,
    }
}

const POW62: i128 = 0x4000_0000_0000_0000;

const POW63: i128 = 0x8000_0000_0000_0000;

const POW95: i128 = 0x8000_0000_0000_0000_0000_0000;

proof fn lemma_mul_bound(a: int, b: int, ba: int, bb: int)
    requires
        0 <= ba,
        0 <= bb,
        -ba <= a <= ba,
        -bb <= b <= bb,
    ensures
        -(ba * bb) <= a * b <= ba * bb,
{
    if a >= 0 && b >= 0 {
        assert(-(ba * bb) <= a * b <= ba * bb) by (nonlinear_arith)
            requires 0 <= a <= ba, 0 <= b <= bb;
    } else if a >= 0 {
        assert(-(ba * bb) <= a * b <= ba * bb) by (nonlinear_arith)
            requires 0 <= a <= ba, -bb <= b < 0;
    } else if b >= 0 {
        assert(-(ba * bb) <= a * b <= ba * bb) by (nonlinear_arith)
            requires -ba <= a < 0, 0 <= b <= bb;
    } else {
        assert(-(ba * bb) <= a * b <= ba * bb) by (nonlinear_arith)
            requires -ba <= a < 0, -bb <= b < 0;
    }
}

/// Magnitude bounds of one edge's terms for 32-bit coordinates.
proof fn lemma_edge_bounds(p: Point, q: Point)
    ensures
        -(POW62 as int) <= p.x * q.y <= POW62 as int,
        -(POW62 as int) <= q.x * p.y <= POW62 as int,
        -(POW63 as int) <= cross(p, q) <= POW63 as int,
        -(POW95 as int) <= cross(p, q) * (p.x + q.x) <= POW95 as int,
        -(POW95 as int) <= cross(p, q) * (p.y + q.y) <= POW95 as int,
{
    let b31: int = 0x8000_0000;
    lemma_mul_bound(p.x as int, q.y as int, b31, b31);
    lemma_mul_bound(q.x as int, p.y as int, b31, b31);
    assert(b31 * b31 == POW62 as int);
    lemma_mul_bound(cross(p, q), p.x + q.x, POW63 as int, 2 * b31);
    lemma_mul_bound(cross(p, q), p.y + q.y, POW63 as int, 2 * b31);
    assert((POW63 as int) * (2 * b31) == POW95 as int);
}

/// Centroid and bounding-box size of a closed contour, or `None` when the
/// contour encloses no area.
pub fn region_of_contour(contour: &Vec<Point>) -> (r: Option<DetectedRegion>)
    requires
        contour.len() <= MAX_CONTOUR_POINTS,
    ensures
        option_view(r) == contour_region(contour@),
        r is None <==> signed_area2(contour@) == 0,
{
    let n = contour.len();
    if n == 0 {
        return None;
    }
    let mut a: i128 = 0;
    let mut mx: i128 = 0;
    let mut my: i128 = 0;
    let mut i: usize = 0;
    while i < n
        invariant
            0 <= i <= n,
            n == contour@.len(),
            n <= MAX_CONTOUR_POINTS,
            a == area_sum(contour@, i as int),
            mx == moment_x_sum(contour@, i as int),
            my == moment_y_sum(contour@, i as int),
            -(i * (POW63 as int)) <= a <= i * (POW63 as int),
            -(i * (POW95 as int)) <= mx <= i * (POW95 as int),
            -(i * (POW95 as int)) <= my <= i * (POW95 as int),
        decreases n - i,
    {
        let j: usize = if i == 0 {
            n - 1
        } else {
            i - 1
        };
        let p = contour[j];
        let q = contour[i];
        proof {
            lemma_edge_bounds(p, q);
        }
        let cr: i128 = (p.x as i128) * (q.y as i128) - (q.x as i128) * (p.y as i128);
        let tx: i128 = cr * ((p.x as i128) + (q.x as i128));
        let ty: i128 = cr * ((p.y as i128) + (q.y as i128));
        a = a + cr;
        mx = mx + tx;
        my = my + ty;
        i = i + 1;
    }
    if a == 0 {
        return None;
    }
    let mut min_x: i32 = contour[0].x;
    let mut max_x: i32 = contour[0].x;
    let mut min_y: i32 = contour[0].y;
    let mut max_y: i32 = contour[0].y;
    let mut k: usize = 1;
    while k < n
        invariant
            1 <= k <= n,
            n == contour@.len(),
            min_x == min_x_upto(contour@, k as int),
            max_x == max_x_upto(contour@, k as int),
            min_y == min_y_upto(contour@, k as int),
            max_y == max_y_upto(contour@, k as int),
        decreases n - k,
    {
        let p = contour[k];
        if p.x < min_x {
            min_x = p.x;
        }
        if p.x > max_x {
            max_x = p.x;
        }
        if p.y < min_y {
            min_y = p.y;
        }
        if p.y > max_y {
            max_y = p.y;
        }
        k = k + 1;
    }
    let (cx, cy, den) = if a > 0 {
        (mx, my, 3 * a)
    } else {
        (-mx, -my, -3 * a)
    };
    Some(
        DetectedRegion {
            center_x_num: cx,
            center_y_num: cy,
            center_den: den,
            width: (max_x as i64) - (min_x as i64) + 1,
            height: (max_y as i64) - (min_y as i64) + 1,
        },
    )
}

/// The regions of a list of contours, in contour order, leaving out every
/// contour that encloses no area.
pub open spec fn regions_upto(cs: Seq<Vec<Point>>, k: int) -> Seq<RegionView>
    decreases k,
{
    if k <= 0 {
        Seq::empty()
    } else {
        match contour_region(cs[k - 1]@) {
            Some(g) => regions_upto(cs, k - 1).push(g),
            None => regions_upto(cs, k - 1),
        }
    }
}

pub open spec fn regions_of(cs: Seq<Vec<Point>>) -> Seq<RegionView> {
    regions_upto(cs, cs.len() as int)
}

pub open spec fn region_views(rs: Seq<DetectedRegion>) -> Seq<RegionView> {
    rs.map_values(|g: DetectedRegion| g@)
}

/// Number of contours among the first `k` that enclose a nonzero area.
pub open spec fn count_with_area(cs: Seq<Vec<Point>>, k: int) -> int
    decreases k,
{
    if k <= 0 {
        0
    } else if signed_area2(cs[k - 1]@) != 0 {
        count_with_area(cs, k - 1) + 1
    } else {
        count_with_area(cs, k - 1)
    }
}

/// One region for each contour that encloses area, in contour order; the
/// contours of zero area are dropped.
pub fn detect_regions(contours: &Vec<Vec<Point>>) -> (r: Vec<DetectedRegion>)
    requires
        forall|i: int| 0 <= i < contours@.len() ==> #[trigger] contours@[i].len()
            <= MAX_CONTOUR_POINTS,
    ensures
        region_views(r@) == regions_of(contours@),
{
    let mut out: Vec<DetectedRegion> = Vec::new();
    let mut i: usize = 0;
    while i < contours.len()
        invariant
            0 <= i <= contours@.len(),
            forall|j: int| 0 <= j < contours@.len() ==> #[trigger] contours@[j].len()
                <= MAX_CONTOUR_POINTS,
            region_views(out@) == regions_upto(contours@, i as int),
        decreases contours@.len() - i,
    {
        let found = region_of_contour(&contours[i]);
        match found {
            Some(g) => {
                out.push(g);
                assert(region_views(out@) =~= regions_upto(contours@, i as int).push(g@));
            },
            None => {},
        }
        i = i + 1;
    }
    out
}

proof fn lemma_regions_upto_facts(cs: Seq<Vec<Point>>, k: int)
    requires
        0 <= k <= cs.len(),
    ensures
        regions_upto(cs, k).len() == count_with_area(cs, k),
        forall|j: int|
            0 <= j < regions_upto(cs, k).len() ==> #[trigger] regions_upto(cs, k)[j].center_den
                > 0,
    decreases k,
{
    if k > 0 {
        lemma_regions_upto_facts(cs, k - 1);
    }
}

/// No published region comes from a contour of zero area: there is exactly
/// one region per contour with nonzero area, and every region's centroid
/// has a positive denominator, so it is always defined. With no contour at
/// all, nothing is published.
pub proof fn lemma_no_zero_area_region(cs: Seq<Vec<Point>>)
    ensures
        regions_of(cs).len() == count_with_area(cs, cs.len() as int),
        forall|j: int| 0 <= j < regions_of(cs).len() ==> #[trigger] regions_of(cs)[j].center_den > 0,
        cs.len() == 0 ==> regions_of(cs).len() == 0,
{
    lemma_regions_upto_facts(cs, cs.len() as int);
}

/// When every contour encloses area, there is one region per contour, in
/// the same order, each the region of its own contour.
pub proof fn lemma_one_region_per_contour(cs: Seq<Vec<Point>>)
    requires
        forall|i: int| 0 <= i < cs.len() ==> signed_area2(#[trigger] cs[i]@) != 0,
    ensures
        regions_of(cs).len() == cs.len(),
        forall|i: int|
            0 <= i < cs.len() ==> Some(#[trigger] regions_of(cs)[i]) == contour_region(cs[i]@),
{
    lemma_one_region_per_contour_upto(cs, cs.len() as int);
}

proof fn lemma_one_region_per_contour_upto(cs: Seq<Vec<Point>>, k: int)
    requires
        0 <= k <= cs.len(),
        forall|i: int| 0 <= i < cs.len() ==> signed_area2(#[trigger] cs[i]@) != 0,
    ensures
        regions_upto(cs, k).len() == k,
        forall|i: int|
            0 <= i < k ==> Some(#[trigger] regions_upto(cs, k)[i]) == contour_region(cs[i]@),
    decreases k,
{
    if k > 0 {
        lemma_one_region_per_contour_upto(cs, k - 1);
        assert(signed_area2(cs[k - 1]@) != 0);
    }
}

/// The outer contour of a solid `w` by `h` pixel rectangle with top-left
/// pixel `(x0, y0)`: its four corner pixels, from the top-left one
/// downwards and around.
pub open spec fn rectangle_contour(x0: int, y0: int, w: int, h: int) -> Seq<Point> {
    let x1 = x0 + w - 1;
    let y1 = y0 + h - 1;
    seq![
        Point { x: x0 as i32, y: y0 as i32 },
        Point { x: x0 as i32, y: y1 as i32 },
        Point { x: x1 as i32, y: y1 as i32 },
        Point { x: x1 as i32, y: y0 as i32 },
    ]
}

/// A solid rectangle at least two pixels wide and high yields one region
/// whose bounding box is the rectangle and whose centroid is the middle of
/// its corner pixels, `(x0 + (w - 1) / 2, y0 + (h - 1) / 2)`: within half a
/// pixel of `(x0 + w / 2, y0 + h / 2)`. A rectangle one pixel thin encloses
/// no area and yields none.
pub proof fn lemma_rectangle_region(x0: int, y0: int, w: int, h: int)
    requires
        i32::MIN <= x0,
        i32::MIN <= y0,
        w >= 1,
        h >= 1,
        x0 + w - 1 <= i32::MAX,
        y0 + h - 1 <= i32::MAX,
    ensures
        (w >= 2 && h >= 2) ==> ({
            let g = contour_region(rectangle_contour(x0, y0, w, h));
            &&& g is Some
            &&& g.unwrap().width == w
            &&& g.unwrap().height == h
            &&& g.unwrap().center_den > 0
            &&& 2 * g.unwrap().center_x_num == (2 * x0 + w - 1) * g.unwrap().center_den
            &&& 2 * g.unwrap().center_y_num == (2 * y0 + h - 1) * g.unwrap().center_den
        }),
        (w == 1 || h == 1) ==> contour_region(rectangle_contour(x0, y0, w, h)) is None,
{
    let c = rectangle_contour(x0, y0, w, h);
    let x1 = x0 + w - 1;
    let y1 = y0 + h - 1;
    assert(c[0].x == x0 && c[0].y == y0);
    assert(c[1].x == x0 && c[1].y == y1);
    assert(c[2].x == x1 && c[2].y == y1);
    assert(c[3].x == x1 && c[3].y == y0);
    reveal_with_fuel(area_sum, 5);
    reveal_with_fuel(moment_x_sum, 5);
    reveal_with_fuel(moment_y_sum, 5);
    reveal_with_fuel(min_x_upto, 5);
    reveal_with_fuel(max_x_upto, 5);
    reveal_with_fuel(min_y_upto, 5);
    reveal_with_fuel(max_y_upto, 5);
    let a = signed_area2(c);
    let u = x1 - x0;
    let v = y1 - y0;
    let t0 = x1 * y0 - x0 * y0;
    let t1 = x0 * y1 - x0 * y0;
    let t2 = x0 * y1 - x1 * y1;
    let t3 = x1 * y0 - x1 * y1;
    assert(t0 == u * y0) by (nonlinear_arith)
        requires t0 == x1 * y0 - x0 * y0, u == x1 - x0;
    assert(t1 == x0 * v) by (nonlinear_arith)
        requires t1 == x0 * y1 - x0 * y0, v == y1 - y0;
    assert(t2 == -(u * y1)) by (nonlinear_arith)
        requires t2 == x0 * y1 - x1 * y1, u == x1 - x0;
    assert(t3 == -(x1 * v)) by (nonlinear_arith)
        requires t3 == x1 * y0 - x1 * y1, v == y1 - y0;
    assert(t0 + t2 == -(u * v)) by (nonlinear_arith)
        requires t0 == u * y0, t2 == -(u * y1), v == y1 - y0;
    assert(t1 + t3 == -(u * v)) by (nonlinear_arith)
        requires t1 == x0 * v, t3 == -(x1 * v), u == x1 - x0;
    let uv = u * v;
    let mx = moment_x6(c);
    assert(mx == t0 * (x1 + x0) + t1 * (x0 + x0) + t2 * (x0 + x1) + t3 * (x1 + x1));
    assert(mx == (x0 + x1) * (t0 + t2) + 2 * (x0 * t1 + x1 * t3)) by (nonlinear_arith)
        requires mx == t0 * (x1 + x0) + t1 * (x0 + x0) + t2 * (x0 + x1) + t3 * (x1 + x1);
    assert(x0 * t1 + x1 * t3 == (x0 - x1) * (x0 + x1) * v) by (nonlinear_arith)
        requires t1 == x0 * v, t3 == -(x1 * v);
    assert((x0 - x1) * (x0 + x1) * v == -(uv * (x0 + x1))) by (nonlinear_arith)
        requires u == x1 - x0, uv == u * v;
    assert(mx == -3 * uv * (x0 + x1)) by (nonlinear_arith)
        requires
            mx == (x0 + x1) * (t0 + t2) + 2 * (x0 * t1 + x1 * t3),
            t0 + t2 == -uv,
            x0 * t1 + x1 * t3 == -(uv * (x0 + x1)),
    ;
    let my = moment_y6(c);
    assert(my == t0 * (y0 + y0) + t1 * (y0 + y1) + t2 * (y1 + y1) + t3 * (y1 + y0));
    assert(my == (y0 + y1) * (t1 + t3) + 2 * (y0 * t0 + y1 * t2)) by (nonlinear_arith)
        requires my == t0 * (y0 + y0) + t1 * (y0 + y1) + t2 * (y1 + y1) + t3 * (y1 + y0);
    assert(y0 * t0 + y1 * t2 == (y0 - y1) * (y0 + y1) * u) by (nonlinear_arith)
        requires t0 == u * y0, t2 == -(u * y1);
    assert((y0 - y1) * (y0 + y1) * u == -(uv * (y0 + y1))) by (nonlinear_arith)
        requires v == y1 - y0, uv == u * v;
    assert(my == -3 * uv * (y0 + y1)) by (nonlinear_arith)
        requires
            my == (y0 + y1) * (t1 + t3) + 2 * (y0 * t0 + y1 * t2),
            t1 + t3 == -uv,
            y0 * t0 + y1 * t2 == -(uv * (y0 + y1)),
    ;
    assert(a == t0 + t1 + t2 + t3);
    assert(a == -2 * uv);
    if w >= 2 && h >= 2 {
        assert(uv > 0) by (nonlinear_arith)
            requires u >= 1, v >= 1, uv == u * v;
        assert(2 * (-mx) == (x0 + x1) * (-3 * a)) by (nonlinear_arith)
            requires mx == -3 * uv * (x0 + x1), a == -2 * uv;
        assert(2 * (-my) == (y0 + y1) * (-3 * a)) by (nonlinear_arith)
            requires my == -3 * uv * (y0 + y1), a == -2 * uv;
    } else {
        assert(uv == 0) by (nonlinear_arith)
            requires uv == u * v, u == 0 || v == 0;
    }
}

} // verus!
