//! Style table and draw planner: turns a decoded vector tile into an exact
//! list of paint tasks for a raster surface of a given pixel size.
//!
//! The plan is pure data: path commands in tile coordinates together with a
//! declarative style per feature, and the fixed-point scale that maps tile
//! coordinates onto the surface.  The surrounding process replays the plan
//! with a 2D raster library; everything it replays is decided here.

use vstd::prelude::*;
use vstd::arithmetic::power2::pow2;

use crate::mvt::{
    decode_tile, layers_view, spec_decode_tile, Feature, FeatureV, SubPath, SubPathV, TileLayer,
    TileLayerV,
};
use crate::projection::tile_width_millimeters;
use crate::EARTH_CIRCUMFERENCE_MM;

verus! {

/// How a feature's path is painted.
#[derive(Clone, Copy, Debug, PartialEq, Eq, Structural)]
pub enum DrawOp {
    /// Fill the outline (exterior rings only; holes are ignored).
    Fill,
    /// Stroke the outline with round caps and joins.
    Stroke,
    /// Draw nothing (reserved layers).
    Skip,
}

/// A declarative paint style: operation, colour, opacity in thousandths and
/// stroke width in pixels.
#[derive(Clone, Copy, Debug, PartialEq, Eq, Structural)]
pub struct Style {
    pub op: DrawOp,
    pub red: u8,
    pub green: u8,
    pub blue: u8,
    pub alpha_millis: u32,
    pub stroke_width: u32,
}

/// One pen movement in tile coordinates.
#[derive(Clone, Copy, Debug, PartialEq, Eq, Structural)]
pub enum PathCmd {
    MoveTo(i64, i64),
    LineTo(i64, i64),
}

/// One feature's outline with its style.
pub struct DrawTask {
    pub cmds: Vec<PathCmd>,
    pub style: Style,
}

/// Ghost image of a draw task.
pub struct DrawTaskV {
    pub cmds: Seq<PathCmd>,
    pub style: Style,
}

impl View for DrawTask {
    type V = DrawTaskV;

    open spec fn view(&self) -> DrawTaskV {
        DrawTaskV { cmds: self.cmds@, style: self.style }
    }
}

/// Everything needed to paint one tile: the square surface size in pixels,
/// the tile-coordinate scale in millionths, and the paint tasks in order.
pub struct RenderPlan {
    pub size: u32,
    pub scale_micro: u64,
    pub tasks: Vec<DrawTask>,
}

/// Ghost image of a render plan.
pub struct RenderPlanV {
    pub size: u32,
    pub scale_micro: u64,
    pub tasks: Seq<DrawTaskV>,
}

impl View for RenderPlan {
    type V = RenderPlanV;

    open spec fn view(&self) -> RenderPlanV {
        RenderPlanV {
            size: self.size,
            scale_micro: self.scale_micro,
            tasks: self.tasks@.map_values(|t: DrawTask| t@),
        }
    }
}

/// The layer name that is filled white at half opacity.
pub open spec fn name_building() -> Seq<u8> {
    seq![98u8, 117u8, 105u8, 108u8, 100u8, 105u8, 110u8, 103u8]
}

/// The layer name that is filled green at half opacity.
pub open spec fn name_park() -> Seq<u8> {
    seq![112u8, 97u8, 114u8, 107u8]
}

/// Reserved name fragment: water.
pub open spec fn frag_water() -> Seq<u8> {
    seq![119u8, 97u8, 116u8, 101u8, 114u8]
}

/// Reserved name fragment: mountain.
pub open spec fn frag_mountain() -> Seq<u8> {
    seq![109u8, 111u8, 117u8, 110u8, 116u8, 97u8, 105u8, 110u8]
}

/// Reserved name fragment: land.
pub open spec fn frag_land() -> Seq<u8> {
    seq![108u8, 97u8, 110u8, 100u8]
}

/// `needle` occurs contiguously inside `hay`.
pub open spec fn contains_sub(hay: Seq<u8>, needle: Seq<u8>) -> bool {
    exists|i: int|
        0 <= i <= hay.len() - needle.len() && #[trigger] hay.subrange(i, i + needle.len() as int)
            == needle
}

/// The style table, keyed by layer name: buildings fill white, parks fill
/// green, both at half opacity; names holding "water", "mountain" or "land"
/// are reserved and draw nothing; everything else strokes white, width 10.
pub open spec fn spec_style_for(name: Seq<u8>) -> Style {
    if name == name_building() {
        Style { op: DrawOp::Fill, red: 255, green: 255, blue: 255, alpha_millis: 500, stroke_width: 0 }
    } else if name == name_park() {
        Style { op: DrawOp::Fill, red: 0, green: 255, blue: 0, alpha_millis: 500, stroke_width: 0 }
    } else if contains_sub(name, frag_water()) || contains_sub(name, frag_mountain())
        || contains_sub(name, frag_land()) {
        Style { op: DrawOp::Skip, red: 0, green: 0, blue: 0, alpha_millis: 0, stroke_width: 0 }
    } else {
        Style { op: DrawOp::Stroke, red: 255, green: 255, blue: 255, alpha_millis: 1000, stroke_width: 10 }
    }
}

/// Largest ring (in points) the planner will classify; longer rings are
/// treated as interior and not filled.
pub const MAX_RING_POINTS: usize = 0x1000_0000;

/// Every point lies within the signed 32-bit range (as decoded geometry
/// always does).
pub open spec fn spec_points_bounded(points: Seq<(i64, i64)>) -> bool {
    forall|k: int|
        0 <= k < points.len() ==> -0x8000_0000 <= (#[trigger] points[k]).0 <= 0x7fff_ffff
            && -0x8000_0000 <= points[k].1 <= 0x7fff_ffff
}

/// Twice the signed area of the ring, summed from edge `j` onwards (the
/// closing edge returns to the first point), plus `acc`.
pub open spec fn spec_shoelace(points: Seq<(i64, i64)>, j: int, acc: int) -> int
    decreases points.len() - j when 0 <= j <= points.len()
{
    if j >= points.len() {
        acc
    } else {
        let a = points[j];
        let b = if j + 1 < points.len() {
            points[j + 1]
        } else {
            points[0]
        };
        spec_shoelace(points, j + 1, acc + (a.0 * b.1 - b.0 * a.1))
    }
}

/// A ring is an exterior ring when its winding gives it positive signed
/// area, as the tile format prescribes for outer outlines.
pub open spec fn spec_is_exterior(points: Seq<(i64, i64)>) -> bool {
    &&& 1 <= points.len() <= MAX_RING_POINTS
    &&& spec_points_bounded(points)
    &&& spec_shoelace(points, 0, 0) > 0
}

/// Executable exterior-ring test.
pub fn is_exterior(points: &Vec<(i64, i64)>) -> (r: bool)
    ensures
        r == spec_is_exterior(points@),
{
    let n = points.len();
    if n == 0 || n > MAX_RING_POINTS {
        return false;
    }
    let mut k: usize = 0;
    while k < n
        invariant
            k <= n == points@.len(),
            forall|m: int|
                0 <= m < k ==> -0x8000_0000 <= (#[trigger] points@[m]).0 <= 0x7fff_ffff
                    && -0x8000_0000 <= points@[m].1 <= 0x7fff_ffff,
        decreases n - k,
    {
        let (x, y) = (points[k].0, points[k].1);
        if x < -0x8000_0000 || x > 0x7fff_ffff || y < -0x8000_0000 || y > 0x7fff_ffff {
            return false;
        }
        k = k + 1;
    }
    let mut acc: i128 = 0;
    let mut j: usize = 0;
    while j < n
        invariant
            j <= n == points@.len(),
            1 <= n <= MAX_RING_POINTS,
            spec_points_bounded(points@),
            -0x1_0000_0000_0000_0000 * (j as int) <= acc <= 0x1_0000_0000_0000_0000 * (j as int),
            spec_shoelace(points@, 0, 0) == spec_shoelace(points@, j as int, acc as int),
        decreases n - j,
    {
        let a = points[j];
        let b = if j + 1 < n {
            points[j + 1]
        } else {
            points[0]
        };
        proof {
            let big: int = 0x1_0000_0000_0000_0000;
            assert(-big <= (a.0 as int) * (b.1 as int) - (b.0 as int) * (a.1 as int) <= big
                && -big <= (a.0 as int) * (b.1 as int) <= big && -big <= (b.0 as int) * (
            a.1 as int) <= big) by (nonlinear_arith)
                requires
                    big == 0x1_0000_0000_0000_0000,
                    -0x8000_0000 <= (a.0 as int) <= 0x7fff_ffff,
                    -0x8000_0000 <= (a.1 as int) <= 0x7fff_ffff,
                    -0x8000_0000 <= (b.0 as int) <= 0x7fff_ffff,
                    -0x8000_0000 <= (b.1 as int) <= 0x7fff_ffff,
            ;
            assert(-0x1_0000_0000_0000_0000 * ((j + 1) as int) >= -0x1_0000_0000_0000_0000 * (
            MAX_RING_POINTS as int) && 0x1_0000_0000_0000_0000 * ((j + 1) as int)
                <= 0x1_0000_0000_0000_0000 * (MAX_RING_POINTS as int)) by (nonlinear_arith)
                requires
                    0 <= j + 1 <= MAX_RING_POINTS,
            ;
        }
        let term = (a.0 as i128) * (b.1 as i128) - (b.0 as i128) * (a.1 as i128);
        proof {
            assert(-0x1_0000_0000_0000_0000 * ((j + 1) as int) <= acc + term <= 0x1_0000_0000_0000_0000
                * ((j + 1) as int)) by (nonlinear_arith)
                requires
                    -0x1_0000_0000_0000_0000 * (j as int) <= acc as int <= 0x1_0000_0000_0000_0000
                        * (j as int),
                    -0x1_0000_0000_0000_0000 <= term as int <= 0x1_0000_0000_0000_0000,
            ;
        }
        acc = acc + term;
        j = j + 1;
    }
    acc > 0
}

/// The four pen movements of the small diamond marker drawn for a point.
pub open spec fn spec_marker_cmds(p: (i64, i64)) -> Seq<PathCmd> {
    seq![
        PathCmd::MoveTo(p.0, p.1),
        PathCmd::LineTo(p.0.wrapping_add(1), p.1.wrapping_add(1)),
        PathCmd::LineTo(p.0.wrapping_add(1), p.1),
        PathCmd::LineTo(p.0, p.1.wrapping_add(1)),
    ]
}

/// Marker commands for every point of every run, appended to `acc`.
pub open spec fn spec_point_cmds(paths: Seq<SubPathV>, i: int, j: int, acc: Seq<PathCmd>) -> Seq<
    PathCmd,
>
    decreases paths.len() - i, paths[i].points.len() - j when 0 <= i <= paths.len() && (i
        < paths.len() ==> 0 <= j <= paths[i].points.len())
{
    if i >= paths.len() {
        acc
    } else if j >= paths[i].points.len() {
        spec_point_cmds(paths, i + 1, 0, acc)
    } else {
        spec_point_cmds(paths, i, j + 1, acc + spec_marker_cmds(paths[i].points[j]))
    }
}

/// Stroke commands for the segments of every run, appended to `acc`: the
/// first segment of a run moves then draws, later segments re-state their
/// start before drawing.
pub open spec fn spec_line_cmds(paths: Seq<SubPathV>, i: int, j: int, acc: Seq<PathCmd>) -> Seq<
    PathCmd,
>
    decreases paths.len() - i, paths[i].points.len() - j when 0 <= i <= paths.len() && (i
        < paths.len() ==> 0 <= j)
{
    if i >= paths.len() {
        acc
    } else if j + 1 >= paths[i].points.len() {
        spec_line_cmds(paths, i + 1, 0, acc)
    } else {
        let a = paths[i].points[j];
        let b = paths[i].points[j + 1];
        let seg = if j == 0 {
            seq![PathCmd::MoveTo(a.0, a.1), PathCmd::LineTo(b.0, b.1)]
        } else {
            seq![PathCmd::LineTo(a.0, a.1), PathCmd::LineTo(b.0, b.1)]
        };
        spec_line_cmds(paths, i, j + 1, acc + seg)
    }
}

/// Fill commands for the exterior rings, appended to `acc`: each ring's
/// points are walked with the closing point repeated, every vertex stated
/// twice as the outline is built.
pub open spec fn spec_poly_ring_cmds(points: Seq<(i64, i64)>, j: int, acc: Seq<PathCmd>) -> Seq<
    PathCmd,
>
    decreases points.len() + 1 - j when 0 <= j <= points.len() + 1 && points.len() >= 1
{
    if j > points.len() {
        acc
    } else {
        let p = if j < points.len() {
            points[j]
        } else {
            points[0]
        };
        let step = if j == 0 {
            seq![PathCmd::MoveTo(p.0, p.1), PathCmd::LineTo(p.0, p.1)]
        } else {
            seq![PathCmd::LineTo(p.0, p.1), PathCmd::LineTo(p.0, p.1)]
        };
        spec_poly_ring_cmds(points, j + 1, acc + step)
    }
}

/// Fill commands over all runs: only closed exterior rings contribute.
pub open spec fn spec_poly_cmds(paths: Seq<SubPathV>, i: int, acc: Seq<PathCmd>) -> Seq<PathCmd>
    decreases paths.len() - i when 0 <= i <= paths.len()
{
    if i >= paths.len() {
        acc
    } else if paths[i].closed && spec_is_exterior(paths[i].points) {
        spec_poly_cmds(paths, i + 1, spec_poly_ring_cmds(paths[i].points, 0, acc))
    } else {
        spec_poly_cmds(paths, i + 1, acc)
    }
}

/// The pen commands of one feature: point markers only from zoom 15 up,
/// line segments for line geometry, exterior rings for polygon geometry,
/// nothing for unknown geometry kinds.
pub open spec fn spec_feature_cmds(f: FeatureV, zoom: u32) -> Seq<PathCmd> {
    if f.geom_type == 1 {
        if zoom >= 15 {
            spec_point_cmds(f.paths, 0, 0, Seq::empty())
        } else {
            Seq::empty()
        }
    } else if f.geom_type == 2 {
        spec_line_cmds(f.paths, 0, 0, Seq::empty())
    } else if f.geom_type == 3 {
        spec_poly_cmds(f.paths, 0, Seq::empty())
    } else {
        Seq::empty()
    }
}

/// Executable pen commands for one feature.
pub fn feature_cmds(f: &Feature, zoom: u32) -> (cmds: Vec<PathCmd>)
    ensures
        cmds@ == spec_feature_cmds(f@, zoom),
{
    let mut cmds: Vec<PathCmd> = Vec::new();
    proof {
        assert(cmds@ =~= Seq::<PathCmd>::empty());
    }
    if f.geom_type == 1 {
        if zoom >= 15 {
            let n = f.paths.len();
            let mut i: usize = 0;
            while i < n
                invariant
                    i <= n == f.paths@.len(),
                    spec_point_cmds(f@.paths, 0, 0, Seq::empty()) == spec_point_cmds(
                        f@.paths,
                        i as int,
                        0,
                        cmds@,
                    ),
                decreases n - i,
            {
                let m = f.paths[i].points.len();
                let mut j: usize = 0;
                while j < m
                    invariant
                        i < n == f.paths@.len(),
                        j <= m == f.paths@[i as int].points@.len(),
                        spec_point_cmds(f@.paths, 0, 0, Seq::empty()) == spec_point_cmds(
                            f@.paths,
                            i as int,
                            j as int,
                            cmds@,
                        ),
                    decreases m - j,
                {
                    let p = f.paths[i].points[j];
                    let ghost prev = cmds@;
                    cmds.push(PathCmd::MoveTo(p.0, p.1));
                    cmds.push(PathCmd::LineTo(p.0.wrapping_add(1), p.1.wrapping_add(1)));
                    cmds.push(PathCmd::LineTo(p.0.wrapping_add(1), p.1));
                    cmds.push(PathCmd::LineTo(p.0, p.1.wrapping_add(1)));
                    proof {
                        assert(f@.paths[i as int].points[j as int] == p);
                        assert(cmds@ =~= prev + spec_marker_cmds(p));
                    }
                    j = j + 1;
                }
                i = i + 1;
            }
        }
    } else if f.geom_type == 2 {
        let n = f.paths.len();
        let mut i: usize = 0;
        while i < n
            invariant
                i <= n == f.paths@.len(),
                spec_line_cmds(f@.paths, 0, 0, Seq::empty()) == spec_line_cmds(
                    f@.paths,
                    i as int,
                    0,
                    cmds@,
                ),
            decreases n - i,
        {
            let m = f.paths[i].points.len();
            let mut j: usize = 0;
            while m >= 1 && j < m - 1
                invariant
                    i < n == f.paths@.len(),
                    m == f.paths@[i as int].points@.len(),
                    m >= 1 ==> j <= m - 1,
                    j == 0 || m >= 1,
                    spec_line_cmds(f@.paths, 0, 0, Seq::empty()) == spec_line_cmds(
                        f@.paths,
                        i as int,
                        j as int,
                        cmds@,
                    ),
                decreases m - j,
            {
                let a = f.paths[i].points[j];
                let b = f.paths[i].points[j + 1];
                let ghost prev = cmds@;
                if j == 0 {
                    cmds.push(PathCmd::MoveTo(a.0, a.1));
                    cmds.push(PathCmd::LineTo(b.0, b.1));
                } else {
                    cmds.push(PathCmd::LineTo(a.0, a.1));
                    cmds.push(PathCmd::LineTo(b.0, b.1));
                }
                proof {
                    assert(f@.paths[i as int].points[j as int] == a);
                    assert(f@.paths[i as int].points[j + 1] == b);
                    if j == 0 {
                        assert(cmds@ =~= prev + seq![
                            PathCmd::MoveTo(a.0, a.1),
                            PathCmd::LineTo(b.0, b.1),
                        ]);
                    } else {
                        assert(cmds@ =~= prev + seq![
                            PathCmd::LineTo(a.0, a.1),
                            PathCmd::LineTo(b.0, b.1),
                        ]);
                    }
                }
                j = j + 1;
            }
            i = i + 1;
        }
    } else if f.geom_type == 3 {
        let n = f.paths.len();
        let mut i: usize = 0;
        while i < n
            invariant
                i <= n == f.paths@.len(),
                spec_poly_cmds(f@.paths, 0, Seq::empty()) == spec_poly_cmds(
                    f@.paths,
                    i as int,
                    cmds@,
                ),
            decreases n - i,
        {
            let closed = f.paths[i].closed;
            if closed && is_exterior(&f.paths[i].points) {
                let m = f.paths[i].points.len();
                let ghost base = cmds@;
                let mut j: usize = 0;
                while j <= m
                    invariant
                        i < n == f.paths@.len(),
                        1 <= m == f.paths@[i as int].points@.len(),
                        m <= MAX_RING_POINTS,
                        j <= m + 1,
                        spec_poly_ring_cmds(f@.paths[i as int].points, 0, base)
                            == spec_poly_ring_cmds(
                            f@.paths[i as int].points,
                            j as int,
                            cmds@,
                        ),
                    decreases m + 1 - j,
                {
                    let p = if j < m {
                        f.paths[i].points[j]
                    } else {
                        f.paths[i].points[0]
                    };
                    let ghost prev = cmds@;
                    if j == 0 {
                        cmds.push(PathCmd::MoveTo(p.0, p.1));
                        cmds.push(PathCmd::LineTo(p.0, p.1));
                    } else {
                        cmds.push(PathCmd::LineTo(p.0, p.1));
                        cmds.push(PathCmd::LineTo(p.0, p.1));
                    }
                    proof {
                        if j == 0 {
                            assert(cmds@ =~= prev + seq![
                                PathCmd::MoveTo(p.0, p.1),
                                PathCmd::LineTo(p.0, p.1),
                            ]);
                        } else {
                            assert(cmds@ =~= prev + seq![
                                PathCmd::LineTo(p.0, p.1),
                                PathCmd::LineTo(p.0, p.1),
                            ]);
                        }
                    }
                    j = j + 1;
                }
            }
            i = i + 1;
        }
    }
    cmds
}

/// Whether two byte strings are equal.
fn bytes_eq(a: &Vec<u8>, b: &Vec<u8>) -> (r: bool)
    ensures
        r == (a@ == b@),
{
    if a.len() != b.len() {
        proof {
            assert(a@ != b@);
        }
        return false;
    }
    let n = a.len();
    let mut i: usize = 0;
    while i < n
        invariant
            i <= n == a@.len() == b@.len(),
            forall|k: int| 0 <= k < i ==> a@[k] == b@[k],
        decreases n - i,
    {
        if a[i] != b[i] {
            return false;
        }
        i = i + 1;
    }
    proof {
        assert(a@ =~= b@);
    }
    true
}

/// Whether `needle` occurs contiguously inside `hay`.
fn find_sub(hay: &Vec<u8>, needle: &Vec<u8>) -> (r: bool)
    ensures
        r == contains_sub(hay@, needle@),
{
    let m = needle.len();
    let n = hay.len();
    if m == 0 {
        proof {
            assert(hay@.subrange(0, 0 + needle@.len() as int) =~= needle@);
            assert(contains_sub(hay@, needle@));
        }
        return true;
    }
    if m > n {
        proof {
            assert forall|i: int|
                !(0 <= i <= hay@.len() - needle@.len() && #[trigger] hay@.subrange(
                    i,
                    i + needle@.len() as int,
                ) == needle@) by {}
        }
        return false;
    }
    let mut i: usize = 0;
    while i <= n - m
        invariant
            m == needle@.len() <= n == hay@.len(),
            1 <= m,
            i <= n - m + 1,
            forall|k: int|
                0 <= k < i ==> #[trigger] hay@.subrange(k, k + needle@.len() as int) != needle@,
        decreases n - m + 1 - i,
    {
        let mut j: usize = 0;
        let mut matched = true;
        while j < m
            invariant
                m == needle@.len() <= n == hay@.len(),
                1 <= m,
                i <= n - m,
                j <= m,
                matched ==> forall|k: int| 0 <= k < j ==> hay@[i + k] == needle@[k],
                !matched ==> hay@.subrange(i as int, i + needle@.len() as int) != needle@,
            ensures
                matched ==> forall|k: int| 0 <= k < m ==> hay@[i + k] == needle@[k],
                !matched ==> hay@.subrange(i as int, i + needle@.len() as int) != needle@,
            decreases m - j,
        {
            if hay[i + j] != needle[j] {
                matched = false;
                proof {
                    assert(hay@.subrange(i as int, i + needle@.len() as int)[j as int] == hay@[i
                        + j]);
                }
                break ;
            }
            j = j + 1;
        }
        if matched {
            proof {
                assert(hay@.subrange(i as int, i + needle@.len() as int) =~= needle@);
            }
            return true;
        }
        i = i + 1;
    }
    proof {
        assert forall|k: int|
            !(0 <= k <= hay@.len() - needle@.len() && #[trigger] hay@.subrange(
                k,
                k + needle@.len() as int,
            ) == needle@) by {
            if 0 <= k <= hay@.len() - needle@.len() {
                assert(hay@.subrange(k, k + needle@.len() as int) != needle@);
            }
        }
    }
    false
}

/// Executable style lookup.
pub fn style_for(name: &Vec<u8>) -> (st: Style)
    ensures
        st == spec_style_for(name@),
{
    let building: Vec<u8> = vec![98u8, 117u8, 105u8, 108u8, 100u8, 105u8, 110u8, 103u8];
    let park: Vec<u8> = vec![112u8, 97u8, 114u8, 107u8];
    let water: Vec<u8> = vec![119u8, 97u8, 116u8, 101u8, 114u8];
    let mountain: Vec<u8> = vec![109u8, 111u8, 117u8, 110u8, 116u8, 97u8, 105u8, 110u8];
    let land: Vec<u8> = vec![108u8, 97u8, 110u8, 100u8];
    proof {
        assert(building@ =~= name_building());
        assert(park@ =~= name_park());
        assert(water@ =~= frag_water());
        assert(mountain@ =~= frag_mountain());
        assert(land@ =~= frag_land());
    }
    if bytes_eq(name, &building) {
        Style { op: DrawOp::Fill, red: 255, green: 255, blue: 255, alpha_millis: 500, stroke_width: 0 }
    } else if bytes_eq(name, &park) {
        Style { op: DrawOp::Fill, red: 0, green: 255, blue: 0, alpha_millis: 500, stroke_width: 0 }
    } else if find_sub(name, &water) || find_sub(name, &mountain) || find_sub(name, &land) {
        Style { op: DrawOp::Skip, red: 0, green: 0, blue: 0, alpha_millis: 0, stroke_width: 0 }
    } else {
        Style { op: DrawOp::Stroke, red: 255, green: 255, blue: 255, alpha_millis: 1000, stroke_width: 10 }
    }
}

/// A feature of an unsupported geometry kind (anything but point, line or
/// polygon — a collection, a rectangle, a triangle) paints nothing, while
/// the plan it stands in is still produced in full: one odd feature never
/// costs the tile.
pub proof fn lemma_unknown_kind_paints_nothing(f: FeatureV, zoom: u32)
    requires
        f.geom_type != 1,
        f.geom_type != 2,
        f.geom_type != 3,
    ensures
        spec_feature_cmds(f, zoom) == Seq::<PathCmd>::empty(),
{
}

/// The paint tasks of one layer's features appended to `acc`, all with the
/// layer's style.
pub open spec fn spec_layer_tasks(
    feats: Seq<FeatureV>,
    style: Style,
    zoom: u32,
    i: int,
    acc: Seq<DrawTaskV>,
) -> Seq<DrawTaskV>
    decreases feats.len() - i when 0 <= i <= feats.len()
{
    if i >= feats.len() {
        acc
    } else {
        spec_layer_tasks(
            feats,
            style,
            zoom,
            i + 1,
            acc.push(DrawTaskV { cmds: spec_feature_cmds(feats[i], zoom), style }),
        )
    }
}

/// The paint tasks of a whole tile appended to `acc`: layers whose style is
/// reserved contribute nothing, the rest contribute one task per feature in
/// order.
pub open spec fn spec_plan_tasks(layers: Seq<TileLayerV>, zoom: u32, i: int, acc: Seq<DrawTaskV>)
    -> Seq<DrawTaskV>
    decreases layers.len() - i when 0 <= i <= layers.len()
{
    if i >= layers.len() {
        acc
    } else {
        let st = spec_style_for(layers[i].name);
        spec_plan_tasks(
            layers,
            zoom,
            i + 1,
            if st.op == DrawOp::Skip {
                acc
            } else {
                spec_layer_tasks(layers[i].features, st, zoom, 0, acc)
            },
        )
    }
}

/// The paint tasks a byte payload produces: a malformed payload paints
/// nothing (the blank tile).
pub open spec fn spec_tasks_of(bytes: Seq<u8>, zoom: u32) -> Seq<DrawTaskV> {
    match spec_decode_tile(bytes) {
        Option::None => Seq::empty(),
        Option::Some(layers) => spec_plan_tasks(layers, zoom, 0, Seq::empty()),
    }
}

/// Calibration constant, in parts per 10^12, reconciling the tile's internal
/// coordinate space with the surface size.
pub const RASTER_CORRECTION_E12: u64 = 597_014_925_373;

/// The zoom level whose tile width calibrates the raster scale.
pub const RASTER_REFERENCE_ZOOM: u32 = 14;

/// The reference tile width in whole metres, rounded to nearest.
pub open spec fn spec_ref_tile_width_m() -> int {
    (EARTH_CIRCUMFERENCE_MM as int / pow2(RASTER_REFERENCE_ZOOM as nat) as int + 500) / 1000
}

/// The surface scale in millionths: `size / reference_width * correction`.
pub open spec fn spec_raster_scale_micro(size: u32) -> int {
    (size * RASTER_CORRECTION_E12) as int / (spec_ref_tile_width_m() * 1_000_000)
}

/// Executable surface scale.
pub fn raster_scale_micro(size: u32) -> (r: u64)
    requires
        1 <= size <= 100_000,
    ensures
        r == spec_raster_scale_micro(size),
{
    let wmm = tile_width_millimeters(RASTER_REFERENCE_ZOOM);
    proof {
        vstd::arithmetic::power2::lemma2_to64();
        assert((size as int) * (RASTER_CORRECTION_E12 as int) <= 100_000 * 597_014_925_373)
            by (nonlinear_arith)
            requires
                1 <= (size as int) <= 100_000,
                RASTER_CORRECTION_E12 == 597_014_925_373,
        ;
    }
    let wm = (wmm + 500) / 1000;
    let num = (size as u64) * RASTER_CORRECTION_E12;
    num / (wm * 1_000_000)
}

/// The full render plan for a tile payload: the surface size, the surface
/// scale, and the paint tasks.
pub open spec fn spec_render_plan(bytes: Seq<u8>, size: u32, zoom: u32) -> RenderPlanV {
    RenderPlanV {
        size,
        scale_micro: spec_raster_scale_micro(size) as u64,
        tasks: spec_tasks_of(bytes, zoom),
    }
}

/// Appends one paint task per feature of a layer, all with the layer's
/// style.
fn push_layer_tasks(
    feats: &Vec<Feature>,
    style: Style,
    zoom: u32,
    tasks: &mut Vec<DrawTask>,
)
    ensures
        final(tasks)@.map_values(|t: DrawTask| t@) == spec_layer_tasks(
            feats@.map_values(|f: Feature| f@),
            style,
            zoom,
            0,
            old(tasks)@.map_values(|t: DrawTask| t@),
        ),
{
    let m = feats.len();
    let mut j: usize = 0;
    while j < m
        invariant
            j <= m == feats@.len(),
            spec_layer_tasks(
                feats@.map_values(|f: Feature| f@),
                style,
                zoom,
                0,
                old(tasks)@.map_values(|t: DrawTask| t@),
            ) == spec_layer_tasks(
                feats@.map_values(|f: Feature| f@),
                style,
                zoom,
                j as int,
                tasks@.map_values(|t: DrawTask| t@),
            ),
        decreases m - j,
    {
        let cmds = feature_cmds(&feats[j], zoom);
        let ghost prev = tasks@.map_values(|t: DrawTask| t@);
        let task = DrawTask { cmds, style };
        let ghost tv = task@;
        tasks.push(task);
        proof {
            assert(feats@.map_values(|f: Feature| f@)[j as int] == feats@[j as int]@);
            assert(tasks@.map_values(|t: DrawTask| t@) =~= prev.push(tv));
        }
        j = j + 1;
    }
}

/// Turns a raw tile payload into the plan for a `size` by `size` surface at
/// `zoom`.  Total: a payload that does not decode paints nothing, and
/// features of unknown geometry kinds contribute no pen commands, so one bad
/// feature never costs the tile.
pub fn get_ofm_data(data: &Vec<u8>, size: u32, zoom: u32) -> (plan: RenderPlan)
    requires
        1 <= size <= 100_000,
    ensures
        plan@ == spec_render_plan(data@, size, zoom),
{
    let scale_micro = raster_scale_micro(size);
    let mut tasks: Vec<DrawTask> = Vec::new();
    proof {
        assert(tasks@.map_values(|t: DrawTask| t@) =~= Seq::<DrawTaskV>::empty());
    }
    match decode_tile(data) {
        None => {},
        Some(layers) => {
            let ghost lv = layers_view(layers@);
            let n = layers.len();
            let mut i: usize = 0;
            while i < n
                invariant
                    i <= n == layers@.len(),
                    lv == layers_view(layers@),
                    spec_plan_tasks(lv, zoom, 0, Seq::empty()) == spec_plan_tasks(
                        lv,
                        zoom,
                        i as int,
                        tasks@.map_values(|t: DrawTask| t@),
                    ),
                decreases n - i,
            {
                let style = style_for(&layers[i].name);
                proof {
                    assert(lv[i as int] == layers@[i as int]@);
                }
                if !matches!(style.op, DrawOp::Skip) {
                    push_layer_tasks(&layers[i].features, style, zoom, &mut tasks);
                    proof {
                        assert(layers@[i as int]@.features == layers@[i as int].features@.map_values(
                            |f: Feature| f@,
                        ));
                    }
                }
                i = i + 1;
            }
            proof {
                assert(spec_tasks_of(data@, zoom) == tasks@.map_values(|t: DrawTask| t@));
            }
        },
    }
    RenderPlan { size, scale_micro, tasks }
}

} // verus!
