//! The configured geographic region (geofence): a polygon over integer
//! microdegree coordinates, with exact point-in-polygon containment by
//! crossing parity.

use crate::model::GeoPoint;
use vstd::prelude::*;

verus! {

/// Whether the polygon edge from `a` to `b` crosses the eastward ray from
/// `p`: the edge spans the latitude of `p` (lower endpoint inclusive,
/// upper exclusive) and the crossing lies strictly east of `p`. Stated by
/// cross-multiplication, so it is exact over the integers.
pub open spec fn edge_crosses(a: GeoPoint, b: GeoPoint, p: GeoPoint) -> bool {
    ((a.lat_udeg > p.lat_udeg) != (b.lat_udeg > p.lat_udeg)) && {
        let d = b.lat_udeg - a.lat_udeg;
        if d > 0 {
            (p.lon_udeg - a.lon_udeg) * d < (b.lon_udeg - a.lon_udeg) * (p.lat_udeg - a.lat_udeg)
        } else {
            (p.lon_udeg - a.lon_udeg) * d > (b.lon_udeg - a.lon_udeg) * (p.lat_udeg - a.lat_udeg)
        }
    }
}

/// The number of edges of `poly` (edge `j` runs from vertex `j` to vertex
/// `j + 1`, wrapping around) with index at least `i` that cross the
/// eastward ray from `p`.
pub open spec fn crossings_from(poly: Seq<GeoPoint>, p: GeoPoint, i: int) -> nat
    decreases poly.len() - i,
{
    if i < 0 || i >= poly.len() {
        0
    } else {
        let a = poly[i];
        let b = poly[if i + 1 == poly.len() {
            0
        } else {
            i + 1
        }];
        (if edge_crosses(a, b, p) {
            1nat
        } else {
            0nat
        }) + crossings_from(poly, p, i + 1)
    }
}

/// Point-in-polygon by crossing parity: `p` lies inside `poly` exactly
/// when the eastward ray from `p` crosses an odd number of edges.
pub open spec fn in_region(poly: Seq<GeoPoint>, p: GeoPoint) -> bool {
    crossings_from(poly, p, 0) % 2 == 1
}

/// The configured acceptance region.
#[derive(Debug)]
pub struct Region {
    pub vertices: Vec<GeoPoint>,
}

impl View for Region {
    type V = Seq<GeoPoint>;

    open spec fn view(&self) -> Seq<GeoPoint> {
        self.vertices@
    }
}

impl Region {
    /// A usable region is a polygon of valid WGS84 vertices.
    pub open spec fn wf(self) -> bool {
        &&& self@.len() >= 3
        &&& forall|i: int| 0 <= i < self@.len() ==> (#[trigger] self@[i]).wf()
    }

    /// Build a region from its vertices; `None` unless they form a
    /// polygon of valid WGS84 coordinates.
    pub fn new(vertices: Vec<GeoPoint>) -> (r: Option<Region>)
        ensures
            match r {
                Some(region) => region.wf() && region@ == vertices@,
                None => !(Region { vertices }).wf(),
            },
    {
        if vertices.len() < 3 {
            return None;
        }
        let mut i: usize = 0;
        while i < vertices.len()
            invariant
                i <= vertices@.len(),
                forall|j: int| 0 <= j < i ==> (#[trigger] vertices@[j]).wf(),
            decreases vertices@.len() - i,
        {
            let v = vertices[i];
            if v.lon_udeg < -180_000_000 || v.lon_udeg > 180_000_000 || v.lat_udeg < -90_000_000
                || v.lat_udeg > 90_000_000 {
                return None;
            }
            i = i + 1;
        }
        Some(Region { vertices })
    }

    /// Exact containment test: `p` is inside the region precisely when the
    /// crossing count of the eastward ray is odd.
    pub fn contains(&self, p: GeoPoint) -> (b: bool)
        requires
            self.wf(),
            p.wf(),
        ensures
            b == in_region(self@, p),
    {
        let n = self.vertices.len();
        let mut count: usize = 0;
        let mut i: usize = 0;
        while i < n
            invariant
                self.wf(),
                p.wf(),
                n == self@.len(),
                i <= n,
                count <= i,
                count + crossings_from(self@, p, i as int) == crossings_from(self@, p, 0),
            decreases n - i,
        {
            let a = self.vertices[i];
            let b = self.vertices[if i + 1 == n {
                0
            } else {
                i + 1
            }];
            if Self::edge_test(a, b, p) {
                count = count + 1;
            }
            i = i + 1;
        }
        count % 2 == 1
    }

    /// One edge of the crossing test, computed exactly in 64-bit integers.
    fn edge_test(a: GeoPoint, b: GeoPoint, p: GeoPoint) -> (c: bool)
        requires
            a.wf(),
            b.wf(),
            p.wf(),
        ensures
            c == edge_crosses(a, b, p),
    {
        if (a.lat_udeg > p.lat_udeg) == (b.lat_udeg > p.lat_udeg) {
            return false;
        }
        let d: i64 = b.lat_udeg - a.lat_udeg;
        let dx: i64 = p.lon_udeg - a.lon_udeg;
        let ex: i64 = b.lon_udeg - a.lon_udeg;
        let ey: i64 = p.lat_udeg - a.lat_udeg;
        proof {
            assert(-0x7fff_ffff_ffff_ffff <= dx * d <= 0x7fff_ffff_ffff_ffff && -0x7fff_ffff_ffff_ffff
                <= ex * ey <= 0x7fff_ffff_ffff_ffff) by (nonlinear_arith)
                requires
                    -360_000_000 <= dx <= 360_000_000,
                    -180_000_000 <= d <= 180_000_000,
                    -360_000_000 <= ex <= 360_000_000,
                    -180_000_000 <= ey <= 180_000_000,
            ;
        }
        let lhs: i64 = dx * d;
        let rhs: i64 = ex * ey;
        if d > 0 {
            lhs < rhs
        } else {
            lhs > rhs
        }
    }
}

} // verus!
