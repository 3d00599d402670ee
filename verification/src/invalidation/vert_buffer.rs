//! Quantised raster-space corners.
//!
//! Every primitive and every clip has the corners of its rectangle stored,
//! in raster space and in quarter pixels, in the vertex buffer of each tile
//! it touches. A tile descriptor then refers to a window of that buffer.

use vstd::prelude::*;
use crate::ids::SpatialNodeIndex;
use crate::units::{spec_clamp, clamp_i32, Point2D, RasterPoint, RasterRect};

verus! {

/// A window of a buffer: where it starts and how many elements it has.
///
/// In a tile's vertex buffer the elements are coordinates and a window has 4
/// of them (two corners of an axis-aligned rectangle) or 8 (four corners of
/// a quadrilateral). In the scratch of a [`CornersCache`] the elements are
/// points and a window has 2 or 4. A window of no elements is invalid: it
/// stands for a rectangle that could not be projected.
#[derive(Clone, Copy, Debug, PartialEq, Eq, Structural)]
pub struct VertRange {
    pub offset: u32,
    pub count: u32,
}

impl VertRange {
    pub open spec fn spec_invalid() -> VertRange {
        VertRange { offset: 0, count: 0 }
    }

    pub open spec fn spec_is_valid(self) -> bool {
        self.count > 0
    }

    /// The window lies inside a buffer of `len` elements.
    pub open spec fn fits(self, len: nat) -> bool {
        self.offset + self.count <= len
    }

    /// A window of a vertex buffer of `len` coordinates: invalid, or 4 or 8
    /// coordinates inside the buffer.
    pub open spec fn covers(self, len: nat) -> bool {
        &&& self.count == 0 || self.count == 4 || self.count == 8
        &&& self.fits(len)
    }

    /// The elements of the window.
    pub open spec fn window<T>(self, data: Seq<T>) -> Seq<T>
        recommends
            self.fits(data.len()),
    {
        data.subrange(self.offset as int, self.offset + self.count)
    }

    /// The invalid window.
    pub fn invalid() -> (r: VertRange)
        ensures
            r == Self::spec_invalid(),
    {
        VertRange { offset: 0, count: 0 }
    }

    pub fn is_valid(self) -> (r: bool)
        ensures
            r == self.spec_is_valid(),
    {
        self.count > 0
    }
}

/// How the spatial tree relates the node of a primitive to the node of the
/// tile cache.
#[derive(Clone, Copy, Debug, PartialEq, Eq, Structural)]
pub enum CoordinateSpaceMapping {
    /// The same space, or one that differs by an offset only.
    Local,
    /// A scale and an offset per axis; `reflection` says that a scale is
    /// negative.
    ScaleOffset { reflection: bool },
    /// Any other transform.
    Transform,
}

impl CoordinateSpaceMapping {
    /// The mapping as the cache keeps it: a scale with a reflection is kept
    /// as a full transform, so that the order of the corners is preserved.
    pub open spec fn spec_promoted(self) -> CoordinateSpaceMapping {
        match self {
            CoordinateSpaceMapping::ScaleOffset { reflection: true } => {
                CoordinateSpaceMapping::Transform
            },
            other => other,
        }
    }

    /// Whether rectangles stay axis-aligned, so that two corners describe
    /// them.
    pub open spec fn spec_axis_aligned(self) -> bool {
        !(self.spec_promoted() is Transform)
    }

    pub fn promoted(self) -> (r: CoordinateSpaceMapping)
        ensures
            r == self.spec_promoted(),
    {
        match self {
            CoordinateSpaceMapping::ScaleOffset { reflection: true } => {
                CoordinateSpaceMapping::Transform
            },
            other => other,
        }
    }
}

/// The four corners of one local rectangle as the caller projected them to
/// raster space, in quarter pixels. A corner that could not be projected
/// (the transform is not invertible, or the point lies behind the viewer) is
/// `None`.
#[derive(Clone, Copy, Debug)]
pub struct ProjectedCorners {
    /// The image of the rectangle's `min`.
    pub top_left: Option<RasterPoint>,
    /// The image of `(max.x, min.y)`.
    pub top_right: Option<RasterPoint>,
    /// The image of `(min.x, max.y)`.
    pub bottom_left: Option<RasterPoint>,
    /// The image of the rectangle's `max`.
    pub bottom_right: Option<RasterPoint>,
}

impl ProjectedCorners {
    /// The points that are kept for a rectangle under `mapping`: its `min`
    /// and `max` where rectangles stay axis-aligned, else all four corners.
    /// `None` where one of the points needed could not be projected.
    pub open spec fn points(self, mapping: CoordinateSpaceMapping) -> Option<Seq<RasterPoint>> {
        if mapping.spec_axis_aligned() {
            if self.top_left is Some && self.bottom_right is Some {
                Some(seq![self.top_left->0, self.bottom_right->0])
            } else {
                None
            }
        } else {
            if self.top_left is Some && self.top_right is Some && self.bottom_left is Some
                && self.bottom_right is Some {
                Some(
                    seq![
                        self.top_left->0,
                        self.top_right->0,
                        self.bottom_left->0,
                        self.bottom_right->0,
                    ],
                )
            } else {
                None
            }
        }
    }

    /// The corners of a rectangle that stays axis-aligned.
    pub fn axis_aligned(min: RasterPoint, max: RasterPoint) -> (r: ProjectedCorners)
        ensures
            r.top_left == Some(min),
            r.bottom_right == Some(max),
            r.top_right == Some(Point2D { x: max.x, y: min.y }),
            r.bottom_left == Some(Point2D { x: min.x, y: max.y }),
    {
        ProjectedCorners {
            top_left: Some(min),
            top_right: Some(Point2D { x: max.x, y: min.y }),
            bottom_left: Some(Point2D { x: min.x, y: max.y }),
            bottom_right: Some(max),
        }
    }
}

/// The coordinates of a list of points, `x` before `y`.
pub open spec fn flatten(points: Seq<RasterPoint>) -> Seq<i32> {
    Seq::new(
        2 * points.len(),
        |i: int|
            if i % 2 == 0 {
                points[i / 2].x
            } else {
                points[i / 2].y
            },
    )
}

/// A point moved into `rect`, each coordinate by itself.
pub open spec fn clamp_point(p: RasterPoint, rect: RasterRect) -> RasterPoint {
    Point2D {
        x: spec_clamp(p.x as int, rect.min.x as int, rect.max.x as int) as i32,
        y: spec_clamp(p.y as int, rect.min.y as int, rect.max.y as int) as i32,
    }
}

/// Each point of a list moved into `rect`.
pub open spec fn clamp_points(points: Seq<RasterPoint>, rect: RasterRect) -> Seq<RasterPoint> {
    Seq::new(points.len(), |i: int| clamp_point(points[i], rect))
}

/// Whether the points of a scratch window can be appended to a vertex buffer:
/// the window has two or four points, lies inside the scratch, and the buffer
/// stays addressable by 32-bit offsets.
pub open spec fn can_push(scratch_range: VertRange, scratch_len: nat, dst_len: nat) -> bool {
    &&& scratch_range.count == 2 || scratch_range.count == 4
    &&& scratch_range.fits(scratch_len)
    &&& dst_len + 2 * scratch_range.count <= u32::MAX
}

/// Scratch for the raster-space corners of one primitive, and a one-entry
/// cache of the spatial tree's answer for the primitive's node.
///
/// The scratch outlives the frame, so that its allocation is paid once.
/// Consecutive primitives of one scroll frame share a spatial node, and the
/// cache spares them the query of the spatial tree.
pub struct CornersCache {
    /// Corners of the current primitive, its coverage rectangle and its
    /// clips.
    scratch: Vec<RasterPoint>,
    /// The node that `cached_mapping` was computed for; `None` at the start of
    /// a frame.
    cached_node: Option<SpatialNodeIndex>,
    /// The promoted mapping of `cached_node`.
    cached_mapping: CoordinateSpaceMapping,
}

impl CornersCache {
    /// The points in the scratch.
    pub closed spec fn scratch(&self) -> Seq<RasterPoint> {
        self.scratch@
    }

    /// The node whose mapping is cached, with the mapping as it is kept.
    pub closed spec fn cached(&self) -> Option<(SpatialNodeIndex, CoordinateSpaceMapping)> {
        match self.cached_node {
            Some(node) => Some((node, self.cached_mapping)),
            None => None,
        }
    }

    pub fn new() -> (r: CornersCache)
        ensures
            r.scratch() == Seq::<RasterPoint>::empty(),
            r.cached() is None,
    {
        CornersCache {
            scratch: Vec::new(),
            cached_node: None,
            cached_mapping: CoordinateSpaceMapping::Local,
        }
    }

    /// Forgets the cached mapping. To be called once at the start of a frame.
    pub fn pre_update(&mut self)
        ensures
            final(self).cached() is None,
            final(self).scratch() == old(self).scratch(),
    {
        self.cached_node = None;
    }

    /// Empties the scratch. To be called once per primitive, before its
    /// rectangles are projected.
    pub fn clear_scratch(&mut self)
        ensures
            final(self).scratch() == Seq::<RasterPoint>::empty(),
            final(self).cached() == old(self).cached(),
    {
        self.scratch.clear();
    }

    /// The mapping that is cached for `node`, as it is kept; `None` where the
    /// spatial tree has to be asked.
    pub fn cached_mapping(&self, node: SpatialNodeIndex) -> (r: Option<CoordinateSpaceMapping>)
        ensures
            r == match self.cached() {
                Some((n, m)) => if n == node { Some(m) } else { None },
                None => None,
            },
    {
        match self.cached_node {
            Some(n) => if n.0 == node.0 { Some(self.cached_mapping) } else { None },
            None => None,
        }
    }

    /// Records the spatial tree's answer for `node`. A scale with a
    /// reflection is kept as a full transform. Returns the mapping as kept.
    pub fn set_relative_transform(
        &mut self,
        node: SpatialNodeIndex,
        mapping: CoordinateSpaceMapping,
    ) -> (r: CoordinateSpaceMapping)
        ensures
            r == mapping.spec_promoted(),
            final(self).cached() == Some((node, r)),
            final(self).scratch() == old(self).scratch(),
    {
        let kept = mapping.promoted();
        self.cached_mapping = kept;
        self.cached_node = Some(node);
        kept
    }

    /// Appends the corners of one rectangle of a primitive at
    /// `prim_spatial_node` to the scratch and returns their window.
    ///
    /// Two points are appended where the cached mapping keeps rectangles
    /// axis-aligned, four otherwise. Nothing is appended and the invalid
    /// window is returned where a corner that is needed could not be
    /// projected, where no mapping is cached for the node, or where the
    /// scratch would outgrow 32-bit offsets.
    pub fn compute_to_scratch(
        &mut self,
        prim_spatial_node: SpatialNodeIndex,
        corners: &ProjectedCorners,
    ) -> (r: VertRange)
        ensures
            final(self).cached() == old(self).cached(),
            match Self::spec_appended(old(self).cached(), old(self).scratch().len(),
                prim_spatial_node, *corners) {
                Some(points) => {
                    &&& final(self).scratch() == old(self).scratch() + points
                    &&& r.offset == old(self).scratch().len()
                    &&& r.count == points.len()
                    &&& r.count == 2 || r.count == 4
                },
                None => {
                    &&& final(self).scratch() == old(self).scratch()
                    &&& r == VertRange::spec_invalid()
                },
            },
    {
        let mapping = match self.cached_mapping(prim_spatial_node) {
            Some(m) => m.promoted(),
            None => { return VertRange::invalid(); },
        };
        let len = self.scratch.len();
        if len > 0xffff_fff0 {
            return VertRange::invalid();
        }
        let offset: u32 = len as u32;
        match mapping {
            CoordinateSpaceMapping::Transform => {
                match (
                    corners.top_left,
                    corners.top_right,
                    corners.bottom_left,
                    corners.bottom_right,
                ) {
                    (Some(a), Some(b), Some(c), Some(d)) => {
                        self.scratch.push(a);
                        self.scratch.push(b);
                        self.scratch.push(c);
                        self.scratch.push(d);
                        assert(self.scratch@ =~= old(self).scratch@ + seq![a, b, c, d]);
                        VertRange { offset, count: 4 }
                    },
                    _ => VertRange::invalid(),
                }
            },
            _ => {
                match (corners.top_left, corners.bottom_right) {
                    (Some(a), Some(d)) => {
                        self.scratch.push(a);
                        self.scratch.push(d);
                        assert(self.scratch@ =~= old(self).scratch@ + seq![a, d]);
                        VertRange { offset, count: 2 }
                    },
                    _ => VertRange::invalid(),
                }
            },
        }
    }

    /// The points that `compute_to_scratch` appends: those of `corners` under
    /// the mapping cached for `node`, if there is one and there is room.
    pub open spec fn spec_appended(
        cached: Option<(SpatialNodeIndex, CoordinateSpaceMapping)>,
        scratch_len: nat,
        node: SpatialNodeIndex,
        corners: ProjectedCorners,
    ) -> Option<Seq<RasterPoint>> {
        match cached {
            Some((n, m)) => if n == node && scratch_len <= 0xffff_fff0 {
                corners.points(m)
            } else {
                None
            },
            None => None,
        }
    }

    /// Appends the coordinates of the points of a scratch window to the
    /// vertex buffer `dst` and returns their window in `dst`.
    ///
    /// Where the window cannot be pushed (see [`can_push`]) `dst` is left as
    /// it is and the invalid window is returned.
    pub fn push_verts(&self, scratch_range: VertRange, dst: &mut Vec<i32>) -> (r: VertRange)
        ensures
            can_push(scratch_range, self.scratch().len(), old(dst)@.len()) ==> {
                &&& final(dst)@ == old(dst)@ + flatten(scratch_range.window(self.scratch()))
                &&& r.offset == old(dst)@.len()
                &&& r.count == 2 * scratch_range.count
            },
            !can_push(scratch_range, self.scratch().len(), old(dst)@.len()) ==> {
                &&& final(dst)@ == old(dst)@
                &&& r == VertRange::spec_invalid()
            },
            r.covers(final(dst)@.len()),
            r.count > 0 ==> r.offset == old(dst)@.len() && r.offset + r.count == final(dst)@.len(),
            final(dst)@.len() >= old(dst)@.len(),
            final(dst)@.subrange(0, old(dst)@.len() as int) == old(dst)@,
    {
        if !self.pushable(scratch_range, dst) {
            return VertRange::invalid();
        }
        let offset: u32 = dst.len() as u32;
        let start: usize = scratch_range.offset as usize;
        let count: usize = scratch_range.count as usize;
        let total: usize = self.scratch.len();
        let ghost points = scratch_range.window(self.scratch@);
        let mut i: usize = 0;
        while i < count
            invariant
                i <= count,
                count == scratch_range.count,
                start == scratch_range.offset,
                start + count <= total,
                total == self.scratch@.len(),
                old(dst)@.len() + 2 * count <= u32::MAX,
                points == scratch_range.window(self.scratch@),
                dst@ == old(dst)@ + flatten(points.subrange(0, i as int)),
            decreases count - i,
        {
            let p = self.scratch[start + i];
            dst.push(p.x);
            dst.push(p.y);
            i += 1;
            assert(dst@ =~= old(dst)@ + flatten(points.subrange(0, i as int)));
        }
        assert(points.subrange(0, count as int) =~= points);
        VertRange { offset, count: scratch_range.count * 2 }
    }

    /// As [`CornersCache::push_verts`], with each point moved into
    /// `tile_rect` first.
    pub fn push_verts_clamped(
        &self,
        scratch_range: VertRange,
        tile_rect: &RasterRect,
        dst: &mut Vec<i32>,
    ) -> (r: VertRange)
        ensures
            can_push(scratch_range, self.scratch().len(), old(dst)@.len()) ==> {
                &&& final(dst)@ == old(dst)@ + flatten(
                    clamp_points(scratch_range.window(self.scratch()), *tile_rect),
                )
                &&& r.offset == old(dst)@.len()
                &&& r.count == 2 * scratch_range.count
            },
            !can_push(scratch_range, self.scratch().len(), old(dst)@.len()) ==> {
                &&& final(dst)@ == old(dst)@
                &&& r == VertRange::spec_invalid()
            },
            r.covers(final(dst)@.len()),
            r.count > 0 ==> r.offset == old(dst)@.len() && r.offset + r.count == final(dst)@.len(),
            final(dst)@.len() >= old(dst)@.len(),
            final(dst)@.subrange(0, old(dst)@.len() as int) == old(dst)@,
    {
        if !self.pushable(scratch_range, dst) {
            return VertRange::invalid();
        }
        let offset: u32 = dst.len() as u32;
        let start: usize = scratch_range.offset as usize;
        let count: usize = scratch_range.count as usize;
        let total: usize = self.scratch.len();
        let ghost points = clamp_points(scratch_range.window(self.scratch@), *tile_rect);
        let mut i: usize = 0;
        while i < count
            invariant
                i <= count,
                count == scratch_range.count,
                start == scratch_range.offset,
                start + count <= total,
                total == self.scratch@.len(),
                old(dst)@.len() + 2 * count <= u32::MAX,
                points == clamp_points(scratch_range.window(self.scratch@), *tile_rect),
                dst@ == old(dst)@ + flatten(points.subrange(0, i as int)),
            decreases count - i,
        {
            let p = self.scratch[start + i];
            dst.push(clamp_i32(p.x, tile_rect.min.x, tile_rect.max.x));
            dst.push(clamp_i32(p.y, tile_rect.min.y, tile_rect.max.y));
            i += 1;
            assert(dst@ =~= old(dst)@ + flatten(points.subrange(0, i as int)));
        }
        assert(points.subrange(0, count as int) =~= points);
        VertRange { offset, count: scratch_range.count * 2 }
    }

    /// Whether the points of `scratch_range` can be appended to `dst`.
    fn pushable(&self, scratch_range: VertRange, dst: &Vec<i32>) -> (r: bool)
        ensures
            r == can_push(scratch_range, self.scratch().len(), dst@.len()),
    {
        let two_or_four = scratch_range.count == 2 || scratch_range.count == 4;
        if !two_or_four {
            return false;
        }
        let end: u64 = scratch_range.offset as u64 + scratch_range.count as u64;
        if end > self.scratch.len() as u64 {
            return false;
        }
        let room: usize = 2 * (scratch_range.count as usize);
        dst.len() <= 0xffff_ffff && dst.len() <= 0xffff_ffff - room
    }
}

} // verus!
