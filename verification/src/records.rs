use vstd::prelude::*;
use crate::polyline::Vertex;
use crate::spatial::Aabb;

verus! {

/// A point of the plane.
#[derive(Clone, Copy, Debug, PartialEq)]
pub struct Point<T> {
    pub x: T,
    pub y: T,
}

/// The position of a vertex, without its bulge.
pub open spec fn position_of<T>(v: Vertex<T>) -> Point<T> {
    Point { x: v.x, y: v.y }
}

/// The point of a polyline nearest to a query point.
#[derive(Clone, Copy, Debug, PartialEq)]
pub struct ClosestPoint<T> {
    /// Index of the vertex that starts the segment holding the point.
    pub start_index: u32,
    pub x: T,
    pub y: T,
    pub distance: T,
}

impl<T: Copy> ClosestPoint<T> {
    /// The record of a nearest point on the segment that starts at
    /// `seg_start_index`; none where that index does not fit in 32 bits.
    pub fn new(seg_start_index: usize, seg_point: Point<T>, distance: T) -> (record: Option<Self>)
        ensures
            record.is_some() <==> seg_start_index <= u32::MAX,
            record matches Some(r) ==> r == (ClosestPoint {
                start_index: seg_start_index as u32,
                x: seg_point.x,
                y: seg_point.y,
                distance,
            }),
    {
        if seg_start_index <= u32::MAX as usize {
            Some(
                ClosestPoint {
                    start_index: seg_start_index as u32,
                    x: seg_point.x,
                    y: seg_point.y,
                    distance,
                },
            )
        } else {
            None
        }
    }
}

/// The circle that an arc segment lies on, and its direction.
#[derive(Clone, Copy, Debug, PartialEq)]
pub struct ArcShape<T> {
    pub radius: T,
    pub center: Point<T>,
    /// Whether the arc runs counterclockwise.
    pub is_ccw: bool,
}

/// One segment of a raw offset, before trimming.
#[derive(Clone, Copy, Debug, PartialEq)]
pub struct RawOffsetSeg<T> {
    pub start_point: Point<T>,
    pub end_point: Point<T>,
    /// Whether the segment stands for an arc whose offset radius reached or
    /// passed zero.
    pub collapsed_arc: bool,
    /// The arc's circle; none for a straight segment.
    pub arc: Option<ArcShape<T>>,
}

impl<T: Copy> RawOffsetSeg<T> {
    /// The record of the offset segment from `start` to `end`.
    pub fn new(start: Vertex<T>, end: Vertex<T>, collapsed_arc: bool, arc: Option<ArcShape<T>>) -> (seg:
        Self)
        ensures
            seg == (RawOffsetSeg {
                start_point: position_of(start),
                end_point: position_of(end),
                collapsed_arc,
                arc,
            }),
    {
        RawOffsetSeg {
            start_point: Point { x: start.x, y: start.y },
            end_point: Point { x: end.x, y: end.y },
            collapsed_arc,
            arc,
        }
    }

    /// Whether the segment is an arc.
    pub fn is_arc(&self) -> (a: bool)
        ensures
            a == self.arc.is_some(),
    {
        self.arc.is_some()
    }
}

/// Measures of a polyline, taken after its redundant vertexes are removed.
#[derive(Clone, Copy, Debug, PartialEq)]
pub struct PolylineProperties<T> {
    pub vertex_count: u32,
    pub area: T,
    pub path_length: T,
    pub min_x: T,
    pub min_y: T,
    pub max_x: T,
    pub max_y: T,
}

impl<T: Copy> PolylineProperties<T> {
    /// The record of the measures of a polyline of `vertex_count` vertexes;
    /// none where that count does not fit in 32 bits.
    pub fn new(vertex_count: usize, area: T, path_length: T, extents: Aabb<T>) -> (record: Option<Self>)
        ensures
            record.is_some() <==> vertex_count <= u32::MAX,
            record matches Some(r) ==> r == (PolylineProperties {
                vertex_count: vertex_count as u32,
                area,
                path_length,
                min_x: extents.min_x,
                min_y: extents.min_y,
                max_x: extents.max_x,
                max_y: extents.max_y,
            }),
    {
        if vertex_count <= u32::MAX as usize {
            Some(
                PolylineProperties {
                    vertex_count: vertex_count as u32,
                    area,
                    path_length,
                    min_x: extents.min_x,
                    min_y: extents.min_y,
                    max_x: extents.max_x,
                    max_y: extents.max_y,
                },
            )
        } else {
            None
        }
    }
}

} // verus!
