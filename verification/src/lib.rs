//! Plain-value layer of a 2D polyline toolkit: polylines of vertexes with
//! bulges, bounding boxes for a static spatial index, nearest-neighbour
//! collection and boolean operation codes. Every function is generic in the
//! scalar type and is proved against a mathematical model of its data.

pub mod boolean;
pub mod failure;
pub mod polyline;
pub mod records;
pub mod spatial;

pub use boolean::{BooleanOp, BooleanResult};
pub use failure::{first_rejected, operation_from_code, ContractViolation};
pub use polyline::{pline_vertexes_to_data, Polyline, Vertex};
pub use records::{ArcShape, ClosestPoint, Point, PolylineProperties, RawOffsetSeg};
pub use spatial::{Aabb, Control, NeighborSearch, StaticAABB2DIndex};
