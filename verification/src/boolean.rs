use vstd::prelude::*;
use crate::polyline::Polyline;

verus! {

/// A set operation between two closed polylines.
#[derive(Clone, Copy, Debug, PartialEq, Eq, Structural)]
pub enum BooleanOp {
    /// Union.
    Or,
    /// Intersection.
    And,
    /// The first without the second.
    Not,
    /// What lies in exactly one of the two.
    Xor,
}

/// The operation that a numeric code stands for, if any.
pub open spec fn op_of_code(code: int) -> Option<BooleanOp> {
    if code == 0 {
        Some(BooleanOp::Or)
    } else if code == 1 {
        Some(BooleanOp::And)
    } else if code == 2 {
        Some(BooleanOp::Not)
    } else if code == 3 {
        Some(BooleanOp::Xor)
    } else {
        None
    }
}

impl BooleanOp {
    /// The numeric code of the operation.
    pub open spec fn code_spec(self) -> int {
        match self {
            BooleanOp::Or => 0,
            BooleanOp::And => 1,
            BooleanOp::Not => 2,
            BooleanOp::Xor => 3,
        }
    }

    /// Decodes an operation: 0 is `Or`, 1 `And`, 2 `Not`, 3 `Xor`; any other
    /// code stands for none.
    pub fn from_code(code: i32) -> (op: Option<BooleanOp>)
        ensures
            op == op_of_code(code as int),
            op.is_some() <==> 0 <= code <= 3,
    {
        if code == 0 {
            Some(BooleanOp::Or)
        } else if code == 1 {
            Some(BooleanOp::And)
        } else if code == 2 {
            Some(BooleanOp::Not)
        } else if code == 3 {
            Some(BooleanOp::Xor)
        } else {
            None
        }
    }

    /// The numeric code of the operation.
    pub fn code(self) -> (c: i32)
        ensures
            c == self.code_spec(),
            op_of_code(c as int) == Some(self),
    {
        match self {
            BooleanOp::Or => 0,
            BooleanOp::And => 1,
            BooleanOp::Not => 2,
            BooleanOp::Xor => 3,
        }
    }
}

/// Decoding the code of an operation gives the operation back, and a code
/// that decodes to an operation is the code of that operation.
pub proof fn lemma_code_round_trip(op: BooleanOp, code: int)
    ensures
        op_of_code(op.code_spec()) == Some(op),
        op_of_code(code) == Some(op) ==> code == op.code_spec(),
{
}

/// The loops of a boolean operation: outer boundaries and holes.
#[derive(Clone, Debug, PartialEq)]
pub struct BooleanResult<T> {
    /// Counterclockwise loops: boundaries that the operation gained or kept.
    pub pos_plines: Vec<Polyline<T>>,
    /// Clockwise loops: holes.
    pub neg_plines: Vec<Polyline<T>>,
}

} // verus!
