use vstd::prelude::*;
use crate::boolean::{op_of_code, BooleanOp};

verus! {

/// An input that breaks the contract of an operation. Such an input is
/// refused at the boundary; it is never turned into an empty result.
#[derive(Clone, Copy, Debug, PartialEq, Eq, Structural)]
pub enum ContractViolation {
    /// Vertex data whose length is no multiple of three.
    VertexData { len: usize },
    /// Box data whose length is no multiple of four.
    BoxData { len: usize },
    /// A code that stands for no boolean operation.
    OperationCode { code: i32 },
    /// A coordinate or bulge that is not a finite number, at `index` of the
    /// data handed in.
    NonFinite { index: usize },
}

/// Whether a test answers one way only on each value.
pub open spec fn decided<T, F: Fn(T) -> bool>(test: F) -> bool {
    forall|a: T| #[trigger] test.ensures((a,), false) ==> !test.ensures((a,), true)
}

/// Whether the test admits every value of `data`: `answers(a, r)` says that
/// the test may answer `r` on `a`.
pub open spec fn all_pass<T>(data: Seq<T>, answers: spec_fn(T, bool) -> bool) -> bool {
    forall|i: int| 0 <= i < data.len() ==> answers(#[trigger] data[i], true)
}

/// Whether `index` is the first place of `data` that the test refuses.
pub open spec fn first_failure<T>(
    data: Seq<T>,
    answers: spec_fn(T, bool) -> bool,
    index: int,
) -> bool {
    &&& 0 <= index < data.len()
    &&& answers(data[index], false)
    &&& forall|j: int| 0 <= j < index ==> answers(#[trigger] data[j], true)
}

/// The first place of `data` that `accepts` refuses, if any.
pub fn first_rejected<T: Copy, F: Fn(T) -> bool>(data: &[T], accepts: F) -> (found: Option<usize>)
    requires
        forall|a: T| accepts.requires((a,)),
    ensures
        found is None ==> all_pass(data@, |a: T, r: bool| accepts.ensures((a,), r)),
        found matches Some(index) ==> first_failure(
            data@,
            |a: T, r: bool| accepts.ensures((a,), r),
            index as int,
        ),
{
    let n: usize = data.len();
    let mut i: usize = 0;
    while i < n
        invariant
            n == data@.len(),
            i <= n,
            forall|a: T| accepts.requires((a,)),
            forall|j: int| 0 <= j < i ==> accepts.ensures((#[trigger] data@[j],), true),
        decreases n - i,
    {
        if !accepts(data[i]) {
            return Some(i);
        }
        i += 1;
    }
    None
}

/// Decodes a boolean operation, or refuses a code that stands for none.
pub fn operation_from_code(code: i32) -> (result: Result<BooleanOp, ContractViolation>)
    ensures
        result.is_ok() <==> 0 <= code <= 3,
        result matches Ok(op) ==> op_of_code(code as int) == Some(op),
        result matches Err(e) ==> e == (ContractViolation::OperationCode { code }),
{
    match BooleanOp::from_code(code) {
        Some(op) => Ok(op),
        None => Err(ContractViolation::OperationCode { code }),
    }
}

} // verus!
