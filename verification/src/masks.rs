//! How several masks are combined into one.

use vstd::prelude::*;

verus! {

/// A bitwise operation on two masks.
#[derive(Clone, Copy, Debug, PartialEq, Eq, Structural)]
pub enum BitwiseOperation {
    And,
    Xor,
    Or,
}

/// Why masks cannot be combined.
#[derive(Clone, Copy, Debug, PartialEq, Eq, Structural)]
pub enum CombineError {
    /// There is no mask to start from.
    NothingProvided,
}

/// The operations that combine `count` masks into one: the first mask is
/// taken as it is, and each further mask is joined to the result so far by
/// `operation`. No masks cannot be combined.
pub fn combine_binaries(count: usize, operation: BitwiseOperation) -> (r: Result<
    Vec<BitwiseOperation>,
    CombineError,
>)
    ensures
        r is Err <==> count == 0,
        r matches Err(e) ==> e == CombineError::NothingProvided,
        r matches Ok(steps) ==> steps@ == Seq::new((count - 1) as nat, |i: int| operation),
{
    if count == 0 {
        return Err(CombineError::NothingProvided);
    }
    let mut steps: Vec<BitwiseOperation> = Vec::new();
    let mut i: usize = 1;
    while i < count
        invariant
            1 <= i <= count,
            steps@ =~= Seq::new((i - 1) as nat, |k: int| operation),
        decreases count - i,
    {
        steps.push(operation);
        i += 1;
    }
    Ok(steps)
}

} // verus!
