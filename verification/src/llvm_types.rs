//! What the native (LLVM) backend can lower.
use vstd::prelude::*;

use crate::ast::Type;

verus! {

/// The types the native backend's first phase can lower: the scalar types,
/// strings, errors, arrays, tuples, structs and functions.
pub open spec fn phase1_type(t: Type) -> bool {
    match t {
        Type::Kain | Type::Sar | Type::Sit | Type::DaTha | Type::Nil | Type::Error | Type::Array(_)
        | Type::Tuple(_) | Type::Struct(_) | Type::Function { .. } => true,
        _ => false,
    }
}

pub fn is_phase1_compatible(ty: &Type) -> (r: bool)
    ensures
        r == phase1_type(*ty),
{
    match ty {
        Type::Kain | Type::Sar | Type::Sit | Type::DaTha | Type::Nil | Type::Error | Type::Array(_)
        | Type::Tuple(_) | Type::Struct(_) | Type::Function { .. } => true,
        _ => false,
    }
}

/// Whether this build links the native code generator; it does not.
pub fn llvm_backend_available() -> (r: bool)
    ensures
        !r,
{
    false
}

} // verus!
