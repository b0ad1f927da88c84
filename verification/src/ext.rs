//! Declarations of the outside vector-math types the core's signatures
//! carry: cgmath's fixed-size vectors and genmesh's triangle. All three are
//! plain field carriers; declaring them transparently lets contracts speak
//! of their fields directly.

use vstd::prelude::*;

verus! {

/// Relies on cgmath::Vector2: a pair of public fields `x`, `y`.
#[verifier::external_type_specification]
pub struct ExVector2<S>(cgmath::Vector2<S>);

/// Relies on cgmath::Vector3: a triple of public fields `x`, `y`, `z`.
#[verifier::external_type_specification]
pub struct ExVector3<S>(cgmath::Vector3<S>);

/// Relies on genmesh::Triangle: three public per-vertex fields `x`, `y`,
/// `z`.
#[verifier::external_type_specification]
pub struct ExTriangle<T>(genmesh::Triangle<T>);

} // verus!
