//! Block-decomposition multiplication of square, power-of-two-sized matrices
//! of 64-bit integers, with wrapping (two's-complement) arithmetic.
//!
//! The multiplier splits each operand into four quadrants, recurses on the
//! quadrants, and falls back to a direct triple loop below a size threshold.
//! Sub-matrices are addressed through offsets into the backing matrix, so no
//! quadrant is ever copied.

mod arith;
mod constraints;
mod mat_multiply;
mod validation;

pub use arith::wrap_i64;
pub use constraints::{in_region, is_square, off_in, view_ent};
pub use constraints::{MatrixWithOffset, Offset, Split};
pub use mat_multiply::{dot, is_identity, multiply_post, product_entry, region_is_product};
pub use mat_multiply::{
    lemma_multiply_deterministic, lemma_multiply_identity_left, lemma_multiply_identity_right,
};
pub use mat_multiply::{multiply, naive_multiply_into, same_shape, unchanged_outside, THRESHOLD};
pub use validation::{is_pow2, valid_matrix, validate_matrices_spec, validate_matrix_spec};
pub use validation::{validate_matrices, validate_matrix, MatricesError, MatrixError, Operand};
