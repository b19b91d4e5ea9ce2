//! Validation of the matrices handed to the multiplier: a matrix must be
//! non-empty, square, and of power-of-two dimension, and a pair must agree in
//! dimension. The first failing check determines the reported error.

use crate::constraints::is_square;
use vstd::prelude::*;

verus! {

/// What is wrong with a single matrix.
#[derive(Clone, Copy, PartialEq, Eq, Debug, Structural)]
pub enum MatrixError {
    /// The row count is not a power of two.
    NotPowerOfTwo,
    /// Some row's length differs from the row count.
    NotSquare,
    /// The matrix has zero rows.
    Empty,
}

/// Which operand of the multiplication an error belongs to.
#[derive(Clone, Copy, PartialEq, Eq, Debug, Structural)]
pub enum Operand {
    A,
    B,
}

/// What is wrong with a pair of matrices.
#[derive(Clone, Copy, PartialEq, Eq, Debug, Structural)]
pub enum MatricesError {
    /// One operand is invalid on its own; `name` says which one.
    MatrixError { name: Operand, source: MatrixError },
    /// Both operands are valid on their own but differ in dimension.
    MatricesNotTheSameSize,
}

impl MatrixError {
    /// A textual description of the violation.
    pub fn message(&self) -> (r: &'static str)
        ensures
            *self == MatrixError::NotPowerOfTwo ==> r@ == "Matrix is not a power of two"@,
            *self == MatrixError::NotSquare ==> r@ == "Matrix is not square"@,
            *self == MatrixError::Empty ==> r@ == "Matrix is empty"@,
    {
        match self {
            MatrixError::NotPowerOfTwo => "Matrix is not a power of two",
            MatrixError::NotSquare => "Matrix is not square",
            MatrixError::Empty => "Matrix is empty",
        }
    }
}

impl MatricesError {
    /// A textual description combining the operand label and the violation.
    pub fn message(&self) -> (r: &'static str)
        ensures
            *self == (MatricesError::MatrixError { name: Operand::A, source: MatrixError::NotPowerOfTwo })
                ==> r@ == "A: Matrix is not a power of two"@,
            *self == (MatricesError::MatrixError { name: Operand::A, source: MatrixError::NotSquare })
                ==> r@ == "A: Matrix is not square"@,
            *self == (MatricesError::MatrixError { name: Operand::A, source: MatrixError::Empty })
                ==> r@ == "A: Matrix is empty"@,
            *self == (MatricesError::MatrixError { name: Operand::B, source: MatrixError::NotPowerOfTwo })
                ==> r@ == "B: Matrix is not a power of two"@,
            *self == (MatricesError::MatrixError { name: Operand::B, source: MatrixError::NotSquare })
                ==> r@ == "B: Matrix is not square"@,
            *self == (MatricesError::MatrixError { name: Operand::B, source: MatrixError::Empty })
                ==> r@ == "B: Matrix is empty"@,
            *self == MatricesError::MatricesNotTheSameSize
                ==> r@ == "Matrix A and B are not the same size"@,
    {
        match self {
            MatricesError::MatrixError { name: Operand::A, source: MatrixError::NotPowerOfTwo } => {
                "A: Matrix is not a power of two"
            },
            MatricesError::MatrixError { name: Operand::A, source: MatrixError::NotSquare } => {
                "A: Matrix is not square"
            },
            MatricesError::MatrixError { name: Operand::A, source: MatrixError::Empty } => {
                "A: Matrix is empty"
            },
            MatricesError::MatrixError { name: Operand::B, source: MatrixError::NotPowerOfTwo } => {
                "B: Matrix is not a power of two"
            },
            MatricesError::MatrixError { name: Operand::B, source: MatrixError::NotSquare } => {
                "B: Matrix is not square"
            },
            MatricesError::MatrixError { name: Operand::B, source: MatrixError::Empty } => {
                "B: Matrix is empty"
            },
            MatricesError::MatricesNotTheSameSize => "Matrix A and B are not the same size",
        }
    }
}

/// `n` is a power of two: 1, 2, 4, 8, ...
pub open spec fn is_pow2(n: nat) -> bool
    decreases n,
{
    if n == 0 {
        false
    } else if n == 1 {
        true
    } else {
        n % 2 == 0 && is_pow2(n / 2)
    }
}

/// The matrix is non-empty, its row count is a power of two, and it is square.
pub open spec fn valid_matrix<T>(m: Seq<Vec<T>>) -> bool {
    m.len() > 0 && is_pow2(m.len() as nat) && is_square(m)
}

/// The error `validate_matrix` reports, if any: emptiness is checked first,
/// then the power-of-two dimension, then squareness.
pub open spec fn validate_matrix_spec<T>(m: Seq<Vec<T>>) -> Result<(), MatrixError> {
    if m.len() == 0 {
        Err(MatrixError::Empty)
    } else if !is_pow2(m.len() as nat) {
        Err(MatrixError::NotPowerOfTwo)
    } else if !is_square(m) {
        Err(MatrixError::NotSquare)
    } else {
        Ok(())
    }
}

/// The error `validate_matrices` reports, if any: all of A's checks run
/// before any of B's, and the dimension comparison runs only when both
/// matrices are individually valid.
pub open spec fn validate_matrices_spec<T>(a: Seq<Vec<T>>, b: Seq<Vec<T>>) -> Result<
    (),
    MatricesError,
> {
    match validate_matrix_spec(a) {
        Err(e) => Err(MatricesError::MatrixError { name: Operand::A, source: e }),
        Ok(()) => match validate_matrix_spec(b) {
            Err(e) => Err(MatricesError::MatrixError { name: Operand::B, source: e }),
            Ok(()) => if a.len() != b.len() {
                Err(MatricesError::MatricesNotTheSameSize)
            } else {
                Ok(())
            },
        },
    }
}

/// Whether `n` is a power of two, by stripping factors of two.
fn is_power_of_two(n: usize) -> (r: bool)
    ensures
        r == is_pow2(n as nat),
{
    if n == 0 {
        return false;
    }
    let mut m = n;
    while m % 2 == 0
        invariant
            m >= 1,
            is_pow2(n as nat) == is_pow2(m as nat),
        decreases m,
    {
        m = m / 2;
    }
    m == 1
}

/// Validates that the matrix is square, power of two and not empty.
pub fn validate_matrix<T>(matrix: &Vec<Vec<T>>) -> (r: Result<(), MatrixError>)
    ensures
        r == validate_matrix_spec(matrix@),
        r is Ok <==> valid_matrix(matrix@),
{
    if matrix.len() == 0 {
        return Err(MatrixError::Empty);
    }
    let n = matrix.len();
    if !is_power_of_two(n) {
        return Err(MatrixError::NotPowerOfTwo);
    }
    let mut r: usize = 0;
    while r < n
        invariant
            n == matrix@.len(),
            n > 0,
            is_pow2(n as nat),
            r <= n,
            forall|k: int| 0 <= k < r ==> (#[trigger] matrix@[k]@.len()) == n,
        decreases n - r,
    {
        if matrix[r].len() != n {
            proof {
                assert(matrix@[r as int]@.len() != matrix@.len());
                assert(!is_square(matrix@));
            }
            return Err(MatrixError::NotSquare);
        }
        r = r + 1;
    }
    Ok(())
}

/// Validates that the matrices are of the same size and are square, power of
/// two and not empty. A is checked fully before B.
pub fn validate_matrices<T>(a: &Vec<Vec<T>>, b: &Vec<Vec<T>>) -> (r: Result<(), MatricesError>)
    ensures
        r == validate_matrices_spec(a@, b@),
{
    match validate_matrix(a) {
        Err(e) => {
            return Err(MatricesError::MatrixError { name: Operand::A, source: e });
        },
        Ok(()) => {},
    }
    match validate_matrix(b) {
        Err(e) => {
            return Err(MatricesError::MatrixError { name: Operand::B, source: e });
        },
        Ok(()) => {},
    }
    if a.len() != b.len() {
        return Err(MatricesError::MatricesNotTheSameSize);
    }
    Ok(())
}

} // verus!
