//! A state-vector simulator for small quantum registers.
//!
//! A register of `n` qubits is a vector of two to the `n` complex
//! amplitudes. Gates rewrite the vector pair by pair or four by four,
//! measurement projects it, and sum, difference and tensor product build
//! new registers from old ones.
//!
//! The amplitudes are doubles, and the verifier does not reason about
//! doubles. What is proved is everything around the arithmetic: which
//! amplitudes an operation reads and writes, in which order they are
//! combined, when an operation is refused, and that a refused operation
//! changes nothing. The arithmetic itself is named, not defined.
//!
//! Four modules hold what is taken on trust from other crates, each item
//! with a note on what is claimed of it: [`scalar`] the arithmetic of
//! `num_complex` and std, [`store`] the array of `ndarray`, [`parallel`]
//! the parallel map of `rayon`, and [`random`] the generator of `rand`.
//! Everything else is verified against them.

pub mod apply;
pub mod bits;
pub mod compare;
pub mod compose;
pub mod error;
pub mod gate;
pub mod ket;
pub mod measure;
pub mod parallel;
pub mod partition;
pub mod qreg;
pub mod random;
pub mod render;
pub mod scalar;
pub mod store;

pub use bits::conjugate_index;
pub use bits::nqubits;
pub use error::QError;
pub use gate::Gate1;
pub use gate::Gate2;
pub use ket::ket;
pub use qreg::QReg;
