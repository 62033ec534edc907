//! Heap cells whose bytes are kept XOR-masked with a random key.
//!
//! A cell holds the byte image of a value of `N` bytes. The image is stored
//! as `image ^ key`, byte for byte, and is only ever unmasked for the length
//! of one closure call. A cell is wiped when it is discarded.
//!
//! * [`xor_intrinsic`]: the mask primitive and what holds of it.
//! * [`arbitrary`]: [`MangledBoxArbitrary`], the general cell.
//! * [`nouninit`]: [`MangledBox`], the cell for plain data.
//! * [`option`]: [`MangledOption`], a cell that may be absent.
//! * [`keygen`]: the random source that keys come from.

pub mod xor_intrinsic;
mod barrier;
pub mod keygen;
pub mod arbitrary;
pub mod nouninit;
pub mod option;

pub use arbitrary::MangledBoxArbitrary;
pub use keygen::KeygenError;
pub use nouninit::MangledBox;
pub use option::MangledOption;
