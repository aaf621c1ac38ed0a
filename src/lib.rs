//! Reader for the LLVM bitstream container format.

/// Records, blocks, signatures and whole bitstreams.
pub mod bitcode;
/// Sub-byte bit cursor over a borrowed byte buffer.
pub mod bits;
/// Abbreviation operands and the reserved codes of the format.
pub mod bitstream;
/// Numbers that LLVM IR bitcode gives to its blocks and records.
pub mod ir;
/// The block and record parser.
pub mod read;
/// Tables of the numbers that LLVM IR bitcode uses.
pub mod schema;
/// Visitors that receive a stream's blocks and records.
pub mod visitor;

pub use self::bitcode::Bitcode;
pub use self::bits::Cursor;
pub use self::read::BitStreamReader;
pub use self::visitor::BitStreamVisitor;
