/// Block IDs and module record codes of LLVM IR bitcode.
pub mod codes;
