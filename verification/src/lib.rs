//! A bytecode virtual machine for a stack-oriented, tree-structured
//! instruction set, verified with Verus.
//!
//! The host hands the machine a [`pool::Pool`] of definitions, registers
//! its native functions, and calls functions of the pool by position. What
//! running code means is laid down in [`semantics`]; [`exec`] runs it.
pub mod arena;
pub mod array;
pub mod assign;
pub mod call;
pub mod convert;
pub mod defaults;
pub mod error;
pub mod exec;
pub mod frame;
pub mod gc;
pub mod index_map;
pub mod interop;
pub mod laws;
pub mod metadata;
pub mod native;
pub mod ops;
pub mod pool;
pub mod protocol;
pub mod render;
pub mod semantics;
pub mod shell;
pub mod state;
pub mod symbols;
pub mod text;
pub mod thunk;
pub mod value;
pub mod vm;
pub mod vtable;

pub use arena::VMRoot;
pub use frame::Frame;
pub use vm::VM;
