//! Kate: a Java virtual machine core, verified with Verus.
//!
//! The library holds the class file reader (constant pool, attributes, fields and
//! methods), the bytecode decoders, the object layout computation, the numeric value
//! model, the semantics of each instruction over the frame and the heap, the machine
//! that loads classes and runs methods, and the native methods it runs itself. What
//! needs the outside world (reading class files, floating point, input and output) the
//! machine hands to its host as a request.
#![allow(unused_imports)]

pub mod reader;
pub mod result;
pub mod classfile;
pub mod pool;
pub mod flags;
pub mod attributes;
pub mod parser;
pub mod opcode;
pub mod numeric;
pub mod value;
pub mod error;
pub mod frame;
pub mod stack;
pub mod branch;
pub mod arith;
pub mod resolve;
pub mod heap;
pub mod array;
pub mod descriptor;
pub mod instruction;
pub mod classes;
pub mod constants;
pub mod fields;
pub mod machine;
pub mod boot;
pub mod layout;
pub mod natives;
pub mod vmnatives;
pub mod statics;
pub mod cli;
pub mod laws;
pub mod meaning;
