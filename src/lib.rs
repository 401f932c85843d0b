//! A small bytecode virtual machine for a subset of the JVM class-file format:
//! tagged values, a flat handle-addressed heap, frames with operand stacks,
//! a class linker working on a structural view of class files, an interpreter
//! with tail-call and memoization annotations, and the built-in intrinsics.
pub mod value;
pub mod text;
pub mod heap;
pub mod flags;
pub mod stack;
pub mod error;
pub mod descriptor;
pub mod classes;
pub mod program;
pub mod class_loader;
pub mod vm;
pub mod frame_ops;
pub mod interpreter;
pub mod java_lang;
pub mod rvm_class;
pub mod calls;
