//! An exact calculator for single-line arithmetic expressions.
//!
//! Integers and fractions are kept exact; only irrational results fall back
//! to double-precision reals, whose arithmetic the caller supplies through
//! [`reals::RealOps`].

pub mod always_zero_strategy;
pub mod arith;
pub mod base;
pub mod big;
pub mod calculator;
pub mod common;
pub mod expr;
pub mod func_call;
pub mod order;
pub mod rational;
pub mod reals;
pub mod recursive_scan_strategy;
pub mod strategy;
pub mod std_funcs;
pub mod text;
pub mod value;
pub mod value_algebra;
pub mod wage;
