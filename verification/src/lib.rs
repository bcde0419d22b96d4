//! Arithmetic expression trees and their rendering in prefix form.
//!
//! A tree is built bottom-up from literals and the four operators (`node`),
//! either as it comes or with its shape checked (`shape`). A visitor walks
//! it once, depth-first and left-to-right (`visitor`, `traversal`): one
//! renders it as text (`print`, and `stack` for deep trees), one counts its
//! dispatch steps (`count`). Nodes and their parents are found from the root
//! by their paths (`path`).
pub mod count;
pub mod decimal;
pub mod node;
pub mod path;
pub mod print;
pub mod shape;
pub mod stack;
pub mod traversal;
pub mod visitor;
