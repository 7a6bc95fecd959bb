//! Verified core of an integrated mesh adaptive direct search (MADS) framework.
//!
//! The library holds the integer and combinatorial logic of the optimizer:
//! mesh lattices and poll sets, the fidelity ladder, deterministic hashing,
//! audit selection and audit bookkeeping, the candidate life cycle, and the
//! scheduling and configuration rules. Floating-point estimation, threading
//! and bindings live outside it.

pub mod types;
pub mod mesh;
pub mod poll;
pub mod hashing;
pub mod ladder;
pub mod calibrator;
pub mod engine;
pub mod presets;
pub mod config;
pub mod audit;
pub mod search;
pub mod evaluator;
pub mod dids;
pub mod scheduler;
pub mod c_api;
pub mod store;
pub mod iteration;
pub mod kstats;
pub mod window;
