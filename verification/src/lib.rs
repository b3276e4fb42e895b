//! Mean-field coupled FitzHugh–Nagumo neuron populations with adjoint-based
//! optimal control of the average membrane potential.
//!
//! All quantities are carried in saturating fixed-point arithmetic with a
//! scale of one million units per 1.0 (see [`fixed`]), so that every
//! numerical routine has an exact mathematical contract.  Sources of
//! randomness are injected by the caller as plain standard-normal samples in
//! the same fixed-point scale, which makes every function in this crate a
//! pure, fully specified map from its inputs to its outputs.

pub mod fixed;
pub mod neuron;
pub mod forward;
pub mod adjoint;
pub mod gradient;
pub mod reference;
pub mod optimize;
