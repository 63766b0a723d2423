//! A Caesar-cipher core: a pure, invertible cipher over ASCII letters and a
//! small synchronization controller that keeps a plaintext/ciphertext pair
//! consistent with the current shift and conversion direction.

pub mod cipher;
pub mod controller;
