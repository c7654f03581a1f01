//! A witness-indistinguishable, non-interactive proof of knowledge of a
//! discrete logarithm with a composite modulus, after Girault and
//! Pointcheval, together with the big-integer sampling and modular
//! arithmetic it rests on.

pub mod arith;
pub mod bigint;
pub mod zk;
