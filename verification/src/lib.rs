//! ThreadCity: a cooperative user-level thread runtime (`mypthreads`) and a
//! city traffic simulation built on top of it (`city`), plus the pure state
//! that the city's viewer animates (`ui`).

pub mod mypthreads;
pub mod city;
pub mod ui;
pub mod random;
