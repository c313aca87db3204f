//! An interpreter for a small tape language: eight instructions over an
//! unbounded memory tape of unbounded counters, with loops resolved by scanning
//! the code tape backwards while counting nesting depth.
pub mod counter;
pub mod machine;
pub mod tape;
