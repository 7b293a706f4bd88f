//! The settings of each target.

pub mod arcolinux;
