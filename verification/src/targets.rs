//! What each target does with its settings.

pub mod arcolinux;
