//! Ready-made prompt fragments.

pub mod current_date;
pub mod static_fragment;
