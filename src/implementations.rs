//! One adapter per supported ecosystem.


pub mod js;
pub mod kotlin;
pub mod rust;

pub mod swift;
