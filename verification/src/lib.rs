//! A terminal battery gauge: the rules that turn a battery reading into a
//! block of styled lines, place that block on the screen, and decide when the
//! polling loop ends.

pub mod charge;
pub mod control;
pub mod frame;
pub mod layout;
pub mod power;
pub mod present;
