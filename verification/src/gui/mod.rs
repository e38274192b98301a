//! Touchscreen user interface: themes, touch calibration, the GUI state
//! types and the small state machines behind the screens.
pub mod constants;
pub mod palette;
pub mod touch;
pub mod state;
pub mod my_nockster;
pub mod label;
pub mod render;
pub mod seed;
pub mod scroll;
pub mod menu;
pub mod layout;
