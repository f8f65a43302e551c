//! The window: the phone's screen, the waiting state before it arrives, and the question whether
//! a phone may be let in. What is drawn is drawn elsewhere; here is what it says and when.
pub mod paint;
pub mod question;
pub mod text;
pub mod tray;
pub mod waiting;
pub mod window;
