use vstd::prelude::*;

verus! {

/// The program's settings: the page to show, the window's size and place,
/// and the path of the control socket.
#[derive(Debug, Clone)]
pub struct Options {
    pub url: String,
    pub width: u32,
    pub height: u32,
    pub x: i32,
    pub y: i32,
    pub gpu: bool,
    pub socket: String,
    pub help: Option<u8>,
}

} // verus!
