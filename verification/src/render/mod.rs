//! What the render loop decides by itself: when the next frame may start, and
//! which words stand for a deck.

pub mod fps_controller;
pub mod text;
