//! A scripted UI scene-graph layer for a small 2D/3D game engine.
//!
//! The library models a tree of declaratively described nodes, each
//! optionally carrying a frame-animated sprite, styled bitmap-font text,
//! child nodes, named variables and a script hook.  All times are integer
//! milliseconds and all coordinates are integer fixed point (1/1000 of a
//! pixel), so that every computation here is exact.
#![allow(non_snake_case)]

pub mod anim;
pub mod desc;
pub mod env;
pub mod geom;
pub mod node;
pub mod shader;
pub mod texcache;
pub mod text;
pub mod transform;
pub mod ui;
pub mod util;
