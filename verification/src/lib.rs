//! Deterministic simulation core for a 2D platformer engine.
//!
//! The heart of the crate is a fixed-timestep clock ([`time`]), a grid-based
//! collision representation with an axis-separable movement resolver
//! ([`collision`]), and a character controller that advances one actor's
//! physics against that grid ([`controller`]). All simulation arithmetic is
//! integer fixed-point so that runs are bit-for-bit reproducible and so that
//! every step of the simulation carries a machine-checked contract.
//!
//! Around the core sit the supporting data layers of the engine: sprite
//! animation playback ([`animation`], [`registry`]), atlas metadata and sprite
//! lookup ([`atlas`]), scene descriptions and hot-reload bookkeeping
//! ([`scene`]), input tracking ([`input`]), replay sequences ([`replay`]),
//! draw-call batching ([`batch`]) and the atlas packer's bookkeeping
//! ([`packer`]).

pub mod animation;
pub mod atlas;
pub mod batch;
pub mod collision;
pub mod controller;
pub mod devtools;
pub mod input;
pub mod num;
pub mod packer;
pub mod platform;
pub mod registry;
pub mod replay;
pub mod scene;
pub mod tier;
pub mod time;
