//! A text adventure for the terminal, and the water that ripples behind it.
//!
//! The heart of the crate is a procedural wave field: drops fall on a grid at
//! random, each sends out one expanding ring, and the sum of all rings is
//! painted as water. The modules that make it up, from the leaves to the
//! root:
//!
//! - [`units`]: fixed-point quantities and integer arithmetic.
//! - [`math`]: quantized sine tables.
//! - [`wave`]: the ripple of one drop in closed form.
//! - [`wave_table`]: the same ripple, precomputed over a grid of buckets.
//! - [`drops`]: the drops that are active, and how they come and go.
//! - [`field`]: the amplitude of every cell, summed over the drops.
//! - [`color`]: from amplitudes to colours.
//! - [`rain`]: the engine that ties these together, frame by frame.
//!
//! Around it stand the pieces of the game itself: its states and screens
//! ([`game`], [`intro_screen`], [`achievements`], [`graph`]), what changes
//! with time ([`gfx`]), how pictures are fitted to the terminal
//! ([`images`]), and the texts and file names it works with ([`text`],
//! [`validate`]).
//!
//! Nothing in this crate touches a terminal, a file or a clock. Whoever uses
//! it reads keys and files and tells the time; real-valued quantities are
//! integers counted in millionths, and times are integers counted in
//! microseconds. Two things come from outside: the random cells that drops
//! fall on, and the resampling of pictures.

pub mod achievements;
pub mod color;
pub mod drops;
pub mod field;
pub mod game;
pub mod gfx;
pub mod graph;
pub mod images;
pub mod intro_screen;
pub mod math;
pub mod rain;
pub mod text;
pub mod units;
pub mod validate;
pub mod wave;
pub mod wave_table;
