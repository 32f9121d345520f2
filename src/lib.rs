//! Simulation core of a side-scrolling defense game: a player that moves and
//! shoots inside a level whose solid geometry is a pixel mask, a tower that can
//! be damaged or flipped into a reversed mode guarded by a tracking shield, and
//! the projectiles that fly between them.
//!
//! All quantities are integers: positions in milli-pixels, velocities in
//! milli-pixels per second, durations in milliseconds and health in thousandths.
pub mod collision;
pub mod geometry;
pub mod mask;
pub mod player;
pub mod scene;
pub mod tower;
