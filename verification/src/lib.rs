//! The simulation core of a top-down survival arena: a player holds out
//! against waves of pursuing zombies, shoots, gathers pickups and scores.
//!
//! Everything here works on plain integers. Lengths and positions are held in
//! thousandths of a world unit, times in milliseconds, headings as a unit
//! vector in thousandths, and chances in percent, so that every step of the
//! simulation has an exact meaning that the contracts can state.
//!
//! The systems stand in the modules named after what they move: `survivour`,
//! `zombies`, `collision`, `waves`. `world` holds everything at once and
//! steps it in a fixed order; `census` shows that the head counts and the
//! zombies on the ground never part. Chance enters through `random` alone.

pub mod census;
pub mod collision;
pub mod combat;
pub mod geometry;
pub mod hud;
pub mod map;
pub mod powerups;
pub mod random;
pub mod state;
pub mod survivour;
pub mod sweep;
pub mod timer;
pub mod waves;
pub mod world;
pub mod zombies;
