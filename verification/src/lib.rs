//! A grid-based settlement simulator.
//!
//! Typed buildings stand on parcels of 8x8 cells. A building has a cost, an
//! output and adjacency rules; an edit that breaks a rule is undone by a
//! sweep that tears down, refunds and plans again what is no longer valid.
//! Resources accumulate up to capacities that the buildings themselves
//! provide, and unlock stages of progression and more land.
//!
//! - [`building`], [`glyph`]: the catalog of building and resource kinds.
//! - [`ledger`], [`census`]: quantities per resource, counts per building.
//! - [`grid`], [`picture`], [`tile`]: the rules of a parcel and the parcel.
//! - [`production`], [`realm`], [`world`]: the rules of the world and the
//!   world.
//! - [`pos`], [`stage`]: positions and stages.

pub mod building;
pub mod census;
pub mod glyph;
pub mod grid;
pub mod ledger;
pub mod picture;
pub mod pos;
pub mod production;
pub mod realm;
pub mod stage;
pub mod tile;
pub mod world;
