//! Autonomous agents on a tile grid: a priority goal queue, grid path
//! finding with local repair, discrete stepping with sub-cell offsets, and
//! the registries of things that agents carry and use.
//!
//! # The parts
//!
//! - [`position`], [`worldmap`], [`anycellmap`]: cells, and grids of them.
//! - [`routing`]: shortest routes over the grid.
//! - [`mental`]: goals and the queue that schedules them.
//! - [`creatures`]: the body of an agent, stepping from cell to cell.
//! - [`carriableitem`], [`carriablesearch`], [`carrier`], [`interactive`]:
//!   the things of the world and who holds or uses them.
//! - [`sanity`], with the relations of [`pursuit`] and [`dealings`]: the
//!   agent, and what one tick does to it.
//! - [`routine`], [`dog`], [`officeworker`], [`selfaware`]: policies, and
//!   agents that follow one.
//! - [`messaging`]: who sees whom.
//! - [`state`], [`ent`], [`gametime`]: the shared world, the things placed
//!   in it, and its clock.
//!
//! # Conventions
//!
//! Nothing in this crate is a floating-point number. Lengths inside a cell
//! are counted in thousandths of a cell, real time in milliseconds, and the
//! begun minute of the simulated clock in thousandths of a minute.
//!
//! Types with an invariant have a predicate `wf`. Constructors establish it,
//! and every function that asks for it keeps it.
//!
//! Every function is proved against its contract, but for the few that
//! stand for code from elsewhere: the generator of [`random`], the search
//! behind [`routing::try_find_route_from_to`], and the comparison of type
//! tags in [`entity`]. Their contracts are stated and not proved.

pub mod anycellmap;
pub mod carriableitem;
pub mod carriablesearch;
pub mod carrier;
pub mod creatures;
pub mod dealings;
pub mod dog;
pub mod ent;
pub mod entity;
pub mod gametime;
pub mod interactive;
pub mod item_types;
pub mod mental;
pub mod messaging;
pub mod officeworker;
pub mod position;
pub mod pursuit;
pub mod random;
pub mod routine;
pub mod routing;
pub mod sanity;
pub mod selfaware;
pub mod state;
pub mod utils;
pub mod worldmap;
