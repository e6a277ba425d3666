//! Game rules of Zerlak Frontier: the campaign state, the galaxy map of
//! sectors, the combat bookkeeping of a sector fight and the texts shown
//! on the screens. Rendering, input devices, audio and the frame loop live
//! with the engine; everything that decides what happens lives here.
pub mod campaign;
pub mod galaxy;
pub mod galaxy_map;
pub mod flight;
pub mod screens;
pub mod hud;
pub mod meshes;
pub mod laws;
mod random;

use vstd::prelude::*;

verus! {

} // verus!
