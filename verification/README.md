# Zerlak Frontier — game rules

The rules of Zerlak Frontier, a galaxy-map strategy and first-person space
combat game, as a library whose behaviour is stated in contracts and proved.

- `src/campaign.rs` — game modes, the campaign (fuel, hull, selected sector,
  level, score, defeat reason) and its fuel arithmetic.
- `src/galaxy.rs` — the sectors: a square grid (plus any sector recorded off
  it), generation from rolls, lookup and update,
  the Zerlak cells, and Zerlak expansion.
- `src/galaxy_map.rs` — the galaxy-map rules: choosing a sector, moving the
  selection, the decision countdown, level completion, a new run.
- `src/flight.rs` — combat bookkeeping: difficulty per level, breaches, laser
  hits and shots.
- `src/screens.rs`, `src/hud.rs` — the texts and readouts of each screen and
  the overlay's requests.
- `src/meshes.rs` — triangle index lists of the procedural enemy meshes.
- `src/laws.rs` — properties that span several rules.
- `app/` — the Bevy game around the library: rendering, input, audio and the
  frame loop.

The sectors are kept in a `Vec` for the square plus a list of the sectors
recorded off it, rather than in a `HashMap<(i32, i32), SectorKind>`: vstd's
`HashMap` specifications hold only for key types that obey its key model,
and vstd states that model for integer keys (and boxes of them) but not for
tuples, so nothing could be proved of a map keyed by `(i32, i32)`. The `Vec`
form is viewed as the same `Map<(i32, i32), SectorKind>`, and `insert`,
`get` and the listings behave as the map's do.
