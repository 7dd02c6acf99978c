// A first-person view of a grid of walls, drawn as text: character grids,
// ray marching over the map, and a player that moves, turns and draws.
pub mod grid;
pub mod player;
pub mod ray;
pub mod term;
