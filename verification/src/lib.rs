//! The rules and data core of a top-down miniature-golf game: the course
//! format (tiles, run-length text, the map grid, track records) and the force
//! fields that act on a ball.

pub mod array2diter;
pub mod gamemap;
pub mod magnet;
pub mod map;
pub mod rle;
pub mod stroke;
pub mod text;
pub mod tile;
pub mod track;
pub mod vector2d;
