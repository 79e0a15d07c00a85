//! A* shortest-path search over graphs that callers describe by a heuristic and a
//! neighbour enumeration, with scratch state that can be kept between searches.

pub mod graphs;
pub mod hashing;
pub mod search;
pub mod zero;

pub use graphs::{Grid, Maze};
pub use hashing::Vertex;
pub use search::{find_path, find_path_with_context, GraphSearch, SearchContext};
pub use zero::Zero;
