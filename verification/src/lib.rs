//! A tile-grid puzzle core: a bounded integer grid with world-coordinate
//! conversion, a toggleable obstacle registry, a cycling target selector,
//! shortest-path search over the 4-connected grid graph, and a timed
//! path-following motion controller with a two-state animation signal.
//!
//! The host engine (rendering, input decoding, asset loading) is an excluded
//! collaborator: it hands this crate plain coordinate data and consumes the
//! obstacle, path, and motion state the crate maintains.

pub mod game;
pub mod grid;
pub mod motion;
pub mod obstacles;
pub mod pathfinder;
pub mod player_animation;
pub mod targets;

pub use game::Game;
pub use game::InputEvent;
pub use grid::GridPosition;
pub use grid::WorldPoint;
pub use motion::StepTimer;
pub use obstacles::ObstacleSet;
pub use player_animation::PlayerAnimationState;
pub use player_animation::PlayerAnimationVariant;
pub use targets::PointOfInterest;
pub use targets::TargetSelector;
