//! The rules of a grid-based snake game: cells and boards, the snake's body,
//! the direction gate, the per-tick movement state machine, food placement and
//! the orientation of each body segment.

pub mod board;
pub mod cells;
pub mod controls;
pub mod food;
pub mod game;
pub mod orientation;
pub mod position;
pub mod scoring;
pub mod settings;
pub mod snake;

pub use game::tick;
pub use game::GameOutcome;
pub use game::RenderDelta;
pub use game::Session;
pub use game::TerminationReason;
pub use game::TickReport;
