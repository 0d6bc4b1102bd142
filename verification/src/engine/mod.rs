pub mod manager;
pub mod matcher;
pub mod state;

pub use matcher::{BlocklistMatcher, HashedMatcher};
pub use state::AppState;
