pub mod allocating;
pub mod bounded;
mod evaluation;
pub mod laws;
pub mod model;
pub mod state;
pub mod timing;
pub mod transition;
