pub mod api;
pub mod backends;
pub mod domains;
pub mod errors;
pub mod extract;
pub mod state;
pub mod text;
pub mod utils;
