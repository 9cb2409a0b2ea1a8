pub mod utils;
pub mod handlers;
pub mod middleware;
pub mod database;
pub mod background;
