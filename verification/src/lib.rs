pub mod app;
pub mod bot;
pub mod consts;
pub mod endpoints;
pub mod helpers;
pub mod manga;
pub mod opts;
pub mod schema;
pub mod text;
