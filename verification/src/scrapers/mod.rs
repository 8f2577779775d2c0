//! Logic of the cinema-website scrapers.
pub mod cinestar;
pub mod critic;
pub mod uci;
pub mod yorck;
