pub mod assets;
pub mod clock;
pub mod commands;
pub mod html;
pub mod models;
pub mod scrapers;
pub mod settings;
pub mod static_site;
pub mod text;
pub mod theaters;
pub mod tmdb;
pub mod page_text;
pub mod pattern;
pub mod showtimes;
pub mod site_page;
