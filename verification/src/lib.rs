//! Erasmus destinations: reading and writing Erasmus codes, the records of
//! uploaded CSV files, the decisions of university lookups, and the pacing
//! of place searches.
pub mod api;
pub mod csv_loader;
pub mod database;
pub mod erasmus_code;
pub mod get_lat_lon;
pub mod text;
