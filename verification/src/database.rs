//! What the application keeps about universities, cities and countries, and
//! the decisions it takes on what a lookup finds.
pub mod generic;
pub mod model;
