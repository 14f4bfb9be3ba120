//! Rustle: a breadth-first web crawler's decision core.
//!
//! The library holds the crawler's rules: how stored columns are encoded,
//! how links are normalised, which pages are held back, and how the frontier
//! advances from one level to the next. The program around it performs the
//! network and storage work that these rules ask for.

pub mod clock;
pub mod config;
pub mod domain;
pub mod error;
pub mod links;
pub mod robots;
pub mod site;
pub mod spider;
pub mod text;
pub mod url_set;
pub mod visit;
