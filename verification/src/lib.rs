//! Verified core of a small command-line tool that fetches, caches and prints
//! UK macroeconomic series from the ONS, DBnomics and the Bank of England.

pub mod text;
pub mod series;
pub mod align;
pub mod dates;
pub mod ons;
pub mod dbnomics;
pub mod boe;
pub mod csv_out;
pub mod render;
pub mod cli;
pub mod cache;
pub mod laws;
pub mod month_order;
