//! A client of the same service built on its classic pages: a per-day sales
//! report and a stock page that carries coordinates in its cell markup. It
//! reports every failure to read a page as a parse error with a cause.
pub mod unicum_api;
