//! A price tracker for outdoor-gear shops: recognising shop pages,
//! pulling the title and price text out of them, mock and curl page
//! sources, and grouping stored price entries by watched URL.

pub mod extractors;
pub mod http_clients;
pub mod pricetracker;
pub mod routes;
pub mod storage;
pub mod text;
