//! A transit departure viewer's library: GTFS feeds read from ZIP archives,
//! active services, stop search and station families, departures with
//! real-time status, and what the REST API, the web board and the terminal
//! show of them.
pub mod text;
pub mod time;
pub mod model;
pub mod table;
pub mod records;
pub mod zipfile;
pub mod sorting;
pub mod select;
pub mod calendar;
pub mod stops;
pub mod query;
pub mod archive;
pub mod data;
pub mod realtime;
pub mod api;
pub mod board;
