//! Verified core of a weather data toolkit: time-limited caches of tiles,
//! fields, radar volumes and soundings; raster drawing primitives and
//! bitmap fonts; the text parsers used around sounding, radar and model
//! data; the HTTP API's command lines; and the plain-text assessments of
//! briefings and evidence checks.

pub mod text;
pub mod tile_cache;
pub mod raster;
pub mod station_plot;
pub mod tiles;
pub mod point;
pub mod ui_state;
pub mod events;
pub mod cmd_help;
pub mod cmd_download;
pub mod wyoming;
pub mod sites;
pub mod contours;
pub mod storm_image;
pub mod radar_tiles;
pub mod storm_analysis;
pub mod hazards;
pub mod sounding;
pub mod keyed_cache;
pub mod sounding_cache;
pub mod wind_barbs;
pub mod mrms;
pub mod raob_stations;
pub mod evidence;
pub mod briefing;
pub mod api;
pub mod download_plan;
pub mod timeseries;
