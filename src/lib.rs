pub mod active_hours;
pub mod business_hours;
pub mod clock;
pub mod config;
pub mod datetime;
pub mod demo;
pub mod grouping;
pub mod id_provider;
pub mod laws;
pub mod memory;
pub mod record;
pub mod storage;
pub mod types;
pub mod use_cases;
