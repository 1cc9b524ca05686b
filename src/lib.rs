//! Request classification, interception decisions and crawl bookkeeping for a
//! web crawler that can drive a headless browser.

pub mod chars;
pub mod classify;
pub mod crawl;
pub mod hub;
pub mod keyed;
pub mod network;
pub mod pool;
pub mod robots;
pub mod selectors;
