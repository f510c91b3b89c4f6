//! A URL shortener core: deterministic short locators derived from a digest
//! of the long URL, and a store that maps long URLs to locators and back.

pub mod laws;
pub mod locator;
pub mod service;
pub mod store;

