use vstd::prelude::*;

pub mod albums;
pub mod browser;
pub mod browser_cookies;
pub mod browser_pool;
pub mod bypass;
pub mod clients;
pub mod downloaders;
pub mod form;
pub mod headers;
pub mod json;
pub mod laws;
pub mod models;
pub mod provisioning;
pub mod requests;
pub mod startup;
pub mod stats;
pub mod text;
pub mod text_utils;
pub mod track_job;

verus! {

} // verus!
