//! Screen-capture, market-depth comparison and app-audio tap logic for the
//! Condor Eye desktop tool, with the decisions proved in Verus.
#![allow(unused_imports)]

pub mod api;
pub mod audio;
pub mod capture;
pub mod chunks;
pub mod codec;
pub mod compare;
pub mod config;
pub mod datetime;
pub mod retention;
pub mod review;
pub mod session;
pub mod share;
pub mod taps;
pub mod text;
pub mod transcribe;
pub mod transcripts;
pub mod truth;
pub mod vision;
pub mod windows;

use vstd::prelude::*;

verus! {

} // verus!
