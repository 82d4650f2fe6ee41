//! Live television, which this server does not offer.
use vstd::prelude::*;

use crate::service_error::ServiceError;

verus! {

/// Stands for live television where there is none.
#[derive(Debug, Clone, Copy)]
pub struct HermitLiveTvManager;

/// What there is of live television: the names of the services that offer it.
#[derive(Debug, Clone)]
pub struct LiveTvInfo {
    pub services: Vec<String>,
    pub is_enabled: bool,
}

/// Programs, and how many there are.
#[derive(Debug, Clone)]
pub struct Programs<T> {
    pub items: Vec<T>,
    pub total_record_count: i32,
}

impl HermitLiveTvManager {
    /// The manager.
    pub fn new() -> (r: Self)
        ensures
            r == HermitLiveTvManager,
    {
        HermitLiveTvManager
    }

    /// What there is of live television: nothing.
    pub fn get_live_tv_info(&self) -> (r: LiveTvInfo)
        ensures
            !r.is_enabled,
            r.services@.len() == 0,
    {
        LiveTvInfo { services: Vec::new(), is_enabled: false }
    }

    /// The programs: none.
    pub fn get_programs<T>(&self) -> (r: Programs<T>)
        ensures
            r.items@.len() == 0,
            r.total_record_count == 0,
    {
        Programs { items: Vec::new(), total_record_count: 0 }
    }

    /// Resets a tuner. There is none, so this succeeds.
    pub fn reset_tuner(&self, _id: &str) -> (r: Result<(), ServiceError>)
        ensures
            r is Ok,
    {
        Ok(())
    }
}

} // verus!
