//! Configuration of the balloon.

use vstd::prelude::*;

use crate::devices::virtio::balloon::device::{Balloon, BalloonConfig, MIB_TO_4K_PAGES};
use crate::devices::virtio::balloon::queues::BalloonError;

verus! {

/// Why a balloon is refused.
#[derive(Debug, Clone, Copy, PartialEq, Eq, Structural)]
pub enum BalloonConfigError {
    /// There is no balloon.
    DeviceNotFound,
    /// The balloon is larger than the memory.
    TooManyPagesRequested,
    /// The device cannot be created.
    CreateFailure(BalloonError),
}

/// The balloon, if there is one.
#[derive(Debug)]
pub struct BalloonBuilder {
    /// The device.
    pub inner: Option<Balloon>,
}

impl BalloonBuilder {
    /// No balloon.
    pub fn new() -> (r: BalloonBuilder)
        ensures
            r.inner is None,
    {
        BalloonBuilder { inner: None }
    }

    /// Makes the balloon that a configuration asks for.
    pub fn set(&mut self, config: BalloonConfig) -> (r: Result<(), BalloonConfigError>)
        ensures
            config.amount_mib * MIB_TO_4K_PAGES > u32::MAX ==> r is Err && r->Err_0
                == BalloonConfigError::CreateFailure(
                BalloonError::TooMuchMemoryRequested(u32::MAX / MIB_TO_4K_PAGES),
            ) && final(self).inner == old(self).inner,
            config.amount_mib * MIB_TO_4K_PAGES <= u32::MAX ==> r is Ok && final(self).inner is Some
                && final(self).inner->Some_0.is_new(config),
    {
        match Balloon::new(
            config.amount_mib,
            config.deflate_on_oom,
            config.stats_polling_interval_s,
            config.free_page_hinting,
            config.free_page_reporting,
        ) {
            Ok(balloon) => {
                self.inner = Some(balloon);
                Ok(())
            },
            Err(e) => Err(BalloonConfigError::CreateFailure(e)),
        }
    }

    /// The configuration of the balloon.
    pub fn get_config(&self) -> (r: Result<BalloonConfig, BalloonConfigError>)
        ensures
            match self.inner {
                None => r is Err && r->Err_0 == BalloonConfigError::DeviceNotFound,
                Some(balloon) => r is Ok && r->Ok_0 == balloon.described(),
            },
    {
        match &self.inner {
            None => Err(BalloonConfigError::DeviceNotFound),
            Some(balloon) => Ok(balloon.config()),
        }
    }
}

} // verus!
