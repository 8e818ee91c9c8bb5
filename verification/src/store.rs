//! The holder of the currently active configuration.
//!
//! Readers always observe a fully formed snapshot; a reload either
//! publishes a complete replacement or leaves the active snapshot
//! untouched.

use vstd::prelude::*;

use crate::config::{Config, ConfigBuildError};

verus! {

/// Holds the active configuration snapshot. Publishing replaces the
/// snapshot as a whole; a failed rebuild never replaces anything.
#[verifier::ext_equal]
pub struct ConfigStore {
    active: Config,
}

impl ConfigStore {
    /// The configuration every read observes.
    pub closed spec fn current_spec(&self) -> Config {
        self.active
    }

    pub fn new(initial: Config) -> (r: ConfigStore)
        ensures
            r.current_spec() == initial,
    {
        ConfigStore { active: initial }
    }

    pub fn current(&self) -> (r: &Config)
        ensures
            *r == self.current_spec(),
    {
        &self.active
    }

    pub fn publish(&mut self, next: Config)
        ensures
            final(self).current_spec() == next,
    {
        self.active = next;
    }

    /// One reload cycle's outcome: a successful rebuild is published and
    /// reported; a failed rebuild is discarded, and the store is exactly
    /// as it was before the attempt.
    pub fn apply_reload(&mut self, built: Result<Config, ConfigBuildError>) -> (r: bool)
        ensures
            match built {
                Ok(c) => r && final(self).current_spec() == c,
                Err(_) => !r && *final(self) == *old(self),
            },
    {
        match built {
            Ok(c) => {
                self.active = c;
                true
            },
            Err(_) => false,
        }
    }
}

/// Publishing pins the whole store state down to the published
/// configuration, so publishing an identical rebuilt configuration twice
/// in a row leaves the store exactly as the first publish left it:
/// nothing a reader can observe changes.
pub proof fn lemma_publish_idempotent(after_once: ConfigStore, after_twice: ConfigStore, c: Config)
    requires
        after_once.current_spec() == c,
        after_twice.current_spec() == c,
    ensures
        after_once == after_twice,
{
    assert(after_once =~= after_twice);
}

} // verus!
