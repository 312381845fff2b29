//! The decision rules of the SNARK reference-string manager: a key
//! directory that may be set only before either circuit's setup has been
//! initialised and never changed afterwards, and per-circuit cells that
//! are marked ready at most once. The embedding program holds this state
//! behind its process-wide guard and performs the disk and setup work.

use vstd::prelude::*;
use crate::errors::{ZkpError, ZkpResult};

verus! {

/// The configuration cell of the reference-string manager.
#[derive(Debug)]
pub struct SrsConfig {
    key_dir: Option<String>,
    equality_ready: bool,
    membership_ready: bool,
}

impl SrsConfig {
    /// The configured directory, if any.
    pub closed spec fn spec_key_dir(&self) -> Option<Seq<char>> {
        match self.key_dir {
            Some(d) => Some(d@),
            None => None,
        }
    }

    /// Whether either circuit's setup has been initialised.
    pub closed spec fn spec_initialized(&self) -> bool {
        self.equality_ready || self.membership_ready
    }

    pub closed spec fn spec_equality_ready(&self) -> bool {
        self.equality_ready
    }

    pub closed spec fn spec_membership_ready(&self) -> bool {
        self.membership_ready
    }

    /// A fresh configuration: no directory, nothing initialised.
    pub fn new() -> (r: SrsConfig)
        ensures
            r.spec_key_dir() is None,
            !r.spec_initialized(),
    {
        SrsConfig { key_dir: None, equality_ready: false, membership_ready: false }
    }

    /// Sets the key directory. Accepted exactly when the path is
    /// non-empty, no setup has been initialised yet, and the directory is
    /// either unset or already equal to the requested one; a rejection
    /// leaves the configuration unchanged.
    pub fn set_key_dir(&mut self, path: String) -> (r: ZkpResult<()>)
        ensures
            r is Ok <==> path@.len() > 0 && !old(self).spec_initialized() && (old(
                self,
            ).spec_key_dir() is None || old(self).spec_key_dir() == Some(path@)),
            r is Ok ==> final(self).spec_key_dir() == Some(path@),
            r is Err ==> final(self).spec_key_dir() == old(self).spec_key_dir(),
            final(self).spec_initialized() == old(self).spec_initialized(),
            final(self).spec_equality_ready() == old(self).spec_equality_ready(),
            final(self).spec_membership_ready() == old(self).spec_membership_ready(),
    {
        if path.as_str().unicode_len() == 0 {
            return Err(ZkpError::ConfigError("key directory cannot be empty".to_string()));
        }
        if self.equality_ready || self.membership_ready {
            return Err(ZkpError::ConfigError(
                "setup is already initialized; set the key directory before the first proof"
                    .to_string(),
            ));
        }
        match &self.key_dir {
            Some(existing) => {
                if existing.eq(&path) {
                    self.key_dir = Some(path);
                    Ok(())
                } else {
                    Err(ZkpError::ConfigError(
                        "key directory already set to a different path".to_string(),
                    ))
                }
            },
            None => {
                self.key_dir = Some(path);
                Ok(())
            },
        }
    }

    /// Whether either setup cell has been initialised.
    pub fn is_initialized(&self) -> (r: bool)
        ensures
            r == self.spec_initialized(),
    {
        self.equality_ready || self.membership_ready
    }

    /// Records that the equality circuit's setup has been published; the
    /// cell never returns to the uninitialised state.
    pub fn mark_equality_ready(&mut self)
        ensures
            final(self).spec_equality_ready(),
            final(self).spec_membership_ready() == old(self).spec_membership_ready(),
            final(self).spec_key_dir() == old(self).spec_key_dir(),
            final(self).spec_initialized(),
    {
        self.equality_ready = true;
    }

    /// Records that the membership circuit's setup has been published.
    pub fn mark_membership_ready(&mut self)
        ensures
            final(self).spec_membership_ready(),
            final(self).spec_equality_ready() == old(self).spec_equality_ready(),
            final(self).spec_key_dir() == old(self).spec_key_dir(),
            final(self).spec_initialized(),
    {
        self.membership_ready = true;
    }

    /// The configured directory, cloned out.
    pub fn key_dir(&self) -> (r: Option<String>)
        ensures
            r is Some <==> self.spec_key_dir() is Some,
            r matches Some(d) ==> self.spec_key_dir() == Some(d@),
    {
        match &self.key_dir {
            Some(d) => Some(d.clone()),
            None => None,
        }
    }
}

} // verus!
