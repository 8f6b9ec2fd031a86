//! Settings that a data store is opened with.
use crate::services::RemoteSource;
use crate::throttle::Throttle;
use vstd::prelude::*;

verus! {

/// Draws a fresh random identifier for a backend (`uuid::Uuid::new_v4`, as a 128-bit
/// number). Nothing is promised of the value: it comes from a random source.
#[verifier::external_body]
pub(crate) fn new_backend_id() -> u128 {
    uuid::Uuid::new_v4().as_u128()
}

/// Settings of a store on the local disk: the directory it lives under.
#[derive(Debug, PartialEq, Eq, Hash)]
pub struct LocalConfig {
    pub path: String,
}

impl Clone for LocalConfig {
    fn clone(&self) -> (res: Self)
        ensures
            res == *self,
    {
        LocalConfig { path: self.path.clone() }
    }
}

/// Settings of a remote store.
#[derive(Debug, PartialEq, Eq)]
pub struct RemoteConfig {
    /// The maximum number of operations at once.
    pub max_threads: Option<u8>,
    /// The throttle, where one is wanted.
    pub bandwidth: Option<Throttle>,
    /// The service and its settings.
    pub src: RemoteSource,
}

impl Clone for RemoteConfig {
    fn clone(&self) -> (res: Self)
        ensures
            res == *self,
    {
        RemoteConfig { max_threads: self.max_threads, bandwidth: self.bandwidth, src: self.src.clone() }
    }
}

/// Which kind of store an operator works on, with its settings.
#[derive(Debug, PartialEq, Eq)]
#[non_exhaustive]
pub enum DataMode {
    Local(LocalConfig),
    Remote(RemoteConfig),
}

impl Clone for DataMode {
    fn clone(&self) -> (res: Self)
        ensures
            res == *self,
    {
        match self {
            DataMode::Local(x) => DataMode::Local(x.clone()),
            DataMode::Remote(x) => DataMode::Remote(x.clone()),
        }
    }
}

/// The settings of a store, under the name that configuration files use.
pub type DataConfig = DataMode;

} // verus!
