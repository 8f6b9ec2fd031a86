//! Identities of stores, and layers that wrap one store in another.
use crate::local::LocalBackend;
use crate::remote::OpenDALBackend;
use vstd::prelude::*;

verus! {

/// A store with an identity, which tells stores apart across file systems.
pub trait DataVfs {
    /// The identity of the store.
    spec fn spec_id(&self) -> u128;

    /// Retrieves the identity of the store.
    fn get_id(&self) -> (res: u128)
        ensures
            res == self.spec_id(),
    ;
}

impl DataVfs for LocalBackend {
    open spec fn spec_id(&self) -> u128 {
        self.id
    }

    fn get_id(&self) -> (res: u128) {
        self.id
    }
}

impl DataVfs for OpenDALBackend {
    open spec fn spec_id(&self) -> u128 {
        self.id
    }

    fn get_id(&self) -> (res: u128) {
        self.id
    }
}

/// Something that wraps a store `V` into another store.
pub trait VfsLayer<V> {
    /// The wrapped store.
    type Bound;

    /// Wraps `vfs`.
    fn bind(&self, vfs: V) -> Self::Bound;
}

/// A layer that passes every request on to the store it wraps.
#[derive(Debug)]
pub struct SecureLayer<V> {
    pub vfs: V,
}

impl<V> SecureLayer<V> {
    /// A layer over `vfs`.
    pub fn new(vfs: V) -> (res: Self)
        ensures
            res.vfs == vfs,
    {
        SecureLayer { vfs }
    }

    /// The wrapped store.
    pub fn inner(&self) -> (res: &V)
        ensures
            *res == self.vfs,
    {
        &self.vfs
    }
}

impl<U, V> VfsLayer<V> for SecureLayer<U> {
    type Bound = SecureLayer<V>;

    fn bind(&self, vfs: V) -> (res: SecureLayer<V>)
        ensures
            res.vfs == vfs,
    {
        SecureLayer { vfs }
    }
}

impl<V: DataVfs> DataVfs for SecureLayer<V> {
    open spec fn spec_id(&self) -> u128 {
        self.vfs.spec_id()
    }

    fn get_id(&self) -> (res: u128) {
        self.vfs.get_id()
    }
}

} // verus!
