use std::hash::Hash;
use uuid::Uuid;
use vstd::prelude::*;

verus! {

#[verifier::external_type_specification]
#[verifier::external_body]
pub struct ExUuid(Uuid);

/// Relies on uuid's derived `Clone` for `Uuid`, a plain copy of its sixteen bytes.
pub assume_specification[ <Uuid as Clone>::clone ](u: &Uuid) -> (r: Uuid)
    ensures
        r == *u,
;

/// Relies on uuid's `Uuid::new_v4`, which draws a random identifier; nothing is
/// known of its value.
pub assume_specification[ Uuid::new_v4 ]() -> Uuid;

/// A record that a repository can store: an identifier, a stock-keeping unit and
/// free-form metadata.
pub trait Storable {
    type Sku: Eq + Hash + Clone + Send + Sync;

    type Metadata: Clone + Send + Sync;

    fn id(&self) -> Uuid;

    fn sku(&self) -> &Self::Sku;

    fn metadata(&self) -> &Self::Metadata;
}

/// A stored item with a random identifier.
#[derive(Clone, Debug)]
pub struct Item<S, M> where S: Eq + Hash + Clone + Send + Sync, M: Clone + Send + Sync {
    id: Uuid,
    sku: S,
    metadata: M,
}

impl<S, M> Item<S, M> where S: Eq + Hash + Clone + Send + Sync, M: Clone + Send + Sync {
    pub closed spec fn spec_id(&self) -> Uuid {
        self.id
    }

    pub closed spec fn spec_sku(&self) -> S {
        self.sku
    }

    pub closed spec fn spec_metadata(&self) -> M {
        self.metadata
    }

    /// An item for `sku` and `metadata`, under a fresh random identifier.
    pub fn new(sku: S, metadata: M) -> (r: Self)
        ensures
            r.spec_sku() == sku,
            r.spec_metadata() == metadata,
    {
        let id = Uuid::new_v4();
        Item { id, sku, metadata }
    }
}

impl<S, M> Storable for Item<S, M> where S: Eq + Hash + Clone + Send + Sync, M: Clone + Send + Sync {
    type Sku = S;

    type Metadata = M;

    fn id(&self) -> (r: Uuid)
        ensures
            r == self.spec_id(),
    {
        self.id
    }

    fn sku(&self) -> (r: &S)
        ensures
            *r == self.spec_sku(),
    {
        &self.sku
    }

    fn metadata(&self) -> (r: &M)
        ensures
            *r == self.spec_metadata(),
    {
        &self.metadata
    }
}

} // verus!
