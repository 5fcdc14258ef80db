use vstd::prelude::*;

verus! {

/// The news that shop `offline_id` left the ring and that shop `replace_id`
/// now stands after its predecessor.
pub struct OfflineShopModel {
    pub offline_id: usize,
    pub replace_id: usize,
}

/// The notice sent around the ring when a shop stops answering.
#[derive(Debug, PartialEq, Eq)]
pub struct OfflineShop {
    offline_id: usize,
    replace_id: usize,
}

impl View for OfflineShop {
    type V = OfflineShopModel;

    closed spec fn view(&self) -> OfflineShopModel {
        OfflineShopModel { offline_id: self.offline_id, replace_id: self.replace_id }
    }
}

impl OfflineShop {
    /// The notice that `offline_id` is gone and `replace_id` takes its place.
    pub fn new(offline_id: usize, replace_id: usize) -> (notice: OfflineShop)
        ensures
            notice@ == (OfflineShopModel { offline_id, replace_id }),
    {
        OfflineShop { offline_id, replace_id }
    }

    /// The shop that left.
    pub fn get_offline_id(&self) -> (id: usize)
        ensures
            id == self@.offline_id,
    {
        self.offline_id
    }

    /// The shop that takes its place.
    pub fn get_replace_id(&self) -> (id: usize)
        ensures
            id == self@.replace_id,
    {
        self.replace_id
    }
}

} // verus!
