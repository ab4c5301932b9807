//! The objects that the read operations return. A field that the answering
//! service does not own is left unset (`None`): a stub carries its key only.
use vstd::prelude::*;

verus! {

#[derive(Debug, Clone, PartialEq, Eq)]
pub struct Market {
    pub id: String,
    pub name: Option<String>,
    pub version: Option<u64>,
}

#[derive(Debug, Clone, PartialEq, Eq)]
pub struct MarketHashName {
    pub value: String,
    pub markets: Option<Vec<Market>>,
    pub version: Option<u64>,
}

impl Market {
    /// A market with only its key set; its other fields are left to the
    /// service that owns them.
    pub fn stub(id: String) -> (r: Market)
        ensures
            r.id == id,
            r.name is None,
            r.version is None,
    {
        Market { id, name: None, version: None }
    }
}

impl MarketHashName {
    /// A hash name with only its key set.
    pub fn stub(value: String) -> (r: MarketHashName)
        ensures
            r.value == value,
            r.markets is None,
            r.version is None,
    {
        MarketHashName { value, markets: None, version: None }
    }
}

} // verus!
