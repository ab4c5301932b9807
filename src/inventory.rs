//! The inventory service: it owns hash names and extends markets and hash
//! names with fields that the market service resolves.
use vstd::prelude::*;
use crate::facade::{Market, MarketHashName};
use crate::resolve::{
    batch_resolution, resolve_batch, Catalog, EntityRepresentation, FieldValue, Record,
    ResolvedEntity, Value, ValueView,
};
use crate::schema::{
    field_names, lemma_names_with_three, names_contain, names_with, EntityType, FieldDescriptor,
    Ownership, ResultType, TypeRegistry,
};

verus! {

/// The inventory service's types: `Market` keyed by `id`, with `name` and
/// `version` external, and `MarketHashName` keyed by `value`, with `markets`
/// and `version` external.
pub fn inventory_registry() -> (r: TypeRegistry)
    ensures
        r.wf(),
        r.types().len() == 2,
        r.types()[0].name@ == "Market"@,
        r.types()[1].name@ == "MarketHashName"@,
        r.types()[0].key_fields@.map_values(|k: String| k@) == seq!["id"@],
        r.types()[0].owned_names() == seq!["id"@],
        r.types()[0].external_names() == seq!["name"@, "version"@],
        r.types()[1].key_fields@.map_values(|k: String| k@) == seq!["value"@],
        r.types()[1].owned_names() == seq!["value"@],
        r.types()[1].external_names() == seq!["markets"@, "version"@],
{
    let mut reg = TypeRegistry::new();
    let mut market_fields: Vec<FieldDescriptor> = Vec::new();
    market_fields.push(FieldDescriptor::new("id", ResultType::Id, Ownership::Local));
    market_fields.push(FieldDescriptor::new("name", ResultType::Str, Ownership::External));
    market_fields.push(FieldDescriptor::new("version", ResultType::Int, Ownership::External));
    let mut market_keys: Vec<String> = Vec::new();
    market_keys.push(String::from_str("id"));
    let market = EntityType {
        name: String::from_str("Market"),
        key_fields: market_keys,
        fields: market_fields,
    };
    let mut hash_fields: Vec<FieldDescriptor> = Vec::new();
    hash_fields.push(FieldDescriptor::new("value", ResultType::Str, Ownership::Local));
    hash_fields.push(
        FieldDescriptor::new(
            "markets",
            ResultType::EntityList(String::from_str("Market")),
            Ownership::External,
        ),
    );
    hash_fields.push(FieldDescriptor::new("version", ResultType::Int, Ownership::External));
    let mut hash_keys: Vec<String> = Vec::new();
    hash_keys.push(String::from_str("value"));
    let hash = EntityType {
        name: String::from_str("MarketHashName"),
        key_fields: hash_keys,
        fields: hash_fields,
    };
    proof {
        reveal_strlit("id");
        reveal_strlit("name");
        reveal_strlit("version");
        reveal_strlit("value");
        reveal_strlit("markets");
        reveal_strlit("Market");
        reveal_strlit("MarketHashName");
        assert("id"@.len() == 2 && "name"@.len() == 4 && "version"@.len() == 7);
        assert("value"@.len() == 5 && "markets"@.len() == 7 && "Market"@.len() == 6);
        assert("MarketHashName"@.len() == 14);
        assert("version"@[0] == 'v' && "markets"@[0] == 'm');
        assert(field_names(market.fields@) =~= seq![
            market.fields@[0].name,
            market.fields@[1].name,
            market.fields@[2].name,
        ]);
        assert(field_names(hash.fields@) =~= seq![
            hash.fields@[0].name,
            hash.fields@[1].name,
            hash.fields@[2].name,
        ]);
        assert(names_contain(field_names(market.fields@), market.key_fields@[0]@));
        assert(names_contain(field_names(hash.fields@), hash.key_fields@[0]@));
        lemma_names_with_three(market.fields@, Ownership::Local);
        lemma_names_with_three(market.fields@, Ownership::External);
        lemma_names_with_three(hash.fields@, Ownership::Local);
        lemma_names_with_three(hash.fields@, Ownership::External);
        assert(names_with(market.fields@, Ownership::Local) =~= seq!["id"@]);
        assert(names_with(market.fields@, Ownership::External) =~= seq!["name"@, "version"@]);
        assert(names_with(hash.fields@, Ownership::Local) =~= seq!["value"@]);
        assert(names_with(hash.fields@, Ownership::External) =~= seq!["markets"@, "version"@]);
        assert(market.key_fields@.map_values(|k: String| k@) =~= seq!["id"@]);
        assert(hash.key_fields@.map_values(|k: String| k@) =~= seq!["value"@]);
    }
    let _ = reg.register(market);
    let _ = reg.register(hash);
    reg
}

/// The inventory's backing data: the one hash name it holds.
pub fn inventory_catalog() -> (r: Catalog)
    ensures
        r.records@.len() == 1,
        r.records@[0].typename@ == "MarketHashName"@,
        r.records@[0].fields@.len() == 1,
        r.records@[0].fields@[0].name@ == "value"@,
        r.records@[0].fields@[0].value@ == ValueView::Str("AK-47 | Redline (Field-Tested)"@),
{
    let mut fields: Vec<FieldValue> = Vec::new();
    fields.push(
        FieldValue { name: String::from_str("value"), value: Value::Str(String::from_str("AK-47 | Redline (Field-Tested)")) },
    );
    let mut records: Vec<Record> = Vec::new();
    records.push(Record { typename: String::from_str("MarketHashName"), fields });
    Catalog { records }
}

/// The read operations of the inventory service.
pub struct Query {
    pub registry: TypeRegistry,
    pub catalog: Catalog,
}

impl Query {
    pub fn new() -> (r: Query)
        ensures
            r.registry.wf(),
            r.registry.types().len() == 2,
            r.registry.types()[0].name@ == "Market"@,
            r.registry.types()[1].name@ == "MarketHashName"@,
            r.catalog.records@.len() == 1,
    {
        Query { registry: inventory_registry(), catalog: inventory_catalog() }
    }

    /// The hash name in the inventory; its markets and version belong to the
    /// market service and are left unset.
    pub fn inventory(&self) -> (r: MarketHashName)
        ensures
            r.value@ == "AK-47 | Redline (Field-Tested)"@,
            r.markets is None,
            r.version is None,
    {
        MarketHashName::stub(String::from_str("AK-47 | Redline (Field-Tested)"))
    }

    /// The market of key `id` as a stub: the key alone.
    pub fn find_market_by_name_id(&self, id: String) -> (r: Market)
        ensures
            r.id == id,
            r.name is None,
            r.version is None,
    {
        Market::stub(id)
    }

    /// The hash name of key `value` as a stub: the key alone.
    pub fn find_market_hash_name_by_value(&self, value: String) -> (r: MarketHashName)
        ensures
            r.value == value,
            r.markets is None,
            r.version is None,
    {
        MarketHashName::stub(value)
    }

    /// Resolves a batch of representations against this service's types and
    /// data, position by position.
    pub fn resolve_entities(&self, reps: &Vec<EntityRepresentation>) -> (r: Vec<ResolvedEntity>)
        requires
            self.registry.wf(),
        ensures
            r@.map_values(|e: ResolvedEntity| e@) == batch_resolution(
                self.registry.types(),
                self.catalog.records@,
                reps@,
            ),
    {
        resolve_batch(&self.registry, &self.catalog, reps)
    }
}

} // verus!
