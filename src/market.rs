//! The market service: it owns markets and the market list of a hash name.
use vstd::prelude::*;
use crate::facade::{Market, MarketHashName};
use crate::resolve::{resolve_batch, batch_resolution, ValueView, Catalog, EntityRepresentation, FieldValue, Record, ResolvedEntity, Value};
use crate::schema::{field_names, lemma_names_with_three, names_contain, names_with, EntityType, FieldDescriptor, Ownership, ResultType, TypeRegistry};

verus! {

fn text_field(name: &str, value: &str) -> (r: FieldValue)
    ensures
        r.name@ == name@,
        r.value@ == ValueView::Str(value@),
{
    FieldValue { name: String::from_str(name), value: Value::Str(String::from_str(value)) }
}

fn market_record(id: &str, name: &str) -> (r: Record)
    ensures
        r.typename@ == "Market"@,
        r.fields@.len() == 3,
        r.fields@[0].name@ == "id"@,
        r.fields@[0].value@ == ValueView::Id(id@),
        r.fields@[1].name@ == "name"@,
        r.fields@[1].value@ == ValueView::Str(name@),
        r.fields@[2].name@ == "version"@,
        r.fields@[2].value@ == ValueView::Int(1),
{
    let mut fields: Vec<FieldValue> = Vec::new();
    fields.push(FieldValue { name: String::from_str("id"), value: Value::Id(String::from_str(id)) });
    fields.push(text_field("name", name));
    fields.push(FieldValue { name: String::from_str("version"), value: Value::Int(1) });
    Record { typename: String::from_str("Market"), fields }
}

/// The market service's types: `Market` keyed by `id` and `MarketHashName`
/// keyed by `value`, with every field owned here.
pub fn market_registry() -> (r: TypeRegistry)
    ensures
        r.wf(),
        r.types().len() == 2,
        r.types()[0].name@ == "Market"@,
        r.types()[1].name@ == "MarketHashName"@,
        r.types()[0].key_fields@.map_values(|k: String| k@) == seq!["id"@],
        r.types()[0].owned_names() == seq!["id"@, "name"@, "version"@],
        r.types()[0].external_names() == Seq::<Seq<char>>::empty(),
        r.types()[1].key_fields@.map_values(|k: String| k@) == seq!["value"@],
        r.types()[1].owned_names() == seq!["value"@, "markets"@, "version"@],
        r.types()[1].external_names() == Seq::<Seq<char>>::empty(),
{
    let mut reg = TypeRegistry::new();
    let mut market_fields: Vec<FieldDescriptor> = Vec::new();
    market_fields.push(FieldDescriptor::new("id", ResultType::Id, Ownership::Local));
    market_fields.push(FieldDescriptor::new("name", ResultType::Str, Ownership::Local));
    market_fields.push(FieldDescriptor::new("version", ResultType::Int, Ownership::Local));
    let mut market_keys: Vec<String> = Vec::new();
    market_keys.push(String::from_str("id"));
    let market = EntityType { name: String::from_str("Market"), key_fields: market_keys, fields: market_fields };
    let mut hash_fields: Vec<FieldDescriptor> = Vec::new();
    hash_fields.push(FieldDescriptor::new("value", ResultType::Str, Ownership::Local));
    hash_fields.push(FieldDescriptor::new("markets", ResultType::EntityList(String::from_str("Market")), Ownership::Local));
    hash_fields.push(FieldDescriptor::new("version", ResultType::Int, Ownership::Local));
    let mut hash_keys: Vec<String> = Vec::new();
    hash_keys.push(String::from_str("value"));
    let hash = EntityType { name: String::from_str("MarketHashName"), key_fields: hash_keys, fields: hash_fields };
    proof {
        reveal_strlit("id");
        reveal_strlit("name");
        reveal_strlit("version");
        reveal_strlit("value");
        reveal_strlit("markets");
        reveal_strlit("Market");
        reveal_strlit("MarketHashName");
        assert("id"@.len() == 2 && "name"@.len() == 4 && "version"@.len() == 7);
        assert("value"@.len() == 5 && "markets"@.len() == 7 && "Market"@.len() == 6);
        assert("MarketHashName"@.len() == 14);
        assert("version"@[0] == 'v' && "markets"@[0] == 'm');
        assert("id"@ != "name"@ && "id"@ != "version"@ && "name"@ != "version"@);
        assert("value"@ != "markets"@ && "value"@ != "version"@ && "markets"@ != "version"@);
        assert("Market"@ != "MarketHashName"@);
        assert(field_names(market.fields@) =~= seq![market.fields@[0].name, market.fields@[1].name, market.fields@[2].name]);
        assert(field_names(hash.fields@) =~= seq![hash.fields@[0].name, hash.fields@[1].name, hash.fields@[2].name]);
        assert(names_contain(field_names(market.fields@), market.key_fields@[0]@));
        assert(names_contain(field_names(hash.fields@), hash.key_fields@[0]@));
        assert(market.wf());
        assert(hash.wf());
    }
    proof {
        lemma_names_with_three(market.fields@, Ownership::Local);
        lemma_names_with_three(market.fields@, Ownership::External);
        lemma_names_with_three(hash.fields@, Ownership::Local);
        lemma_names_with_three(hash.fields@, Ownership::External);
        assert(names_with(market.fields@, Ownership::Local) =~= seq!["id"@, "name"@, "version"@]);
        assert(names_with(hash.fields@, Ownership::Local) =~= seq!["value"@, "markets"@, "version"@]);
        assert(names_with(market.fields@, Ownership::External) =~= Seq::<Seq<char>>::empty());
        assert(names_with(hash.fields@, Ownership::External) =~= Seq::<Seq<char>>::empty());
        assert(market.key_fields@.map_values(|k: String| k@) =~= seq!["id"@]);
        assert(hash.key_fields@.map_values(|k: String| k@) =~= seq!["value"@]);
    }
    let _ = reg.register(market);
    let _ = reg.register(hash);
    reg
}


/// The market service's backing data: markets `A` and `B`.
pub fn market_catalog() -> (r: Catalog)
    ensures
        r.records@.len() == 2,
        r.records@[0].typename@ == "Market"@,
        r.records@[0].fields@.len() == 3,
        r.records@[0].fields@[0].value@ == ValueView::Id("A"@),
        r.records@[0].fields@[1].value@ == ValueView::Str("name a"@),
        r.records@[1].typename@ == "Market"@,
        r.records@[1].fields@.len() == 3,
        r.records@[1].fields@[0].value@ == ValueView::Id("B"@),
        r.records@[1].fields@[1].value@ == ValueView::Str("name b"@),
{
    let mut records: Vec<Record> = Vec::new();
    records.push(market_record("A", "name a"));
    records.push(market_record("B", "name b"));
    Catalog { records }
}

/// The read operations of the market service.
pub struct Query {
    pub registry: TypeRegistry,
    pub catalog: Catalog,
}

impl Query {
    pub fn new() -> (r: Query)
        ensures
            r.registry.wf(),
            r.registry.types().len() == 2,
            r.registry.types()[0].name@ == "Market"@,
            r.registry.types()[1].name@ == "MarketHashName"@,
            r.catalog.records@.len() == 2,
    {
        Query { registry: market_registry(), catalog: market_catalog() }
    }

    pub fn ping(&self) -> (r: String)
        ensures
            r@ == "pong"@,
    {
        String::from_str("pong")
    }

    /// The markets that this service holds, with all their fields.
    pub fn markets(&self) -> (r: Vec<Market>)
        ensures
            r@.len() == 2,
            r@[0].id@ == "A"@,
            r@[0].name matches Some(n) && n@ == "name a"@,
            r@[0].version == Some(1u64),
            r@[1].id@ == "B"@,
            r@[1].name matches Some(n) && n@ == "name b"@,
            r@[1].version == Some(1u64),
    {
        let mut r: Vec<Market> = Vec::new();
        r.push(
            Market {
                id: String::from_str("A"),
                name: Some(String::from_str("name a")),
                version: Some(1),
            },
        );
        r.push(
            Market {
                id: String::from_str("B"),
                name: Some(String::from_str("name b")),
                version: Some(1),
            },
        );
        r
    }

    /// The version of a market, which this service computes.
    pub fn market_version(&self, _market: &Market) -> (r: u64)
        ensures
            r == 1,
    {
        1
    }

    /// The markets that list a hash name, which this service computes.
    pub fn hash_name_markets(&self, _hash_name: &MarketHashName) -> (r: Vec<Market>)
        ensures
            r@.len() == 1,
            r@[0].id@ == "id"@,
            r@[0].name matches Some(n) && n@ == "1"@,
            r@[0].version == Some(1u64),
    {
        let mut r: Vec<Market> = Vec::new();
        r.push(
            Market {
                id: String::from_str("id"),
                name: Some(String::from_str("1")),
                version: Some(1),
            },
        );
        r
    }

    /// The version of a hash name, which this service computes.
    pub fn hash_name_version(&self, _hash_name: &MarketHashName) -> (r: u64)
        ensures
            r == 7,
    {
        7
    }

    /// The market of key `id` as a stub: the key alone.
    pub fn find_market_by_name_id(&self, id: String) -> (r: Market)
        ensures
            r.id == id,
            r.name is None,
            r.version is None,
    {
        Market::stub(id)
    }

    /// The hash name of key `value` as a stub: the key alone.
    pub fn find_market_hash_name_by_value(&self, value: String) -> (r: MarketHashName)
        ensures
            r.value == value,
            r.markets is None,
            r.version is None,
    {
        MarketHashName::stub(value)
    }

    /// Resolves a batch of representations against this service's types and
    /// data, position by position.
    pub fn resolve_entities(&self, reps: &Vec<EntityRepresentation>) -> (r: Vec<ResolvedEntity>)
        requires
            self.registry.wf(),
        ensures
            r@.map_values(|e: ResolvedEntity| e@) == batch_resolution(
                self.registry.types(),
                self.catalog.records@,
                reps@,
            ),
    {
        resolve_batch(&self.registry, &self.catalog, reps)
    }
}

} // verus!
