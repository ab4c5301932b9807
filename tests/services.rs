use subgraph_federation::facade::{Market, MarketHashName};
use subgraph_federation::inventory;
use subgraph_federation::market;
use subgraph_federation::resolve::{EntityRepresentation, FieldValue, ResolvedEntity, Value, Entity};

#[test]
fn ping_answers_pong() {
    assert_eq!(market::Query::new().ping(), "pong");
}

#[test]
fn market_list() {
    let markets = market::Query::new().markets();
    assert_eq!(markets.len(), 2);
    assert_eq!(markets[0], Market { id: "A".to_string(), name: Some("name a".to_string()), version: Some(1) });
    assert_eq!(markets[1], Market { id: "B".to_string(), name: Some("name b".to_string()), version: Some(1) });
}

#[test]
fn lookups_by_key_give_stubs() {
    let q = market::Query::new();
    assert_eq!(q.find_market_by_name_id("A".to_string()), Market { id: "A".to_string(), name: None, version: None });
    assert_eq!(
        q.find_market_hash_name_by_value("v".to_string()),
        MarketHashName { value: "v".to_string(), markets: None, version: None }
    );
    let q = inventory::Query::new();
    assert_eq!(q.find_market_by_name_id("B".to_string()), Market::stub("B".to_string()));
    assert_eq!(q.find_market_hash_name_by_value("w".to_string()), MarketHashName::stub("w".to_string()));
}

#[test]
fn inventory_item_leaves_external_fields_unset() {
    let item = inventory::Query::new().inventory();
    assert_eq!(item.value, "AK-47 | Redline (Field-Tested)");
    assert_eq!(item.markets, None);
    assert_eq!(item.version, None);
}

#[test]
fn inventory_resolves_its_hash_name_only() {
    let q = inventory::Query::new();
    let reps = vec![
        EntityRepresentation {
            typename: "MarketHashName".to_string(),
            key: vec![FieldValue { name: "value".to_string(), value: Value::Str("AK-47 | Redline (Field-Tested)".to_string()) }],
            hints: vec![],
        },
        EntityRepresentation {
            typename: "Market".to_string(),
            key: vec![FieldValue { name: "id".to_string(), value: Value::Id("A".to_string()) }],
            hints: vec![],
        },
    ];
    let out = q.resolve_entities(&reps);
    assert_eq!(out.len(), 2);
    assert_eq!(out[0], ResolvedEntity::Found(Entity {
        typename: "MarketHashName".to_string(),
        fields: vec![FieldValue { name: "value".to_string(), value: Value::Str("AK-47 | Redline (Field-Tested)".to_string()) }],
    }));
    assert_eq!(out[1], ResolvedEntity::NotFound);
}

#[test]
fn inventory_field_ownership() {
    let reg = inventory::inventory_registry();
    assert_eq!(reg.owned_fields_of(&"Market".to_string()), Ok(vec!["id".to_string()]));
    assert_eq!(reg.external_fields_of(&"Market".to_string()), Ok(vec!["name".to_string(), "version".to_string()]));
    assert_eq!(reg.external_fields_of(&"MarketHashName".to_string()), Ok(vec!["markets".to_string(), "version".to_string()]));
}

#[test]
fn market_service_resolution() {
    let q = market::Query::new();
    let reps = vec![EntityRepresentation {
        typename: "Market".to_string(),
        key: vec![FieldValue { name: "id".to_string(), value: Value::Id("B".to_string()) }],
        hints: vec![],
    }];
    let out = q.resolve_entities(&reps);
    match &out[0] {
        ResolvedEntity::Found(e) => assert_eq!(e.fields[1].value, Value::Str("name b".to_string())),
        ResolvedEntity::NotFound => panic!("market B not found"),
    }
}

#[test]
fn market_service_computed_fields() {
    let q = market::Query::new();
    let h = q.find_market_hash_name_by_value("v".to_string());
    assert_eq!(
        q.hash_name_markets(&h),
        vec![Market { id: "id".to_string(), name: Some("1".to_string()), version: Some(1) }]
    );
    assert_eq!(q.hash_name_version(&h), 7);
    assert_eq!(q.market_version(&q.markets()[0]), 1);
}

