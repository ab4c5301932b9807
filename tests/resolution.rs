use subgraph_federation::market::{market_catalog, market_registry};
use subgraph_federation::resolve::{
    accepts_key, copy_value, resolve_checked, ResolveError, find_value, populate_fields, same_value,
    resolve_batch, resolve_one, Catalog, Entity, EntityRepresentation, FieldValue, Record,
    ResolvedEntity, Value,
};
use subgraph_federation::schema::{EntityType, FieldDescriptor, Ownership, ResultType, TypeRegistry};

fn fv(name: &str, value: Value) -> FieldValue {
    FieldValue { name: name.to_string(), value }
}

fn rep(kind: &str, key: Vec<FieldValue>) -> EntityRepresentation {
    EntityRepresentation { typename: kind.to_string(), key, hints: vec![] }
}

fn market_rep(id: &str) -> EntityRepresentation {
    rep("Market", vec![fv("id", Value::Id(id.to_string()))])
}

/// Market with key `id`, owned `id` and `name`, external `version`.
fn scenario() -> (TypeRegistry, Catalog) {
    let mut reg = TypeRegistry::new();
    let t = EntityType {
        name: "Market".to_string(),
        key_fields: vec!["id".to_string()],
        fields: vec![
            FieldDescriptor::new("id", ResultType::Id, Ownership::Local),
            FieldDescriptor::new("name", ResultType::Str, Ownership::Local),
            FieldDescriptor::new("version", ResultType::Int, Ownership::External),
        ],
    };
    assert_eq!(reg.register(t), Ok(()));
    let catalog = Catalog {
        records: vec![
            Record {
                typename: "Market".to_string(),
                fields: vec![
                    fv("id", Value::Id("A".to_string())),
                    fv("name", Value::Str("name a".to_string())),
                    fv("version", Value::Int(1)),
                ],
            },
            Record {
                typename: "Market".to_string(),
                fields: vec![
                    fv("name", Value::Str("name b".to_string())),
                    fv("id", Value::Id("B".to_string())),
                ],
            },
        ],
    };
    (reg, catalog)
}

fn found(fields: Vec<FieldValue>) -> ResolvedEntity {
    ResolvedEntity::Found(Entity { typename: "Market".to_string(), fields })
}

#[test]
fn market_a_resolves_to_owned_fields() {
    let (reg, catalog) = scenario();
    let out = resolve_batch(&reg, &catalog, &vec![market_rep("A")]);
    assert_eq!(
        out,
        vec![found(vec![
            fv("id", Value::Id("A".to_string())),
            fv("name", Value::Str("name a".to_string())),
        ])]
    );
    match &out[0] {
        ResolvedEntity::Found(e) => {
            assert!(e.fields.iter().all(|f| f.name != "version"));
            assert!(e.fields.iter().any(|f| f.name == "name" && f.value != Value::Str(String::new())));
        }
        ResolvedEntity::NotFound => panic!("market A not found"),
    }
}

#[test]
fn unknown_type_is_not_found() {
    let (reg, catalog) = scenario();
    let out = resolve_batch(&reg, &catalog, &vec![rep("Ghost", vec![fv("id", Value::Id("X".to_string()))])]);
    assert_eq!(out, vec![ResolvedEntity::NotFound]);
}

#[test]
fn batch_keeps_length_and_positions() {
    let (reg, catalog) = scenario();
    let reps = vec![market_rep("B"), rep("Ghost", vec![]), market_rep("A"), market_rep("Z")];
    let out = resolve_batch(&reg, &catalog, &reps);
    assert_eq!(out.len(), 4);
    assert_eq!(out[0], found(vec![
        fv("id", Value::Id("B".to_string())),
        fv("name", Value::Str("name b".to_string())),
    ]));
    assert_eq!(out[1], ResolvedEntity::NotFound);
    assert_eq!(out[2], resolve_one(&reg, &catalog, &market_rep("A")));
    assert_eq!(out[3], ResolvedEntity::NotFound);
}

#[test]
fn unknown_type_leaves_other_positions_alone() {
    let (reg, catalog) = scenario();
    let with_ghost = resolve_batch(&reg, &catalog, &vec![market_rep("A"), rep("Ghost", vec![]), market_rep("B")]);
    let with_market = resolve_batch(&reg, &catalog, &vec![market_rep("A"), market_rep("A"), market_rep("B")]);
    assert_eq!(with_ghost[1], ResolvedEntity::NotFound);
    assert_eq!(with_ghost[0], with_market[0]);
    assert_eq!(with_ghost[2], with_market[2]);
}

#[test]
fn resolving_twice_gives_identical_fields() {
    let (reg, catalog) = scenario();
    let first = resolve_one(&reg, &catalog, &market_rep("A"));
    let second = resolve_one(&reg, &catalog, &market_rep("A"));
    assert_eq!(first, second);
    let mut hinted = market_rep("A");
    hinted.hints.push(fv("name", Value::Str("other".to_string())));
    assert_eq!(resolve_one(&reg, &catalog, &hinted), first);
}

#[test]
fn empty_batch_gives_empty_result() {
    let (reg, catalog) = scenario();
    assert_eq!(resolve_batch(&reg, &catalog, &vec![]), vec![]);
}

#[test]
fn missing_key_field_is_not_found() {
    let (reg, catalog) = scenario();
    assert_eq!(resolve_one(&reg, &catalog, &rep("Market", vec![])), ResolvedEntity::NotFound);
}

#[test]
fn non_key_field_in_key_is_not_found() {
    let (reg, catalog) = scenario();
    let r = rep("Market", vec![fv("name", Value::Str("name a".to_string()))]);
    assert_eq!(resolve_one(&reg, &catalog, &r), ResolvedEntity::NotFound);
    let r = rep("Market", vec![fv("id", Value::Id("A".to_string())), fv("name", Value::Str("name a".to_string()))]);
    assert_eq!(resolve_one(&reg, &catalog, &r), ResolvedEntity::NotFound);
}

#[test]
fn key_value_of_wrong_type_is_not_found() {
    let (reg, catalog) = scenario();
    let r = rep("Market", vec![fv("id", Value::Str("A".to_string()))]);
    assert_eq!(resolve_one(&reg, &catalog, &r), ResolvedEntity::NotFound);
    let r = rep("Market", vec![fv("id", Value::Int(1))]);
    assert_eq!(resolve_one(&reg, &catalog, &r), ResolvedEntity::NotFound);
}

#[test]
fn record_missing_an_owned_field_is_not_found() {
    let (reg, mut catalog) = scenario();
    catalog.records.push(Record {
        typename: "Market".to_string(),
        fields: vec![fv("id", Value::Id("C".to_string()))],
    });
    assert_eq!(resolve_one(&reg, &catalog, &market_rep("C")), ResolvedEntity::NotFound);
}

#[test]
fn first_matching_record_wins() {
    let (reg, mut catalog) = scenario();
    catalog.records.push(Record {
        typename: "Market".to_string(),
        fields: vec![fv("id", Value::Id("A".to_string())), fv("name", Value::Str("later".to_string()))],
    });
    assert_eq!(
        resolve_one(&reg, &catalog, &market_rep("A")),
        found(vec![fv("id", Value::Id("A".to_string())), fv("name", Value::Str("name a".to_string()))])
    );
}

#[test]
fn market_service_resolves_its_markets() {
    let reg = market_registry();
    let catalog = market_catalog();
    let out = resolve_batch(&reg, &catalog, &vec![market_rep("A"), market_rep("B")]);
    assert_eq!(out[0], found(vec![
        fv("id", Value::Id("A".to_string())),
        fv("name", Value::Str("name a".to_string())),
        fv("version", Value::Int(1)),
    ]));
    assert_eq!(out[1], found(vec![
        fv("id", Value::Id("B".to_string())),
        fv("name", Value::Str("name b".to_string())),
        fv("version", Value::Int(1)),
    ]));
}

#[test]
fn value_helpers() {
    let a = Value::Id("A".to_string());
    assert_eq!(copy_value(&a), a);
    assert!(same_value(&a, &Value::Id("A".to_string())));
    assert!(!same_value(&a, &Value::Str("A".to_string())));
    assert!(!same_value(&Value::Int(1), &Value::Int(2)));
    let fields = vec![fv("x", Value::Int(1)), fv("x", Value::Int(2))];
    assert_eq!(find_value(&fields, &"x".to_string()), Some(&Value::Int(1)));
    assert_eq!(find_value(&fields, &"y".to_string()), None);
    let (reg, _) = scenario();
    let t = reg.describe(&"Market".to_string()).unwrap();
    assert!(accepts_key(t, &vec![fv("id", Value::Id("Q".to_string()))]));
    assert_eq!(populate_fields(&t.fields, &vec![fv("name", Value::Str("n".to_string())), fv("id", Value::Id("Q".to_string()))]),
        Some(vec![fv("id", Value::Id("Q".to_string())), fv("name", Value::Str("n".to_string()))]));
}

#[test]
fn reasons_for_not_found() {
    let (reg, catalog) = scenario();
    assert_eq!(resolve_checked(&reg, &catalog, &rep("Ghost", vec![])), Err(ResolveError::UnknownType));
    assert_eq!(resolve_checked(&reg, &catalog, &rep("Market", vec![])), Err(ResolveError::IncompleteKey));
    let wrong = rep("Market", vec![fv("id", Value::Int(7))]);
    assert_eq!(resolve_checked(&reg, &catalog, &wrong), Err(ResolveError::IncompleteKey));
    assert_eq!(resolve_checked(&reg, &catalog, &market_rep("Z")), Err(ResolveError::NotFound));
    assert_eq!(
        resolve_checked(&reg, &catalog, &market_rep("A")),
        Ok(Entity {
            typename: "Market".to_string(),
            fields: vec![fv("id", Value::Id("A".to_string())), fv("name", Value::Str("name a".to_string()))],
        })
    );
}
