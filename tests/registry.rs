use subgraph_federation::schema::{
    all_distinct, contains_name,
    EntityType, FieldDescriptor, Ownership, RegistryError, ResultType, TypeRegistry,
};

fn market_type() -> EntityType {
    EntityType {
        name: "Market".to_string(),
        key_fields: vec!["id".to_string()],
        fields: vec![
            FieldDescriptor::new("id", ResultType::Id, Ownership::Local),
            FieldDescriptor::new("name", ResultType::Str, Ownership::Local),
            FieldDescriptor::new("version", ResultType::Int, Ownership::External),
        ],
    }
}

#[test]
fn describe_returns_registered_type() {
    let mut reg = TypeRegistry::new();
    assert_eq!(reg.register(market_type()), Ok(()));
    let t = reg.describe(&"Market".to_string()).unwrap();
    assert_eq!(*t, market_type());
}

#[test]
fn second_registration_of_a_name_is_refused() {
    let mut reg = TypeRegistry::new();
    assert_eq!(reg.register(market_type()), Ok(()));
    let mut other = market_type();
    other.fields.pop();
    assert_eq!(reg.register(other), Err(RegistryError::DuplicateType));
    assert_eq!(reg.entity_types().len(), 1);
    assert_eq!(*reg.describe(&"Market".to_string()).unwrap(), market_type());
}

#[test]
fn unknown_name_is_refused() {
    let mut reg = TypeRegistry::new();
    assert_eq!(reg.register(market_type()), Ok(()));
    assert_eq!(reg.describe(&"Ghost".to_string()), Err(RegistryError::UnknownType));
    assert_eq!(reg.owned_fields_of(&"Ghost".to_string()), Err(RegistryError::UnknownType));
    assert_eq!(reg.external_fields_of(&"Ghost".to_string()), Err(RegistryError::UnknownType));
}

#[test]
fn field_both_owned_and_external_is_refused() {
    let mut t = market_type();
    t.fields.push(FieldDescriptor::new("name", ResultType::Str, Ownership::External));
    assert!(!t.is_valid());
    let mut reg = TypeRegistry::new();
    assert_eq!(reg.register(t), Err(RegistryError::InvalidType));
    assert_eq!(reg.entity_types().len(), 0);
}

#[test]
fn undeclared_key_field_is_refused() {
    let mut t = market_type();
    t.key_fields.push("sku".to_string());
    let mut reg = TypeRegistry::new();
    assert_eq!(reg.register(t), Err(RegistryError::InvalidType));
}

#[test]
fn repeated_key_field_is_refused() {
    let mut t = market_type();
    t.key_fields.push("id".to_string());
    assert!(!t.is_valid());
}

#[test]
fn duplicate_is_reported_before_invalid() {
    let mut reg = TypeRegistry::new();
    assert_eq!(reg.register(market_type()), Ok(()));
    let mut t = market_type();
    t.key_fields.push("sku".to_string());
    assert_eq!(reg.register(t), Err(RegistryError::DuplicateType));
}

#[test]
fn owned_and_external_fields_in_declaration_order() {
    let mut reg = TypeRegistry::new();
    assert_eq!(reg.register(market_type()), Ok(()));
    let n = "Market".to_string();
    assert_eq!(reg.owned_fields_of(&n), Ok(vec!["id".to_string(), "name".to_string()]));
    assert_eq!(reg.external_fields_of(&n), Ok(vec!["version".to_string()]));
}

#[test]
fn types_keep_registration_order() {
    let mut reg = TypeRegistry::new();
    let hash = EntityType {
        name: "MarketHashName".to_string(),
        key_fields: vec!["value".to_string()],
        fields: vec![FieldDescriptor::new("value", ResultType::Str, Ownership::Local)],
    };
    assert_eq!(reg.register(hash.clone()), Ok(()));
    assert_eq!(reg.register(market_type()), Ok(()));
    assert_eq!(reg.entity_types()[0], hash);
    assert_eq!(reg.entity_types()[1], market_type());
}

#[test]
fn helper_predicates() {
    let names = vec!["a".to_string(), "b".to_string()];
    assert!(contains_name(&names, &"b".to_string()));
    assert!(!contains_name(&names, &"c".to_string()));
    assert!(all_distinct(&names));
    assert!(!all_distinct(&vec!["a".to_string(), "a".to_string()]));
    assert!(all_distinct(&vec![]));
}
