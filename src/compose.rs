//! Composition of the registered types into one schema document in a stable
//! text form.
use vstd::prelude::*;
use crate::schema::{EntityType, FieldDescriptor, Ownership, ResultType, TypeRegistry};

verus! {

/// The exported description of this service's part of the graph.
#[derive(Debug, Clone, PartialEq, Eq)]
pub struct SchemaDocument {
    pub text: String,
}

/// The key field names, separated by single spaces.
pub open spec fn join_names(keys: Seq<String>) -> Seq<char>
    decreases keys.len(),
{
    if keys.len() == 0 {
        Seq::empty()
    } else if keys.len() == 1 {
        keys[0]@
    } else {
        join_names(keys.drop_last()) + " "@ + keys.last()@
    }
}

pub open spec fn type_text(rt: ResultType) -> Seq<char> {
    match rt {
        ResultType::Id => "ID!"@,
        ResultType::Str => "String!"@,
        ResultType::Int => "Int!"@,
        ResultType::Entity(n) => n@ + "!"@,
        ResultType::EntityList(n) => "["@ + n@ + "!]!"@,
    }
}

/// One field declaration; a field of another service is marked external.
pub open spec fn field_line(f: FieldDescriptor) -> Seq<char> {
    "  "@ + f.name@ + ": "@ + type_text(f.result_type) + (if f.ownership == Ownership::External {
        " @external"@
    } else {
        Seq::empty()
    }) + "\n"@
}

pub open spec fn fields_text(fields: Seq<FieldDescriptor>) -> Seq<char>
    decreases fields.len(),
{
    if fields.len() == 0 {
        Seq::empty()
    } else {
        fields_text(fields.drop_last()) + field_line(fields.last())
    }
}

/// The declaration of one entity type with its key and its fields in
/// declaration order.
pub open spec fn type_block(t: EntityType) -> Seq<char> {
    "type "@ + t.name@ + " @key(fields: \""@ + join_names(t.key_fields@) + "\") {\n"@
        + fields_text(t.fields@) + "}\n\n"@
}

/// The entry of the root query that advertises the key a type resolves by.
pub open spec fn root_line(t: EntityType) -> Seq<char> {
    "  "@ + t.name@ + "(key: \""@ + join_names(t.key_fields@) + "\"): "@ + t.name@ + "\n"@
}

pub open spec fn types_text(types: Seq<EntityType>) -> Seq<char>
    decreases types.len(),
{
    if types.len() == 0 {
        Seq::empty()
    } else {
        types_text(types.drop_last()) + type_block(types.last())
    }
}

pub open spec fn root_text(types: Seq<EntityType>) -> Seq<char>
    decreases types.len(),
{
    if types.len() == 0 {
        Seq::empty()
    } else {
        root_text(types.drop_last()) + root_line(types.last())
    }
}

/// The whole document: the types in registration order, then the root query
/// with one key entry per type.
pub open spec fn schema_text(types: Seq<EntityType>) -> Seq<char> {
    types_text(types) + "type Query {\n"@ + root_text(types) + "}\n"@
}

fn push_names(out: &mut String, keys: &Vec<String>)
    ensures
        final(out)@ == old(out)@ + join_names(keys@),
{
    let ghost start = out@;
    let mut i: usize = 0;
    while i < keys.len()
        invariant
            i <= keys@.len(),
            out@ == start + join_names(keys@.take(i as int)),
        decreases keys@.len() - i,
    {
        let ghost before = out@;
        assert(keys@.take(i + 1).drop_last() =~= keys@.take(i as int));
        assert(keys@.take(i + 1).last() == keys@[i as int]);
        if i > 0 {
            out.append(" ");
        }
        out.append(keys[i].as_str());
        assert(out@ =~= start + join_names(keys@.take(i + 1)));
        i = i + 1;
    }
    assert(keys@.take(i as int) =~= keys@);
}

fn push_type_text(out: &mut String, rt: &ResultType)
    ensures
        final(out)@ == old(out)@ + type_text(*rt),
{
    let ghost start = out@;
    match rt {
        ResultType::Id => out.append("ID!"),
        ResultType::Str => out.append("String!"),
        ResultType::Int => out.append("Int!"),
        ResultType::Entity(n) => {
            out.append(n.as_str());
            out.append("!");
            assert(out@ =~= start + type_text(*rt));
        },
        ResultType::EntityList(n) => {
            out.append("[");
            out.append(n.as_str());
            out.append("!]!");
            assert(out@ =~= start + type_text(*rt));
        },
    }
}

fn push_field(out: &mut String, f: &FieldDescriptor)
    ensures
        final(out)@ == old(out)@ + field_line(*f),
{
    let ghost start = out@;
    out.append("  ");
    out.append(f.name.as_str());
    out.append(": ");
    push_type_text(out, &f.result_type);
    if f.ownership == Ownership::External {
        out.append(" @external");
    }
    out.append("\n");
    assert(out@ =~= start + field_line(*f));
}

fn push_type_block(out: &mut String, t: &EntityType)
    ensures
        final(out)@ == old(out)@ + type_block(*t),
{
    let ghost start = out@;
    out.append("type ");
    out.append(t.name.as_str());
    out.append(" @key(fields: \"");
    push_names(out, &t.key_fields);
    out.append("\") {\n");
    let ghost head = out@;
    let mut i: usize = 0;
    while i < t.fields.len()
        invariant
            i <= t.fields@.len(),
            out@ == head + fields_text(t.fields@.take(i as int)),
        decreases t.fields@.len() - i,
    {
        assert(t.fields@.take(i + 1).drop_last() =~= t.fields@.take(i as int));
        assert(t.fields@.take(i + 1).last() == t.fields@[i as int]);
        push_field(out, &t.fields[i]);
        assert(out@ =~= head + fields_text(t.fields@.take(i + 1)));
        i = i + 1;
    }
    assert(t.fields@.take(i as int) =~= t.fields@);
    out.append("}\n\n");
    assert(out@ =~= start + type_block(*t));
}

fn push_root_line(out: &mut String, t: &EntityType)
    ensures
        final(out)@ == old(out)@ + root_line(*t),
{
    let ghost start = out@;
    out.append("  ");
    out.append(t.name.as_str());
    out.append("(key: \"");
    push_names(out, &t.key_fields);
    out.append("\"): ");
    out.append(t.name.as_str());
    out.append("\n");
    assert(out@ =~= start + root_line(*t));
}

/// Composes the registered types into one document: each type with its key
/// and fields in declaration order, then a root query that advertises the key
/// of each type.
pub fn compose(reg: &TypeRegistry) -> (r: SchemaDocument)
    ensures
        r.text@ == schema_text(reg.types()),
{
    let types = reg.entity_types();
    let mut out = String::new();
    let mut i: usize = 0;
    while i < types.len()
        invariant
            i <= types@.len(),
            out@ == types_text(types@.take(i as int)),
        decreases types@.len() - i,
    {
        assert(types@.take(i + 1).drop_last() =~= types@.take(i as int));
        assert(types@.take(i + 1).last() == types@[i as int]);
        push_type_block(&mut out, &types[i]);
        i = i + 1;
    }
    assert(types@.take(i as int) =~= types@);
    out.append("type Query {\n");
    let ghost head = out@;
    let mut j: usize = 0;
    while j < types.len()
        invariant
            j <= types@.len(),
            out@ == head + root_text(types@.take(j as int)),
        decreases types@.len() - j,
    {
        assert(types@.take(j + 1).drop_last() =~= types@.take(j as int));
        assert(types@.take(j + 1).last() == types@[j as int]);
        push_root_line(&mut out, &types[j]);
        assert(out@ =~= head + root_text(types@.take(j + 1)));
        j = j + 1;
    }
    assert(types@.take(j as int) =~= types@);
    out.append("}\n");
    SchemaDocument { text: out }
}

/// Composition is deterministic: two registries with the same types in the
/// same order compose to identical text.
pub proof fn lemma_compose_deterministic(a: TypeRegistry, b: TypeRegistry)
    requires
        a.types() == b.types(),
    ensures
        schema_text(a.types()) == schema_text(b.types()),
{
}

} // verus!
