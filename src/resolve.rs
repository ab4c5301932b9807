//! Batch resolution of entity representations (a type name and key values)
//! into the fields that this service owns.
use vstd::prelude::*;
use crate::schema::{
    names_contain, names_with, has_type, type_named, EntityType, FieldDescriptor, Ownership, ResultType,
    TypeRegistry,
};

verus! {

/// A scalar value of a field.
#[derive(Debug, Clone, PartialEq, Eq)]
pub enum Value {
    Id(String),
    Str(String),
    Int(u64),
}

pub enum ValueView {
    Id(Seq<char>),
    Str(Seq<char>),
    Int(u64),
}

impl View for Value {
    type V = ValueView;

    open spec fn view(&self) -> ValueView {
        match self {
            Value::Id(s) => ValueView::Id(s@),
            Value::Str(s) => ValueView::Str(s@),
            Value::Int(n) => ValueView::Int(*n),
        }
    }
}

/// A field name with its value.
#[derive(Debug, Clone, PartialEq, Eq)]
pub struct FieldValue {
    pub name: String,
    pub value: Value,
}

/// What a caller knows of an entity: its type name and its key values, with
/// optional hints that resolution does not read.
#[derive(Debug, Clone, PartialEq, Eq)]
pub struct EntityRepresentation {
    pub typename: String,
    pub key: Vec<FieldValue>,
    pub hints: Vec<FieldValue>,
}

/// A record of the backing data: a type name and field values.
#[derive(Debug, Clone, PartialEq, Eq)]
pub struct Record {
    pub typename: String,
    pub fields: Vec<FieldValue>,
}

/// The backing data that this service resolves entities from.
#[derive(Debug)]
pub struct Catalog {
    pub records: Vec<Record>,
}

/// A resolved entity: its type name and the values of its owned fields.
#[derive(Debug, Clone, PartialEq, Eq)]
pub struct Entity {
    pub typename: String,
    pub fields: Vec<FieldValue>,
}

#[derive(Debug, Clone, PartialEq, Eq)]
pub enum ResolvedEntity {
    Found(Entity),
    NotFound,
}

pub type EntityView = (Seq<char>, Seq<(Seq<char>, ValueView)>);

pub open spec fn field_views(s: Seq<FieldValue>) -> Seq<(Seq<char>, ValueView)> {
    s.map_values(|f: FieldValue| (f.name@, f.value@))
}

impl View for ResolvedEntity {
    type V = Option<EntityView>;

    open spec fn view(&self) -> Option<EntityView> {
        match self {
            ResolvedEntity::Found(e) => Some((e.typename@, field_views(e.fields@))),
            ResolvedEntity::NotFound => None,
        }
    }
}

/// The value of the first field of `s` named `n`.
pub open spec fn value_of(s: Seq<FieldValue>, n: Seq<char>) -> Option<ValueView>
    decreases s.len(),
{
    if s.len() == 0 {
        None
    } else if s[0].name@ == n {
        Some(s[0].value@)
    } else {
        value_of(s.drop_first(), n)
    }
}

/// The first descriptor of `fields` named `n`.
pub open spec fn descriptor_of(fields: Seq<FieldDescriptor>, n: Seq<char>) -> Option<
    FieldDescriptor,
>
    decreases fields.len(),
{
    if fields.len() == 0 {
        None
    } else if fields[0].name@ == n {
        Some(fields[0])
    } else {
        descriptor_of(fields.drop_first(), n)
    }
}

/// Whether a key value fits the declared result type of its field.
pub open spec fn compatible(rt: ResultType, v: ValueView) -> bool {
    match (rt, v) {
        (ResultType::Id, ValueView::Id(_)) => true,
        (ResultType::Str, ValueView::Str(_)) => true,
        (ResultType::Int, ValueView::Int(_)) => true,
        _ => false,
    }
}

/// Key field `n` of `t` has a value in `key` of a fitting type.
pub open spec fn key_field_given(t: EntityType, key: Seq<FieldValue>, n: Seq<char>) -> bool {
    match (descriptor_of(t.fields@, n), value_of(key, n)) {
        (Some(d), Some(v)) => compatible(d.result_type, v),
        _ => false,
    }
}

/// `key` names only key fields of `t`, gives each of them a value of a
/// fitting type, and holds nothing else.
pub open spec fn key_accepted(t: EntityType, key: Seq<FieldValue>) -> bool {
    &&& key.len() == t.key_fields@.len()
    &&& forall|i: int| 0 <= i < key.len() ==> names_contain(t.key_fields@, (#[trigger] key[i]).name@)
    &&& forall|k: int|
        0 <= k < t.key_fields@.len() ==> key_field_given(t, key, (#[trigger] t.key_fields@[k])@)
}

/// `rec` is a record of type `t` whose key values are those of `key`.
pub open spec fn record_matches(rec: Record, t: EntityType, key: Seq<FieldValue>) -> bool {
    &&& rec.typename@ == t.name@
    &&& forall|k: int|
        0 <= k < t.key_fields@.len() ==> value_of(rec.fields@, (#[trigger] t.key_fields@[k])@)
            == value_of(key, t.key_fields@[k]@)
}

/// The first record of `records` that matches `t` and `key`.
pub open spec fn first_match(records: Seq<Record>, t: EntityType, key: Seq<FieldValue>) -> Option<
    Record,
>
    decreases records.len(),
{
    if records.len() == 0 {
        None
    } else if record_matches(records[0], t, key) {
        Some(records[0])
    } else {
        first_match(records.drop_first(), t, key)
    }
}

/// The locally owned fields of `fields`, in declaration order, with their
/// values in `rec`; none where `rec` lacks one of them.
pub open spec fn populate(fields: Seq<FieldDescriptor>, rec: Seq<FieldValue>) -> Option<
    Seq<(Seq<char>, ValueView)>,
>
    decreases fields.len(),
{
    if fields.len() == 0 {
        Some(Seq::empty())
    } else {
        match populate(fields.drop_last(), rec) {
            None => None,
            Some(p) => if fields.last().ownership == Ownership::Local {
                match value_of(rec, fields.last().name@) {
                    Some(v) => Some(p.push((fields.last().name@, v))),
                    None => None,
                }
            } else {
                Some(p)
            },
        }
    }
}

/// What one representation resolves to against the registered types and the
/// backing records; none stands for not found.
pub open spec fn resolution(
    types: Seq<EntityType>,
    records: Seq<Record>,
    rep: EntityRepresentation,
) -> Option<EntityView> {
    if !has_type(types, rep.typename@) {
        None
    } else {
        let t = type_named(types, rep.typename@);
        if !key_accepted(t, rep.key@) {
            None
        } else {
            match first_match(records, t, rep.key@) {
                None => None,
                Some(rec) => match populate(t.fields@, rec.fields@) {
                    None => None,
                    Some(p) => Some((t.name@, p)),
                },
            }
        }
    }
}


/// A copy of `v`.
pub fn copy_value(v: &Value) -> (r: Value)
    ensures
        r@ == v@,
{
    match v {
        Value::Id(s) => Value::Id(s.clone()),
        Value::Str(s) => Value::Str(s.clone()),
        Value::Int(n) => Value::Int(*n),
    }
}

/// Whether two values are equal.
pub fn same_value(a: &Value, b: &Value) -> (r: bool)
    ensures
        r == (a@ == b@),
{
    match (a, b) {
        (Value::Id(x), Value::Id(y)) => *x == *y,
        (Value::Str(x), Value::Str(y)) => *x == *y,
        (Value::Int(x), Value::Int(y)) => *x == *y,
        _ => false,
    }
}

/// The value of the first field of `s` named `n`.
pub fn find_value<'a>(s: &'a Vec<FieldValue>, n: &String) -> (r: Option<&'a Value>)
    ensures
        match r {
            Some(v) => value_of(s@, n@) == Some(v@),
            None => value_of(s@, n@) is None,
        },
{
    let mut i: usize = 0;
    assert(s@.subrange(0, s@.len() as int) =~= s@);
    while i < s.len()
        invariant
            i <= s@.len(),
            value_of(s@, n@) == value_of(s@.subrange(i as int, s@.len() as int), n@),
        decreases s@.len() - i,
    {
        let ghost rest = s@.subrange(i as int, s@.len() as int);
        assert(rest[0] == s@[i as int]);
        if s[i].name == *n {
            return Some(&s[i].value);
        }
        assert(rest.drop_first() =~= s@.subrange(i + 1, s@.len() as int));
        i = i + 1;
    }
    None
}

/// The first descriptor of `fields` named `n`.
fn find_descriptor<'a>(fields: &'a Vec<FieldDescriptor>, n: &String) -> (r: Option<
    &'a FieldDescriptor,
>)
    ensures
        match r {
            Some(d) => descriptor_of(fields@, n@) == Some(*d),
            None => descriptor_of(fields@, n@) is None,
        },
{
    let mut i: usize = 0;
    assert(fields@.subrange(0, fields@.len() as int) =~= fields@);
    while i < fields.len()
        invariant
            i <= fields@.len(),
            descriptor_of(fields@, n@) == descriptor_of(
                fields@.subrange(i as int, fields@.len() as int),
                n@,
            ),
        decreases fields@.len() - i,
    {
        let ghost rest = fields@.subrange(i as int, fields@.len() as int);
        assert(rest[0] == fields@[i as int]);
        if fields[i].name == *n {
            return Some(&fields[i]);
        }
        assert(rest.drop_first() =~= fields@.subrange(i + 1, fields@.len() as int));
        i = i + 1;
    }
    None
}

fn is_compatible(rt: &ResultType, v: &Value) -> (r: bool)
    ensures
        r == compatible(*rt, v@),
{
    match (rt, v) {
        (ResultType::Id, Value::Id(_)) => true,
        (ResultType::Str, Value::Str(_)) => true,
        (ResultType::Int, Value::Int(_)) => true,
        _ => false,
    }
}

/// Whether `key` is a complete key of `t` with values of fitting types.
pub fn accepts_key(t: &EntityType, key: &Vec<FieldValue>) -> (r: bool)
    ensures
        r == key_accepted(*t, key@),
{
    if key.len() != t.key_fields.len() {
        return false;
    }
    let mut i: usize = 0;
    while i < key.len()
        invariant
            i <= key@.len(),
            forall|j: int| 0 <= j < i ==> names_contain(t.key_fields@, (#[trigger] key@[j]).name@),
        decreases key@.len() - i,
    {
        if !crate::schema::contains_name(&t.key_fields, &key[i].name) {
            return false;
        }
        i = i + 1;
    }
    let mut k: usize = 0;
    while k < t.key_fields.len()
        invariant
            k <= t.key_fields@.len(),
            forall|j: int|
                0 <= j < k ==> key_field_given(*t, key@, (#[trigger] t.key_fields@[j])@),
        decreases t.key_fields@.len() - k,
    {
        let n = &t.key_fields[k];
        match (find_descriptor(&t.fields, n), find_value(key, n)) {
            (Some(d), Some(v)) => {
                if !is_compatible(&d.result_type, v) {
                    return false;
                }
            },
            _ => {
                return false;
            },
        }
        k = k + 1;
    }
    true
}

/// Whether `rec` is a record of type `t` with the key values of `key`.
fn matches_record(rec: &Record, t: &EntityType, key: &Vec<FieldValue>) -> (r: bool)
    ensures
        r == record_matches(*rec, *t, key@),
{
    if rec.typename != t.name {
        return false;
    }
    let mut k: usize = 0;
    while k < t.key_fields.len()
        invariant
            k <= t.key_fields@.len(),
            rec.typename@ == t.name@,
            forall|j: int|
                0 <= j < k ==> value_of(rec.fields@, (#[trigger] t.key_fields@[j])@) == value_of(
                    key@,
                    t.key_fields@[j]@,
                ),
        decreases t.key_fields@.len() - k,
    {
        let n = &t.key_fields[k];
        let same = match (find_value(&rec.fields, n), find_value(key, n)) {
            (Some(a), Some(b)) => same_value(a, b),
            (None, None) => true,
            _ => false,
        };
        if !same {
            return false;
        }
        k = k + 1;
    }
    true
}

impl Catalog {
    /// The first record that matches type `t` and `key`.
    pub fn find_record(&self, t: &EntityType, key: &Vec<FieldValue>) -> (r: Option<&Record>)
        ensures
            match r {
                Some(rec) => first_match(self.records@, *t, key@) == Some(*rec),
                None => first_match(self.records@, *t, key@) is None,
            },
    {
        let mut i: usize = 0;
        assert(self.records@.subrange(0, self.records@.len() as int) =~= self.records@);
        while i < self.records.len()
            invariant
                i <= self.records@.len(),
                first_match(self.records@, *t, key@) == first_match(
                    self.records@.subrange(i as int, self.records@.len() as int),
                    *t,
                    key@,
                ),
            decreases self.records@.len() - i,
        {
            let ghost rest = self.records@.subrange(i as int, self.records@.len() as int);
            assert(rest[0] == self.records@[i as int]);
            if matches_record(&self.records[i], t, key) {
                return Some(&self.records[i]);
            }
            assert(rest.drop_first() =~= self.records@.subrange(
                i + 1,
                self.records@.len() as int,
            ));
            i = i + 1;
        }
        None
    }
}

/// The owned fields of `fields` with their values in `rec`, in declaration
/// order; none where `rec` lacks one of them.
pub fn populate_fields(fields: &Vec<FieldDescriptor>, rec: &Vec<FieldValue>) -> (r: Option<
    Vec<FieldValue>,
>)
    ensures
        match r {
            Some(v) => populate(fields@, rec@) == Some(field_views(v@)),
            None => populate(fields@, rec@) is None,
        },
{
    let mut out: Vec<FieldValue> = Vec::new();
    let mut i: usize = 0;
    while i < fields.len()
        invariant
            i <= fields@.len(),
            populate(fields@.take(i as int), rec@) == Some(field_views(out@)),
        decreases fields@.len() - i,
    {
        let ghost before = out@;
        assert(fields@.take(i + 1).drop_last() =~= fields@.take(i as int));
        assert(fields@.take(i + 1).last() == fields@[i as int]);
        if fields[i].ownership == Ownership::Local {
            match find_value(rec, &fields[i].name) {
                Some(v) => {
                    out.push(FieldValue { name: fields[i].name.clone(), value: copy_value(v) });
                    assert(field_views(out@) =~= field_views(before).push(
                        (fields@[i as int].name@, v@),
                    ));
                },
                None => {
                    assert(populate(fields@.take(i + 1), rec@) is None);
                    assert(fields@.take(i + 1) =~= fields@.subrange(0, i + 1));
                    proof {
                        lemma_populate_none_extends(fields@, rec@, i + 1);
                        assert(fields@.take(fields@.len() as int) =~= fields@);
                    }
                    return None;
                },
            }
        }
        i = i + 1;
    }
    assert(fields@.take(i as int) =~= fields@);
    Some(out)
}

/// Once a prefix of the fields cannot be populated, no longer one can.
proof fn lemma_populate_none_extends(fields: Seq<FieldDescriptor>, rec: Seq<FieldValue>, i: int)
    requires
        0 <= i <= fields.len(),
        populate(fields.take(i), rec) is None,
    ensures
        populate(fields.take(fields.len() as int), rec) is None,
    decreases fields.len() - i,
{
    if i < fields.len() {
        assert(fields.take(i + 1).drop_last() =~= fields.take(i));
        lemma_populate_none_extends(fields, rec, i + 1);
    }
}

/// Why a representation did not resolve. At the protocol boundary each of
/// these is reported as not found.
#[derive(Debug, Clone, Copy, PartialEq, Eq, Structural)]
pub enum ResolveError {
    /// The type name is not registered.
    UnknownType,
    /// The key misses a key field, names another field, or holds a value of
    /// the wrong type.
    IncompleteKey,
    /// No record has that key, or the record lacks an owned field.
    NotFound,
}

/// Resolves one representation, saying why it did not resolve where it did
/// not.
pub fn resolve_checked(reg: &TypeRegistry, catalog: &Catalog, rep: &EntityRepresentation) -> (r:
    Result<Entity, ResolveError>)
    requires
        reg.wf(),
    ensures
        !has_type(reg.types(), rep.typename@) <==> r == Err::<Entity, ResolveError>(
            ResolveError::UnknownType,
        ),
        has_type(reg.types(), rep.typename@) && !key_accepted(
            type_named(reg.types(), rep.typename@),
            rep.key@,
        ) <==> r == Err::<Entity, ResolveError>(ResolveError::IncompleteKey),
        r is Ok <==> resolution(reg.types(), catalog.records@, *rep) is Some,
        match r {
            Ok(e) => resolution(reg.types(), catalog.records@, *rep) == Some(
                (e.typename@, field_views(e.fields@)),
            ),
            Err(_) => resolution(reg.types(), catalog.records@, *rep) is None,
        },
{
    let t = match reg.describe(&rep.typename) {
        Ok(t) => t,
        Err(_) => {
            return Err(ResolveError::UnknownType);
        },
    };
    if !accepts_key(t, &rep.key) {
        return Err(ResolveError::IncompleteKey);
    }
    let rec = match catalog.find_record(t, &rep.key) {
        Some(rec) => rec,
        None => {
            return Err(ResolveError::NotFound);
        },
    };
    match populate_fields(&t.fields, &rec.fields) {
        Some(fields) => Ok(Entity { typename: t.name.clone(), fields }),
        None => Err(ResolveError::NotFound),
    }
}

/// Resolves one representation: the owned fields of the entity it names, or
/// not found.
pub fn resolve_one(reg: &TypeRegistry, catalog: &Catalog, rep: &EntityRepresentation) -> (r:
    ResolvedEntity)
    requires
        reg.wf(),
    ensures
        r@ == resolution(reg.types(), catalog.records@, *rep),
{
    match resolve_checked(reg, catalog, rep) {
        Ok(e) => ResolvedEntity::Found(e),
        Err(_) => ResolvedEntity::NotFound,
    }
}

/// What a batch of representations resolves to, position by position.
pub open spec fn batch_resolution(
    types: Seq<EntityType>,
    records: Seq<Record>,
    reps: Seq<EntityRepresentation>,
) -> Seq<Option<EntityView>> {
    reps.map_values(|rep: EntityRepresentation| resolution(types, records, rep))
}

/// Resolves each representation of a batch on its own: the result has one
/// entry per representation, at the same position.
pub fn resolve_batch(reg: &TypeRegistry, catalog: &Catalog, reps: &Vec<EntityRepresentation>) -> (r:
    Vec<ResolvedEntity>)
    requires
        reg.wf(),
    ensures
        r@.len() == reps@.len(),
        forall|i: int|
            0 <= i < reps@.len() ==> (#[trigger] r@[i])@ == resolution(
                reg.types(),
                catalog.records@,
                reps@[i],
            ),
        r@.map_values(|e: ResolvedEntity| e@) == batch_resolution(
            reg.types(),
            catalog.records@,
            reps@,
        ),
{
    let mut out: Vec<ResolvedEntity> = Vec::new();
    let mut i: usize = 0;
    while i < reps.len()
        invariant
            reg.wf(),
            i <= reps@.len(),
            out@.len() == i,
            forall|j: int|
                0 <= j < i ==> (#[trigger] out@[j])@ == resolution(
                    reg.types(),
                    catalog.records@,
                    reps@[j],
                ),
        decreases reps@.len() - i,
    {
        out.push(resolve_one(reg, catalog, &reps[i]));
        i = i + 1;
    }
    assert(out@.map_values(|e: ResolvedEntity| e@) =~= batch_resolution(
        reg.types(),
        catalog.records@,
        reps@,
    ));
    out
}


/// Each position of a batch's result is the resolution of the representation
/// at that position, and an entity found there has the type that was asked for.
pub proof fn lemma_batch_aligned(
    types: Seq<EntityType>,
    records: Seq<Record>,
    reps: Seq<EntityRepresentation>,
    i: int,
)
    requires
        0 <= i < reps.len(),
    ensures
        batch_resolution(types, records, reps).len() == reps.len(),
        batch_resolution(types, records, reps)[i] == resolution(types, records, reps[i]),
        batch_resolution(types, records, reps)[i] is Some ==> batch_resolution(
            types,
            records,
            reps,
        )[i]->Some_0.0 == reps[i].typename@,
{
}

/// A representation whose type is unknown resolves to not found, and what
/// stands at that position does not change the result at any other one.
pub proof fn lemma_unknown_type_not_found(
    types: Seq<EntityType>,
    records: Seq<Record>,
    reps: Seq<EntityRepresentation>,
    i: int,
    other: EntityRepresentation,
)
    requires
        0 <= i < reps.len(),
        !has_type(types, reps[i].typename@),
    ensures
        batch_resolution(types, records, reps)[i] is None,
        forall|j: int|
            0 <= j < reps.len() && j != i ==> #[trigger] batch_resolution(types, records, reps)[j]
                == batch_resolution(types, records, reps.update(i, other))[j],
{
}

/// The names of a populated field list are the owned names, in order.
proof fn lemma_populate_names(fields: Seq<FieldDescriptor>, rec: Seq<FieldValue>)
    requires
        populate(fields, rec) is Some,
    ensures
        populate(fields, rec)->Some_0.map_values(|p: (Seq<char>, ValueView)| p.0) == names_with(
            fields,
            Ownership::Local,
        ),
    decreases fields.len(),
{
    if fields.len() > 0 {
        lemma_populate_names(fields.drop_last(), rec);
        let p = populate(fields.drop_last(), rec)->Some_0;
        if fields.last().ownership == Ownership::Local {
            let v = value_of(rec, fields.last().name@)->Some_0;
            assert(p.push((fields.last().name@, v)).map_values(|q: (Seq<char>, ValueView)| q.0)
                =~= p.map_values(|q: (Seq<char>, ValueView)| q.0).push(fields.last().name@));
        }
    }
}

/// A name among the fields of ownership `o` belongs to a field of that
/// ownership.
proof fn lemma_names_with_member(fields: Seq<FieldDescriptor>, o: Ownership, n: Seq<char>)
    requires
        names_with(fields, o).contains(n),
    ensures
        exists|i: int| 0 <= i < fields.len() && (#[trigger] fields[i]).name@ == n && fields[i].ownership == o,
    decreases fields.len(),
{
    if fields.len() > 0 {
        let rest = names_with(fields.drop_last(), o);
        if rest.contains(n) {
            lemma_names_with_member(fields.drop_last(), o, n);
            let i = choose|i: int|
                0 <= i < fields.drop_last().len() && (#[trigger] fields.drop_last()[i]).name@ == n
                    && fields.drop_last()[i].ownership == o;
            assert(fields[i] == fields.drop_last()[i]);
        } else {
            assert(fields[fields.len() - 1] == fields.last());
        }
    }
}

/// An entity found for a known type holds exactly the fields that this
/// service owns, in declaration order, and none that another service owns.
pub proof fn lemma_found_holds_owned_fields_only(
    reg: TypeRegistry,
    records: Seq<Record>,
    rep: EntityRepresentation,
)
    requires
        reg.wf(),
        resolution(reg.types(), records, rep) is Some,
    ensures
        ({
            let names = resolution(reg.types(), records, rep)->Some_0.1.map_values(
                |p: (Seq<char>, ValueView)| p.0,
            );
            let t = type_named(reg.types(), rep.typename@);
            &&& names == t.owned_names()
            &&& forall|n: Seq<char>| #[trigger]
                t.external_names().contains(n) ==> !names.contains(n)
        }),
{
    let t = type_named(reg.types(), rep.typename@);
    let idx = choose|i: int| 0 <= i < reg.types().len() && (#[trigger] reg.types()[i]).name@ == rep.typename@;
    assert(reg.types()[idx].wf());
    let rec = first_match(records, t, rep.key@)->Some_0;
    lemma_populate_names(t.fields@, rec.fields@);
    assert forall|n: Seq<char>| #[trigger] t.external_names().contains(n) implies !t.owned_names().contains(n) by {
        if t.owned_names().contains(n) {
            lemma_names_with_member(t.fields@, Ownership::Local, n);
            lemma_names_with_member(t.fields@, Ownership::External, n);
            let a = choose|i: int| 0 <= i < t.fields@.len() && (#[trigger] t.fields@[i]).name@ == n && t.fields@[i].ownership == Ownership::Local;
            let b = choose|i: int| 0 <= i < t.fields@.len() && (#[trigger] t.fields@[i]).name@ == n && t.fields@[i].ownership == Ownership::External;
            let names = crate::schema::field_names(t.fields@);
            assert(names[a] == t.fields@[a].name);
            assert(names[b] == t.fields@[b].name);
        }
    }
}

/// Field views that agree give the same value for every name.
proof fn lemma_value_of_views(a: Seq<FieldValue>, b: Seq<FieldValue>, n: Seq<char>)
    requires
        field_views(a) == field_views(b),
    ensures
        value_of(a, n) == value_of(b, n),
    decreases a.len(),
{
    assert(field_views(a).len() == a.len() && field_views(b).len() == b.len());
    if a.len() > 0 {
        assert(field_views(a)[0] == field_views(b)[0]);
        assert(field_views(a.drop_first()) =~= field_views(a).drop_first());
        assert(field_views(b.drop_first()) =~= field_views(b).drop_first());
        lemma_value_of_views(a.drop_first(), b.drop_first(), n);
    }
}

proof fn lemma_first_match_views(
    records: Seq<Record>,
    t: EntityType,
    a: Seq<FieldValue>,
    b: Seq<FieldValue>,
)
    requires
        field_views(a) == field_views(b),
    ensures
        first_match(records, t, a) == first_match(records, t, b),
    decreases records.len(),
{
    if records.len() > 0 {
        assert forall|k: int| 0 <= k < t.key_fields@.len() implies value_of(a, (#[trigger] t.key_fields@[k])@) == value_of(b, t.key_fields@[k]@) by {
            lemma_value_of_views(a, b, t.key_fields@[k]@);
        }
        assert(record_matches(records[0], t, a) == record_matches(records[0], t, b));
        lemma_first_match_views(records.drop_first(), t, a, b);
    }
}

/// Resolution reads a representation's type name and key values alone: two
/// representations that agree on them resolve to the same field values, so
/// resolving one key twice gives identical results.
pub proof fn lemma_resolution_depends_on_key(
    types: Seq<EntityType>,
    records: Seq<Record>,
    r1: EntityRepresentation,
    r2: EntityRepresentation,
)
    requires
        r1.typename@ == r2.typename@,
        field_views(r1.key@) == field_views(r2.key@),
    ensures
        resolution(types, records, r1) == resolution(types, records, r2),
{
    let a = r1.key@;
    let b = r2.key@;
    assert(field_views(a).len() == a.len() && field_views(b).len() == b.len());
    if has_type(types, r1.typename@) {
        let t = type_named(types, r1.typename@);
        assert forall|i: int| 0 <= i < a.len() implies (#[trigger] a[i]).name@ == b[i].name@ by {
            assert(field_views(a)[i] == field_views(b)[i]);
        }
        assert forall|k: int| 0 <= k < t.key_fields@.len() implies key_field_given(t, a, (#[trigger] t.key_fields@[k])@) == key_field_given(t, b, t.key_fields@[k]@) by {
            lemma_value_of_views(a, b, t.key_fields@[k]@);
        }
        assert(key_accepted(t, a) == key_accepted(t, b));
        lemma_first_match_views(records, t, a, b);
    }
}


/// Whether some entry of `s` is named `n`.
pub open spec fn has_entry(s: Seq<FieldValue>, n: Seq<char>) -> bool {
    exists|i: int| 0 <= i < s.len() && (#[trigger] s[i]).name@ == n
}

/// A name that has a value in `s` names one of its entries.
proof fn lemma_value_of_some(s: Seq<FieldValue>, n: Seq<char>)
    requires
        value_of(s, n) is Some,
    ensures
        has_entry(s, n),
    decreases s.len(),
{
    if s[0].name@ != n {
        lemma_value_of_some(s.drop_first(), n);
        let i = choose|i: int| 0 <= i < s.drop_first().len() && (#[trigger] s.drop_first()[i]).name@ == n;
        assert(s[i + 1] == s.drop_first()[i]);
    }
}

/// A key that resolution accepts names exactly the key fields that the
/// composed schema advertises for its type: as many entries as key fields,
/// each entry a key field, and each key field among the entries.
pub proof fn lemma_accepted_key_names(t: EntityType, key: Seq<FieldValue>)
    requires
        key_accepted(t, key),
    ensures
        key.len() == t.key_fields@.len(),
        forall|i: int| 0 <= i < key.len() ==> names_contain(t.key_fields@, (#[trigger] key[i]).name@),
        forall|k: int| 0 <= k < t.key_fields@.len() ==> has_entry(key, (#[trigger] t.key_fields@[k])@),
{
    assert forall|k: int| 0 <= k < t.key_fields@.len() implies has_entry(key, (#[trigger] t.key_fields@[k])@) by {
        assert(key_field_given(t, key, t.key_fields@[k]@));
        lemma_value_of_some(key, t.key_fields@[k]@);
    }
}

} // verus!
