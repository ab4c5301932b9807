//! The type registry: entity types, their key fields and the ownership of
//! each field.
use vstd::prelude::*;

verus! {

/// The result type of a field: a scalar, or a reference to one entity type
/// or to a sequence of them.
#[derive(Debug, Clone, PartialEq, Eq)]
pub enum ResultType {
    Id,
    Str,
    Int,
    Entity(String),
    EntityList(String),
}

/// Who resolves a field: this service, or another one.
#[derive(Debug, Clone, Copy, PartialEq, Eq, Structural)]
pub enum Ownership {
    Local,
    External,
}

#[derive(Debug, Clone, PartialEq, Eq)]
pub struct FieldDescriptor {
    pub name: String,
    pub result_type: ResultType,
    pub ownership: Ownership,
}

#[derive(Debug, Clone, PartialEq, Eq)]
pub struct EntityType {
    pub name: String,
    pub key_fields: Vec<String>,
    pub fields: Vec<FieldDescriptor>,
}

#[derive(Debug, Clone, Copy, PartialEq, Eq, Structural)]
pub enum RegistryError {
    /// A type of that name is already registered.
    DuplicateType,
    /// No type of that name is registered.
    UnknownType,
    /// The type breaks its own invariant (repeated field or key names, or a
    /// key field that is not declared).
    InvalidType,
}

/// Whether some string of `names` equals `n`.
pub open spec fn names_contain(names: Seq<String>, n: Seq<char>) -> bool {
    exists|j: int| 0 <= j < names.len() && (#[trigger] names[j])@ == n
}

pub open spec fn names_distinct(names: Seq<String>) -> bool {
    forall|i: int, j: int|
        0 <= i < names.len() && 0 <= j < names.len() && i != j ==> (#[trigger] names[i])@ != (
        #[trigger] names[j])@
}

pub open spec fn field_names(fields: Seq<FieldDescriptor>) -> Seq<String> {
    fields.map_values(|f: FieldDescriptor| f.name)
}

/// The names of the fields with the given ownership, in declaration order.
pub open spec fn names_with(fields: Seq<FieldDescriptor>, o: Ownership) -> Seq<Seq<char>>
    decreases fields.len(),
{
    if fields.len() == 0 {
        Seq::empty()
    } else {
        let rest = names_with(fields.drop_last(), o);
        if fields.last().ownership == o {
            rest.push(fields.last().name@)
        } else {
            rest
        }
    }
}

impl FieldDescriptor {
    /// A field descriptor named by a literal.
    pub fn new(name: &str, result_type: ResultType, ownership: Ownership) -> (r: FieldDescriptor)
        ensures
            r.name@ == name@,
            r.result_type == result_type,
            r.ownership == ownership,
    {
        FieldDescriptor { name: String::from_str(name), result_type, ownership }
    }
}

impl EntityType {
    /// Field names are distinct (so no field is both owned and external), key
    /// field names are distinct, and each key field is a declared field.
    pub open spec fn wf(&self) -> bool {
        &&& names_distinct(field_names(self.fields@))
        &&& names_distinct(self.key_fields@)
        &&& forall|k: int|
            0 <= k < self.key_fields@.len() ==> names_contain(
                field_names(self.fields@),
                (#[trigger] self.key_fields@[k])@,
            )
    }

    pub open spec fn owned_names(&self) -> Seq<Seq<char>> {
        names_with(self.fields@, Ownership::Local)
    }

    pub open spec fn external_names(&self) -> Seq<Seq<char>> {
        names_with(self.fields@, Ownership::External)
    }
}


/// Whether `names` holds a string equal to `n`.
pub fn contains_name(names: &Vec<String>, n: &String) -> (r: bool)
    ensures
        r == names_contain(names@, n@),
{
    let mut i: usize = 0;
    while i < names.len()
        invariant
            i <= names@.len(),
            forall|j: int| 0 <= j < i ==> (#[trigger] names@[j])@ != n@,
        decreases names@.len() - i,
    {
        if names[i] == *n {
            return true;
        }
        i = i + 1;
    }
    false
}

/// Whether no two strings of `names` are equal.
pub fn all_distinct(names: &Vec<String>) -> (r: bool)
    ensures
        r == names_distinct(names@),
{
    let mut i: usize = 0;
    while i < names.len()
        invariant
            i <= names@.len(),
            forall|a: int, b: int|
                0 <= a < i && 0 <= b < names@.len() && a != b ==> (#[trigger] names@[a])@ != (
                #[trigger] names@[b])@,
        decreases names@.len() - i,
    {
        let mut j: usize = 0;
        while j < names.len()
            invariant
                i < names@.len(),
                j <= names@.len(),
                forall|a: int, b: int|
                    0 <= a < i && 0 <= b < names@.len() && a != b ==> (#[trigger] names@[a])@ != (
                    #[trigger] names@[b])@,
                forall|b: int| 0 <= b < j && b != i ==> (#[trigger] names@[b])@ != names@[i as int]@,
            decreases names@.len() - j,
        {
            if j != i && names[i] == names[j] {
                return false;
            }
            j = j + 1;
        }
        i = i + 1;
    }
    true
}

/// Clones of the names of `fields`, in declaration order.
fn names_of(fields: &Vec<FieldDescriptor>) -> (r: Vec<String>)
    ensures
        r@ == field_names(fields@),
{
    let mut r: Vec<String> = Vec::new();
    let mut i: usize = 0;
    while i < fields.len()
        invariant
            i <= fields@.len(),
            r@ == field_names(fields@.take(i as int)),
        decreases fields@.len() - i,
    {
        r.push(fields[i].name.clone());
        assert(fields@.take(i + 1) =~= fields@.take(i as int).push(fields@[i as int]));
        i = i + 1;
    }
    assert(fields@.take(i as int) =~= fields@);
    r
}

/// Clones of the names of the fields with ownership `o`, in declaration order.
fn names_with_exec(fields: &Vec<FieldDescriptor>, o: Ownership) -> (r: Vec<String>)
    ensures
        r@.map_values(|s: String| s@) == names_with(fields@, o),
{
    let mut r: Vec<String> = Vec::new();
    let mut i: usize = 0;
    while i < fields.len()
        invariant
            i <= fields@.len(),
            r@.map_values(|s: String| s@) == names_with(fields@.take(i as int), o),
        decreases fields@.len() - i,
    {
        assert(fields@.take(i + 1).drop_last() =~= fields@.take(i as int));
        if fields[i].ownership == o {
            r.push(fields[i].name.clone());
        }
        assert(r@.map_values(|s: String| s@) =~= names_with(fields@.take(i + 1), o));
        i = i + 1;
    }
    assert(fields@.take(i as int) =~= fields@);
    r
}

impl EntityType {
    /// Whether the type meets its invariant.
    pub fn is_valid(&self) -> (r: bool)
        ensures
            r == self.wf(),
    {
        let names = names_of(&self.fields);
        if !all_distinct(&names) || !all_distinct(&self.key_fields) {
            return false;
        }
        let mut k: usize = 0;
        while k < self.key_fields.len()
            invariant
                k <= self.key_fields@.len(),
                names@ == field_names(self.fields@),
                forall|j: int|
                    0 <= j < k ==> names_contain(
                        field_names(self.fields@),
                        (#[trigger] self.key_fields@[j])@,
                    ),
            decreases self.key_fields@.len() - k,
        {
            if !contains_name(&names, &self.key_fields[k]) {
                return false;
            }
            k = k + 1;
        }
        true
    }
}

/// The types that one service declares, in registration order.
pub struct TypeRegistry {
    types: Vec<EntityType>,
}

/// Whether some type of `types` is named `n`.
pub open spec fn has_type(types: Seq<EntityType>, n: Seq<char>) -> bool {
    exists|i: int| 0 <= i < types.len() && (#[trigger] types[i]).name@ == n
}

/// The type of `types` named `n`, where there is one.
pub open spec fn type_named(types: Seq<EntityType>, n: Seq<char>) -> EntityType
    recommends
        has_type(types, n),
{
    types[choose|i: int| 0 <= i < types.len() && (#[trigger] types[i]).name@ == n]
}

pub open spec fn type_names_distinct(types: Seq<EntityType>) -> bool {
    forall|i: int, j: int|
        0 <= i < types.len() && 0 <= j < types.len() && i != j ==> (#[trigger] types[i]).name@
            != (#[trigger] types[j]).name@
}

impl TypeRegistry {
    pub closed spec fn types(&self) -> Seq<EntityType> {
        self.types@
    }

    /// Type names are unique and every type meets its invariant.
    pub open spec fn wf(&self) -> bool {
        &&& type_names_distinct(self.types())
        &&& forall|i: int| 0 <= i < self.types().len() ==> (#[trigger] self.types()[i]).wf()
    }

    /// The registered types, in registration order.
    pub fn entity_types(&self) -> (r: &Vec<EntityType>)
        ensures
            r@ == self.types(),
    {
        &self.types
    }

    pub fn new() -> (r: TypeRegistry)
        ensures
            r.wf(),
            r.types() == Seq::<EntityType>::empty(),
    {
        TypeRegistry { types: Vec::new() }
    }

    /// The position of the type named `n`, if any.
    fn position(&self, n: &String) -> (r: Option<usize>)
        ensures
            match r {
                Some(i) => i < self.types().len() && self.types()[i as int].name@ == n@,
                None => !has_type(self.types(), n@),
            },
    {
        let mut i: usize = 0;
        while i < self.types.len()
            invariant
                i <= self.types@.len(),
                forall|j: int| 0 <= j < i ==> (#[trigger] self.types@[j]).name@ != n@,
            decreases self.types@.len() - i,
        {
            if self.types[i].name == *n {
                return Some(i);
            }
            i = i + 1;
        }
        None
    }

    /// Adds a type. Fails where a type of that name is already registered,
    /// or where the type breaks its invariant; the registry is then unchanged.
    pub fn register(&mut self, t: EntityType) -> (r: Result<(), RegistryError>)
        requires
            old(self).wf(),
        ensures
            final(self).wf(),
            has_type(old(self).types(), t.name@) ==> r == Err::<(), RegistryError>(
                RegistryError::DuplicateType,
            ),
            !has_type(old(self).types(), t.name@) && !t.wf() ==> r == Err::<(), RegistryError>(
                RegistryError::InvalidType,
            ),
            r is Ok <==> !has_type(old(self).types(), t.name@) && t.wf(),
            r is Ok ==> final(self).types() == old(self).types().push(t),
            r is Err ==> final(self).types() == old(self).types(),
    {
        if self.position(&t.name).is_some() {
            return Err(RegistryError::DuplicateType);
        }
        if !t.is_valid() {
            return Err(RegistryError::InvalidType);
        }
        self.types.push(t);
        Ok(())
    }

    /// The type named `n`.
    pub fn describe(&self, n: &String) -> (r: Result<&EntityType, RegistryError>)
        requires
            self.wf(),
        ensures
            match r {
                Ok(t) => has_type(self.types(), n@) && *t == type_named(self.types(), n@),
                Err(e) => !has_type(self.types(), n@) && e == RegistryError::UnknownType,
            },
    {
        match self.position(n) {
            Some(i) => Ok(&self.types[i]),
            None => Err(RegistryError::UnknownType),
        }
    }

    /// The names of the fields that this service resolves for type `n`.
    pub fn owned_fields_of(&self, n: &String) -> (r: Result<Vec<String>, RegistryError>)
        requires
            self.wf(),
        ensures
            match r {
                Ok(v) => has_type(self.types(), n@) && v@.map_values(|s: String| s@) == type_named(
                    self.types(),
                    n@,
                ).owned_names(),
                Err(e) => !has_type(self.types(), n@) && e == RegistryError::UnknownType,
            },
    {
        let t = self.describe(n)?;
        Ok(names_with_exec(&t.fields, Ownership::Local))
    }

    /// The names of the fields of type `n` that another service resolves.
    pub fn external_fields_of(&self, n: &String) -> (r: Result<Vec<String>, RegistryError>)
        requires
            self.wf(),
        ensures
            match r {
                Ok(v) => has_type(self.types(), n@) && v@.map_values(|s: String| s@) == type_named(
                    self.types(),
                    n@,
                ).external_names(),
                Err(e) => !has_type(self.types(), n@) && e == RegistryError::UnknownType,
            },
    {
        let t = self.describe(n)?;
        Ok(names_with_exec(&t.fields, Ownership::External))
    }
}


/// The names of one ownership among three fields, spelled out.
pub proof fn lemma_names_with_three(f: Seq<FieldDescriptor>, o: Ownership)
    requires
        f.len() == 3,
    ensures
        names_with(f, o) == (if f[0].ownership == o {
            seq![f[0].name@]
        } else {
            Seq::empty()
        }) + (if f[1].ownership == o {
            seq![f[1].name@]
        } else {
            Seq::empty()
        }) + (if f[2].ownership == o {
            seq![f[2].name@]
        } else {
            Seq::empty()
        }),
{
    reveal_with_fuel(names_with, 4);
    let a = f.drop_last();
    let b = a.drop_last();
    let c = b.drop_last();
    assert(c =~= Seq::<FieldDescriptor>::empty());
    assert(b.last() == f[0]);
    assert(a.last() == f[1]);
    assert(names_with(b, o) =~= (if f[0].ownership == o {
        seq![f[0].name@]
    } else {
        Seq::empty()
    }));
    assert(names_with(f, o) =~= (if f[0].ownership == o {
        seq![f[0].name@]
    } else {
        Seq::empty()
    }) + (if f[1].ownership == o {
        seq![f[1].name@]
    } else {
        Seq::empty()
    }) + (if f[2].ownership == o {
        seq![f[2].name@]
    } else {
        Seq::empty()
    }));
}

/// Registering a valid type under a new name and then describing that name
/// gives back exactly the type that was registered.
pub proof fn lemma_describe_after_register(reg: TypeRegistry, t: EntityType, after: TypeRegistry)
    requires
        reg.wf(),
        t.wf(),
        !has_type(reg.types(), t.name@),
        after.types() == reg.types().push(t),
    ensures
        after.wf(),
        has_type(after.types(), t.name@),
        type_named(after.types(), t.name@) == t,
{
    let n = reg.types().len() as int;
    assert(after.types()[n] == t);
    assert(type_names_distinct(after.types()));
    assert forall|i: int| 0 <= i < after.types().len() implies (#[trigger] after.types()[i]).wf() by {
        if i < n {
            assert(after.types()[i] == reg.types()[i]);
        }
    }
}

} // verus!
