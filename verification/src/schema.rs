//! Schema catalog: object types, scalar fields, links, cardinality and the
//! implicit `id` field.
//!
//! A [`SchemaCatalog`] can only be built through [`SchemaCatalog::try_new`],
//! which enforces the catalog invariants: type names are unique, field names
//! are unique within an object type, `id` is never declared explicitly, link
//! targets exist, and built-in scalar type names are not used as object type
//! names. These invariants are the catalog's type invariant, so every later
//! compiler stage can rely on them.
//!
//! References are deterministic: an object type's id is its position in
//! definition order plus one, and a field's id is its position among the
//! implicit fields followed by the declared fields, plus one.
use vstd::prelude::*;
use crate::text::{owned, str_equal};

verus! {

/// Built-in scalar types.
#[derive(Debug, Clone, Copy, PartialEq, Eq, Structural)]
pub enum ScalarType {
    Str,
    Int64,
    Float64,
    Bool,
    Uuid,
    DateTime,
}

/// Cardinality of a field or of a resolved value.
#[derive(Debug, Clone, Copy, PartialEq, Eq, Structural)]
pub enum Cardinality {
    Optional,
    Required,
    Many,
}

/// Cardinality of a scalar field, where `multi` is impossible.
#[derive(Debug, Clone, Copy, PartialEq, Eq, Structural)]
pub enum SingleCardinality {
    Optional,
    Required,
}

/// Uniqueness constraint of a field.
#[derive(Debug, Clone, Copy, PartialEq, Eq, Structural)]
pub enum Uniqueness {
    NotUnique,
    Unique,
}

/// A scalar field stored as a value on the owning object.
#[derive(Debug, PartialEq, Eq)]
pub struct ScalarField {
    pub(crate) name: String,
    pub(crate) scalar_type: ScalarType,
    pub(crate) cardinality: SingleCardinality,
    pub(crate) uniqueness: Uniqueness,
    pub(crate) is_implicit: bool,
}

/// A declared link from one object type to another, by target type name.
#[derive(Debug, PartialEq, Eq)]
pub struct LinkField {
    pub(crate) name: String,
    pub(crate) target_type_name: String,
    pub(crate) cardinality: Cardinality,
    pub(crate) uniqueness: Uniqueness,
}

/// A field of an object type.
#[derive(Debug, PartialEq, Eq)]
pub enum Field {
    Scalar(ScalarField),
    Link(LinkField),
}

/// An object type with its declared fields and the implicit `id` field.
#[derive(Debug, PartialEq, Eq)]
pub struct ObjectType {
    pub(crate) name: String,
    pub(crate) declared_fields: Vec<Field>,
    pub(crate) implicit_fields: Vec<Field>,
}

/// Deterministic object type identifier within a catalog.
#[derive(Debug, Clone, Copy, PartialEq, Eq, Hash, Structural)]
pub struct ObjectTypeId(pub(crate) u64);

/// Deterministic field identifier within the owning object type.
#[derive(Debug, Clone, Copy, PartialEq, Eq, Hash, Structural)]
pub struct FieldId(pub(crate) u64);

/// Resolved reference to an object type.
#[derive(Debug, PartialEq, Eq, Hash)]
pub struct ObjectTypeRef {
    pub(crate) id: ObjectTypeId,
    pub(crate) name: String,
}

/// Resolved reference to a field of a specific object type.
#[derive(Debug, PartialEq, Eq, Hash)]
pub struct FieldRef {
    pub(crate) id: FieldId,
    pub(crate) owner_object_type: ObjectTypeRef,
    pub(crate) name: String,
}

/// Validated schema catalog.
#[derive(Debug, PartialEq, Eq)]
pub struct SchemaCatalog {
    pub(crate) object_types: Vec<ObjectType>,
}

/// Errors reported while validating a catalog.
#[derive(Debug, Clone, PartialEq, Eq)]
pub enum SchemaError {
    DuplicateTypeName { name: String },
    DuplicateFieldName { object_type: String, field_name: String },
    ExplicitIdFieldDeclaration { object_type: String },
    UnknownLinkTarget { object_type: String, field_name: String, target_type: String },
    ReservedScalarTypeNameAsObjectTypeName { name: String },
}

/// Mathematical value of an object type reference.
pub ghost struct ObjectTypeRefView {
    pub id: u64,
    pub name: Seq<char>,
}

/// Mathematical value of a field reference.
pub ghost struct FieldRefView {
    pub id: u64,
    pub owner: ObjectTypeRefView,
    pub name: Seq<char>,
}

impl View for ObjectTypeRef {
    type V = ObjectTypeRefView;

    open(crate) spec fn view(&self) -> ObjectTypeRefView {
        ObjectTypeRefView { id: self.id.0, name: self.name@ }
    }
}

impl View for FieldRef {
    type V = FieldRefView;

    open(crate) spec fn view(&self) -> FieldRefView {
        FieldRefView { id: self.id.0, owner: self.owner_object_type@, name: self.name@ }
    }
}

// ---------------------------------------------------------------------------
// Specification helpers
// ---------------------------------------------------------------------------
/// Index of the first element of `s` that satisfies `p`.
pub open(crate) spec fn first_index<T>(s: Seq<T>, p: spec_fn(T) -> bool) -> Option<int> {
    if exists|i: int| is_first_index(s, p, i) {
        Some(choose|i: int| is_first_index(s, p, i))
    } else {
        None
    }
}

pub open(crate) spec fn is_first_index<T>(s: Seq<T>, p: spec_fn(T) -> bool, i: int) -> bool {
    &&& 0 <= i < s.len()
    &&& p(s[i])
    &&& forall|j: int| 0 <= j < i ==> !p(#[trigger] s[j])
}

pub proof fn lemma_first_index_found<T>(s: Seq<T>, p: spec_fn(T) -> bool, i: int)
    requires
        is_first_index(s, p, i),
    ensures
        first_index(s, p) == Some(i),
{
    let k = choose|k: int| is_first_index(s, p, k);
    if k < i {
        assert(!p(s[k]));
    } else if i < k {
        assert(!p(s[i]));
    }
}

pub proof fn lemma_first_index_absent<T>(s: Seq<T>, p: spec_fn(T) -> bool)
    requires
        forall|j: int| 0 <= j < s.len() ==> !p(#[trigger] s[j]),
    ensures
        first_index(s, p) is None,
{
}

/// The name of the implicit identity field.
pub open(crate) spec fn id_name() -> Seq<char> {
    "id"@
}

/// Names reserved for built-in scalar types.
pub open(crate) spec fn is_builtin_scalar_name(name: Seq<char>) -> bool {
    ||| name == "str"@
    ||| name == "int64"@
    ||| name == "float64"@
    ||| name == "bool"@
    ||| name == "uuid"@
    ||| name == "datetime"@
}

impl ScalarType {
    /// Schema-language spelling of the scalar type.
    pub open(crate) spec fn spec_name(self) -> Seq<char> {
        match self {
            ScalarType::Str => "str"@,
            ScalarType::Int64 => "int64"@,
            ScalarType::Float64 => "float64"@,
            ScalarType::Bool => "bool"@,
            ScalarType::Uuid => "uuid"@,
            ScalarType::DateTime => "datetime"@,
        }
    }
}

impl Field {
    pub open(crate) spec fn name_view(self) -> Seq<char> {
        match self {
            Field::Scalar(s) => s.name@,
            Field::Link(l) => l.name@,
        }
    }

    pub open(crate) spec fn spec_cardinality(self) -> Cardinality {
        match self {
            Field::Scalar(s) => match s.cardinality {
                SingleCardinality::Optional => Cardinality::Optional,
                SingleCardinality::Required => Cardinality::Required,
            },
            Field::Link(l) => l.cardinality,
        }
    }

    /// `self` is the catalog-injected `id` field.
    pub open(crate) spec fn is_implicit_id(self) -> bool {
        match self {
            Field::Scalar(s) => {
                &&& s.name@ == id_name()
                &&& s.scalar_type == ScalarType::Uuid
                &&& s.cardinality == SingleCardinality::Required
                &&& s.uniqueness == Uniqueness::NotUnique
                &&& s.is_implicit
            },
            Field::Link(_) => false,
        }
    }

    pub open(crate) spec fn is_declared_scalar(self) -> bool {
        match self {
            Field::Scalar(s) => !s.is_implicit,
            Field::Link(_) => true,
        }
    }
}

/// A name predicate for fields.
pub open(crate) spec fn field_named(name: Seq<char>) -> spec_fn(Field) -> bool {
    |f: Field| f.name_view() == name
}

/// A name predicate for object types.
pub open(crate) spec fn type_named(name: Seq<char>) -> spec_fn(ObjectType) -> bool {
    |t: ObjectType| t.name@ == name
}

impl ObjectType {
    /// The implicit fields are exactly the `id` field.
    #[verifier::type_invariant]
    pub open(crate) spec fn implicit_wf(self) -> bool {
        &&& self.implicit_fields@.len() == 1
        &&& self.implicit_fields@[0].is_implicit_id()
        &&& self.declared_fields@.len() < usize::MAX
    }

    /// All fields visible by lookup: implicit fields, then declared fields.
    pub open(crate) spec fn all_fields(self) -> Seq<Field> {
        self.implicit_fields@ + self.declared_fields@
    }

    /// Position of the field named `name` among all fields.
    pub open(crate) spec fn field_index(self, name: Seq<char>) -> Option<int> {
        first_index(self.all_fields(), field_named(name))
    }

    /// Position of the declared field named `name`.
    pub open(crate) spec fn declared_index(self, name: Seq<char>) -> Option<int> {
        first_index(self.declared_fields@, field_named(name))
    }
}

/// No two object types share a name.
pub open(crate) spec fn unique_type_names(types: Seq<ObjectType>) -> bool {
    forall|i: int, j: int|
        0 <= i < types.len() && 0 <= j < types.len() && i != j ==> #[trigger] types[i].name@
            != #[trigger] types[j].name@
}

/// Type `i` repeats the name of an earlier type.
pub open(crate) spec fn repeats_type_name(types: Seq<ObjectType>, i: int) -> bool {
    exists|j: int| 0 <= j < i && #[trigger] types[j].name@ == types[i].name@
}

/// Declared field `f` of `t` repeats the name of an earlier declared field.
pub open(crate) spec fn repeats_field_name(t: ObjectType, f: int) -> bool {
    exists|g: int| 0 <= g < f && #[trigger] t.declared_fields@[g].name_view() == t.declared_fields@[f].name_view()
}

/// No two declared fields of `t` share a name.
pub open(crate) spec fn unique_field_names_of(t: ObjectType) -> bool {
    forall|a: int, b: int|
        0 <= a < t.declared_fields@.len() && 0 <= b < t.declared_fields@.len() && a != b
            ==> #[trigger] t.declared_fields@[a].name_view() != #[trigger] t.declared_fields@[b].name_view()
}

pub open(crate) spec fn unique_field_names(types: Seq<ObjectType>) -> bool {
    forall|t: int| 0 <= t < types.len() ==> unique_field_names_of(#[trigger] types[t])
}

/// Declared field `f` of `t` is named `id`.
pub open(crate) spec fn declares_id_at(t: ObjectType, f: int) -> bool {
    0 <= f < t.declared_fields@.len() && t.declared_fields@[f].name_view() == id_name()
}

pub open(crate) spec fn no_declared_id_in(t: ObjectType) -> bool {
    forall|f: int| 0 <= f < t.declared_fields@.len() ==> !declares_id_at(t, f)
}

pub open(crate) spec fn no_explicit_id(types: Seq<ObjectType>) -> bool {
    forall|t: int| 0 <= t < types.len() ==> no_declared_id_in(#[trigger] types[t])
}

/// Some type in `types` is named `name`.
pub open(crate) spec fn has_type_named(types: Seq<ObjectType>, name: Seq<char>) -> bool {
    exists|k: int| 0 <= k < types.len() && #[trigger] types[k].name@ == name
}

/// Declared field `f` of `t` is a link whose target is not in `types`.
pub open(crate) spec fn unknown_target_at(types: Seq<ObjectType>, t: ObjectType, f: int) -> bool {
    &&& 0 <= f < t.declared_fields@.len()
    &&& t.declared_fields@[f] matches Field::Link(l)
    &&& !has_type_named(types, l.target_type_name@)
}

pub open(crate) spec fn known_targets_in(types: Seq<ObjectType>, t: ObjectType) -> bool {
    forall|f: int| 0 <= f < t.declared_fields@.len() ==> !unknown_target_at(types, t, f)
}

pub open(crate) spec fn known_link_targets(types: Seq<ObjectType>) -> bool {
    forall|t: int| 0 <= t < types.len() ==> known_targets_in(types, #[trigger] types[t])
}

pub open(crate) spec fn no_reserved_type_names(types: Seq<ObjectType>) -> bool {
    forall|t: int| 0 <= t < types.len() ==> !is_builtin_scalar_name(#[trigger] types[t].name@)
}

/// All catalog invariants.
pub open(crate) spec fn valid_catalog(types: Seq<ObjectType>) -> bool {
    &&& unique_type_names(types)
    &&& unique_field_names(types)
    &&& no_explicit_id(types)
    &&& known_link_targets(types)
    &&& no_reserved_type_names(types)
}

/// `e` reports the first type that repeats an earlier type's name.
pub open(crate) spec fn duplicate_type_error(types: Seq<ObjectType>, e: SchemaError) -> bool {
    exists|i: int|
        #![trigger types[i]]
        0 <= i < types.len() && repeats_type_name(types, i) && (forall|k: int|
            0 <= k < i ==> !repeats_type_name(types, k)) && (e matches SchemaError::DuplicateTypeName {
            name,
        } && name@ == types[i].name@)
}

/// `e` reports the first declared field (by type, then field order) that
/// repeats a field name of its type.
pub open(crate) spec fn duplicate_field_error(types: Seq<ObjectType>, e: SchemaError) -> bool {
    exists|t: int, f: int|
        #![trigger types[t].declared_fields@[f]]
        0 <= t < types.len() && 0 <= f < types[t].declared_fields@.len() && repeats_field_name(
            types[t],
            f,
        ) && (forall|u: int| 0 <= u < t ==> unique_field_names_of(#[trigger] types[u])) && (forall|
            g: int,
        |
            0 <= g < f ==> !repeats_field_name(types[t], g)) && (e matches SchemaError::DuplicateFieldName {
            object_type,
            field_name,
        } && object_type@ == types[t].name@ && field_name@ == types[t].declared_fields@[f].name_view())
}

/// `e` reports the first explicit declaration of `id`.
pub open(crate) spec fn explicit_id_error(types: Seq<ObjectType>, e: SchemaError) -> bool {
    exists|t: int, f: int|
        #![trigger types[t].declared_fields@[f]]
        0 <= t < types.len() && declares_id_at(types[t], f) && (forall|u: int|
            0 <= u < t ==> no_declared_id_in(#[trigger] types[u])) && (forall|g: int|
            0 <= g < f ==> !declares_id_at(types[t], g)) && (e matches SchemaError::ExplicitIdFieldDeclaration {
            object_type,
        } && object_type@ == types[t].name@)
}

/// `e` reports the first link whose target type does not exist.
pub open(crate) spec fn unknown_target_error(types: Seq<ObjectType>, e: SchemaError) -> bool {
    exists|t: int, f: int|
        #![trigger types[t].declared_fields@[f]]
        0 <= t < types.len() && unknown_target_at(types, types[t], f) && (forall|u: int|
            0 <= u < t ==> known_targets_in(types, #[trigger] types[u])) && (forall|g: int|
            0 <= g < f ==> !unknown_target_at(types, types[t], g)) && (e matches SchemaError::UnknownLinkTarget {
            object_type,
            field_name,
            target_type,
        } && object_type@ == types[t].name@ && field_name@ == types[t].declared_fields@[f].name_view()
            && (types[t].declared_fields@[f] matches Field::Link(l) && target_type@
            == l.target_type_name@))
}

/// `e` reports the first object type named like a built-in scalar type.
pub open(crate) spec fn reserved_name_error(types: Seq<ObjectType>, e: SchemaError) -> bool {
    exists|t: int|
        #![trigger types[t]]
        0 <= t < types.len() && is_builtin_scalar_name(types[t].name@) && (forall|u: int|
            0 <= u < t ==> !is_builtin_scalar_name(#[trigger] types[u].name@)) && (e matches SchemaError::ReservedScalarTypeNameAsObjectTypeName {
            name,
        } && name@ == types[t].name@)
}

/// The error reported for an invalid list of object types: the checks run in
/// the order type names, field names, explicit `id`, link targets, reserved
/// names, and the first failing check reports its first offender.
pub open(crate) spec fn reported_error(types: Seq<ObjectType>, e: SchemaError) -> bool {
    if !unique_type_names(types) {
        duplicate_type_error(types, e)
    } else if !unique_field_names(types) {
        duplicate_field_error(types, e)
    } else if !no_explicit_id(types) {
        explicit_id_error(types, e)
    } else if !known_link_targets(types) {
        unknown_target_error(types, e)
    } else {
        reserved_name_error(types, e)
    }
}


// ---------------------------------------------------------------------------
// Field accessors used by contracts
// ---------------------------------------------------------------------------
impl ObjectTypeId {
    pub open(crate) spec fn spec_value(self) -> u64 {
        self.0
    }
}

impl FieldId {
    pub open(crate) spec fn spec_value(self) -> u64 {
        self.0
    }
}

impl ScalarField {
    pub open(crate) spec fn spec_name(self) -> Seq<char> {
        self.name@
    }

    pub open(crate) spec fn spec_scalar_type(self) -> ScalarType {
        self.scalar_type
    }

    pub open(crate) spec fn spec_cardinality(self) -> SingleCardinality {
        self.cardinality
    }

    pub open(crate) spec fn spec_uniqueness(self) -> Uniqueness {
        self.uniqueness
    }

    pub open(crate) spec fn spec_is_implicit(self) -> bool {
        self.is_implicit
    }
}

impl LinkField {
    pub open(crate) spec fn spec_name(self) -> Seq<char> {
        self.name@
    }

    pub open(crate) spec fn spec_target(self) -> Seq<char> {
        self.target_type_name@
    }

    pub open(crate) spec fn spec_cardinality(self) -> Cardinality {
        self.cardinality
    }

    pub open(crate) spec fn spec_uniqueness(self) -> Uniqueness {
        self.uniqueness
    }
}

impl ObjectType {
    pub open(crate) spec fn spec_name(self) -> Seq<char> {
        self.name@
    }

    pub open(crate) spec fn spec_declared(self) -> Seq<Field> {
        self.declared_fields@
    }

    pub open(crate) spec fn spec_implicit(self) -> Seq<Field> {
        self.implicit_fields@
    }
}

impl SchemaCatalog {
    pub open(crate) spec fn spec_types(self) -> Seq<ObjectType> {
        self.object_types@
    }
}

// ---------------------------------------------------------------------------
// Identifiers and references
// ---------------------------------------------------------------------------
impl ObjectTypeId {
    pub fn new(value: u64) -> (r: Self)
        ensures
            r.spec_value() == value,
    {
        ObjectTypeId(value)
    }

    pub fn value(self) -> (r: u64)
        ensures
            r == self.spec_value(),
    {
        self.0
    }
}

impl FieldId {
    pub fn new(value: u64) -> (r: Self)
        ensures
            r.spec_value() == value,
    {
        FieldId(value)
    }

    pub fn value(self) -> (r: u64)
        ensures
            r == self.spec_value(),
    {
        self.0
    }
}

impl Clone for ObjectTypeRef {
    fn clone(&self) -> (r: Self)
        ensures
            r == *self,
    {
        ObjectTypeRef { id: self.id, name: self.name.clone() }
    }
}

impl Clone for FieldRef {
    fn clone(&self) -> (r: Self)
        ensures
            r == *self,
    {
        FieldRef {
            id: self.id,
            owner_object_type: self.owner_object_type.clone(),
            name: self.name.clone(),
        }
    }
}

impl ObjectTypeRef {
    pub fn new(id: ObjectTypeId, name: &str) -> (r: Self)
        ensures
            r@ == (ObjectTypeRefView { id: id.spec_value(), name: name@ }),
    {
        ObjectTypeRef { id, name: owned(name) }
    }

    pub fn id(&self) -> (r: ObjectTypeId)
        ensures
            r.spec_value() == self@.id,
    {
        self.id
    }

    pub fn name(&self) -> (r: &str)
        ensures
            r@ == self@.name,
    {
        self.name.as_str()
    }
}

impl FieldRef {
    pub fn new(id: FieldId, owner_object_type: ObjectTypeRef, name: &str) -> (r: Self)
        ensures
            r@ == (FieldRefView { id: id.spec_value(), owner: owner_object_type@, name: name@ }),
    {
        FieldRef { id, owner_object_type, name: owned(name) }
    }

    pub fn id(&self) -> (r: FieldId)
        ensures
            r.spec_value() == self@.id,
    {
        self.id
    }

    pub fn owner_object_type(&self) -> (r: &ObjectTypeRef)
        ensures
            r@ == self@.owner,
    {
        &self.owner_object_type
    }

    pub fn name(&self) -> (r: &str)
        ensures
            r@ == self@.name,
    {
        self.name.as_str()
    }
}

// ---------------------------------------------------------------------------
// Fields and object types
// ---------------------------------------------------------------------------
impl ScalarField {
    /// A declared scalar field that is not unique.
    pub fn new(name: &str, scalar_type: ScalarType, cardinality: SingleCardinality) -> (r: Self)
        ensures
            r.spec_name() == name@,
            r.spec_scalar_type() == scalar_type,
            r.spec_cardinality() == cardinality,
            r.spec_uniqueness() == Uniqueness::NotUnique,
            !r.spec_is_implicit(),
    {
        Self::with_uniqueness(name, scalar_type, cardinality, Uniqueness::NotUnique)
    }

    /// A declared scalar field with the given uniqueness.
    pub fn with_uniqueness(
        name: &str,
        scalar_type: ScalarType,
        cardinality: SingleCardinality,
        uniqueness: Uniqueness,
    ) -> (r: Self)
        ensures
            r.spec_name() == name@,
            r.spec_scalar_type() == scalar_type,
            r.spec_cardinality() == cardinality,
            r.spec_uniqueness() == uniqueness,
            !r.spec_is_implicit(),
    {
        ScalarField { name: owned(name), scalar_type, cardinality, uniqueness, is_implicit: false }
    }

    pub fn name(&self) -> (r: &str)
        ensures
            r@ == self.spec_name(),
    {
        self.name.as_str()
    }

    pub fn scalar_type(&self) -> (r: ScalarType)
        ensures
            r == self.spec_scalar_type(),
    {
        self.scalar_type
    }

    pub fn cardinality(&self) -> (r: SingleCardinality)
        ensures
            r == self.spec_cardinality(),
    {
        self.cardinality
    }

    /// The field is the catalog's implicit `id` field.
    pub fn is_implicit(&self) -> (r: bool)
        ensures
            r == self.spec_is_implicit(),
    {
        self.is_implicit
    }

    pub fn uniqueness(&self) -> (r: Uniqueness)
        ensures
            r == self.spec_uniqueness(),
    {
        self.uniqueness
    }

    pub fn is_unique(&self) -> (r: bool)
        ensures
            r == (self.spec_uniqueness() == Uniqueness::Unique),
    {
        self.uniqueness == Uniqueness::Unique
    }
}

impl LinkField {
    /// A declared link field that is not unique.
    pub fn new(name: &str, target_type_name: &str, cardinality: Cardinality) -> (r: Self)
        ensures
            r.spec_name() == name@,
            r.spec_target() == target_type_name@,
            r.spec_cardinality() == cardinality,
            r.spec_uniqueness() == Uniqueness::NotUnique,
    {
        Self::with_uniqueness(name, target_type_name, cardinality, Uniqueness::NotUnique)
    }

    /// A declared link field with the given uniqueness.
    pub fn with_uniqueness(
        name: &str,
        target_type_name: &str,
        cardinality: Cardinality,
        uniqueness: Uniqueness,
    ) -> (r: Self)
        ensures
            r.spec_name() == name@,
            r.spec_target() == target_type_name@,
            r.spec_cardinality() == cardinality,
            r.spec_uniqueness() == uniqueness,
    {
        LinkField {
            name: owned(name),
            target_type_name: owned(target_type_name),
            cardinality,
            uniqueness,
        }
    }

    pub fn name(&self) -> (r: &str)
        ensures
            r@ == self.spec_name(),
    {
        self.name.as_str()
    }

    pub fn target_type_name(&self) -> (r: &str)
        ensures
            r@ == self.spec_target(),
    {
        self.target_type_name.as_str()
    }

    pub fn cardinality(&self) -> (r: Cardinality)
        ensures
            r == self.spec_cardinality(),
    {
        self.cardinality
    }

    pub fn uniqueness(&self) -> (r: Uniqueness)
        ensures
            r == self.spec_uniqueness(),
    {
        self.uniqueness
    }

    pub fn is_unique(&self) -> (r: bool)
        ensures
            r == (self.spec_uniqueness() == Uniqueness::Unique),
    {
        self.uniqueness == Uniqueness::Unique
    }
}

impl Field {
    pub fn name(&self) -> (r: &str)
        ensures
            r@ == self.name_view(),
    {
        match self {
            Field::Scalar(scalar) => scalar.name.as_str(),
            Field::Link(link) => link.name.as_str(),
        }
    }

    pub fn cardinality(&self) -> (r: Cardinality)
        ensures
            r == self.spec_cardinality(),
    {
        match self {
            Field::Scalar(scalar) => match scalar.cardinality {
                SingleCardinality::Optional => Cardinality::Optional,
                SingleCardinality::Required => Cardinality::Required,
            },
            Field::Link(link) => link.cardinality,
        }
    }

    pub fn is_implicit(&self) -> (r: bool)
        ensures
            r == (self matches Field::Scalar(s) && s.spec_is_implicit()),
    {
        match self {
            Field::Scalar(scalar) => scalar.is_implicit,
            Field::Link(_) => false,
        }
    }

    pub fn is_scalar(&self) -> (r: bool)
        ensures
            r == (self is Scalar),
    {
        match self {
            Field::Scalar(_) => true,
            Field::Link(_) => false,
        }
    }

    pub fn is_link(&self) -> (r: bool)
        ensures
            r == (self is Link),
    {
        match self {
            Field::Scalar(_) => false,
            Field::Link(_) => true,
        }
    }
}

/// Index of the first field of `fields` named `name`.
fn position_of_field(fields: &Vec<Field>, name: &str) -> (r: Option<usize>)
    ensures
        match r {
            Some(i) => is_first_index(fields@, field_named(name@), i as int),
            None => forall|j: int| 0 <= j < fields@.len() ==> !field_named(name@)(#[trigger] fields@[j]),
        },
        r matches Some(i) ==> first_index(fields@, field_named(name@)) == Some(i as int),
        r is None ==> first_index(fields@, field_named(name@)) is None,
{
    let mut i: usize = 0;
    while i < fields.len()
        invariant
            i <= fields.len(),
            forall|j: int| 0 <= j < i ==> !field_named(name@)(#[trigger] fields@[j]),
        decreases fields.len() - i,
    {
        if str_equal(fields[i].name(), name) {
            proof {
                lemma_first_index_found(fields@, field_named(name@), i as int);
            }
            return Some(i);
        }
        i += 1;
    }
    proof {
        lemma_first_index_absent(fields@, field_named(name@));
    }
    None
}

impl Clone for ScalarField {
    fn clone(&self) -> (r: Self)
        ensures
            r == *self,
    {
        ScalarField {
            name: self.name.clone(),
            scalar_type: self.scalar_type,
            cardinality: self.cardinality,
            uniqueness: self.uniqueness,
            is_implicit: self.is_implicit,
        }
    }
}

impl Clone for LinkField {
    fn clone(&self) -> (r: Self)
        ensures
            r == *self,
    {
        LinkField {
            name: self.name.clone(),
            target_type_name: self.target_type_name.clone(),
            cardinality: self.cardinality,
            uniqueness: self.uniqueness,
        }
    }
}

impl Clone for Field {
    fn clone(&self) -> (r: Self)
        ensures
            r == *self,
    {
        match self {
            Field::Scalar(scalar) => Field::Scalar(scalar.clone()),
            Field::Link(link) => Field::Link(link.clone()),
        }
    }
}

impl Clone for ObjectType {
    /// A copy of the object type; the implicit fields are rebuilt, since
    /// they are always the `id` field.
    fn clone(&self) -> (r: Self)
        ensures
            r.spec_name() == self.spec_name(),
            r.spec_declared() == self.spec_declared(),
    {
        proof {
            use_type_invariant(self);
        }
        let mut fields: Vec<Field> = Vec::new();
        let mut i: usize = 0;
        while i < self.declared_fields.len()
            invariant
                i <= self.declared_fields@.len(),
                fields@ == self.declared_fields@.take(i as int),
            decreases self.declared_fields@.len() - i,
        {
            let f = self.declared_fields[i].clone();
            fields.push(f);
            proof {
                assert(fields@ =~= self.declared_fields@.take(i as int + 1));
            }
            i = i + 1;
        }
        proof {
            assert(fields@ =~= self.declared_fields@);
        }
        ObjectType::new(self.name.as_str(), fields)
    }
}

impl ObjectType {
    /// An object type with the given declared fields and the implicit
    /// required `uuid` field `id`.
    pub fn new(name: &str, declared_fields: Vec<Field>) -> (r: Self)
        requires
            declared_fields@.len() < usize::MAX,
        ensures
            r.spec_name() == name@,
            r.spec_declared() == declared_fields@,
            r.implicit_wf(),
    {
        let id = Field::Scalar(
            ScalarField {
                name: owned("id"),
                scalar_type: ScalarType::Uuid,
                cardinality: SingleCardinality::Required,
                uniqueness: Uniqueness::NotUnique,
                is_implicit: true,
            },
        );
        let mut implicit_fields = Vec::new();
        implicit_fields.push(id);
        ObjectType { name: owned(name), declared_fields, implicit_fields }
    }

    /// The first declared field named `name`.
    pub fn find_declared_field(&self, name: &str) -> (r: Option<&Field>)
        ensures
            match self.declared_index(name@) {
                Some(i) => r == Some(&self.spec_declared()[i]),
                None => r is None,
            },
    {
        match position_of_field(&self.declared_fields, name) {
            Some(i) => Some(&self.declared_fields[i]),
            None => None,
        }
    }

    pub fn declared_fields(&self) -> (r: &[Field])
        ensures
            r@ == self.spec_declared(),
    {
        self.declared_fields.as_slice()
    }

    /// The field named `name` among the implicit fields, then the declared
    /// fields.
    pub fn find_field(&self, name: &str) -> (r: Option<&Field>)
        ensures
            match self.field_index(name@) {
                Some(i) => r == Some(&self.all_fields()[i]),
                None => r is None,
            },
    {
        proof {
            use_type_invariant(self);
        }
        let ghost all = self.all_fields();
        let ghost p = field_named(name@);
        match position_of_field(&self.implicit_fields, name) {
            Some(i) => {
                proof {
                    assert(all[i as int] == self.implicit_fields@[i as int]);
                    assert forall|j: int| 0 <= j < i implies !p(#[trigger] all[j]) by {
                        assert(all[j] == self.implicit_fields@[j]);
                    }
                    lemma_first_index_found(all, p, i as int);
                }
                Some(&self.implicit_fields[i])
            },
            None => {
                let n = self.implicit_fields.len();
                match position_of_field(&self.declared_fields, name) {
                    Some(i) => {
                        proof {
                            assert(all[n + i] == self.declared_fields@[i as int]);
                            assert forall|j: int| 0 <= j < n + i implies !p(#[trigger] all[j]) by {
                                if j < n {
                                    assert(all[j] == self.implicit_fields@[j]);
                                } else {
                                    assert(all[j] == self.declared_fields@[j - n]);
                                }
                            }
                            lemma_first_index_found(all, p, n + i);
                        }
                        Some(&self.declared_fields[i])
                    },
                    None => {
                        proof {
                            assert forall|j: int| 0 <= j < all.len() implies !p(#[trigger] all[j]) by {
                                if j < n {
                                    assert(all[j] == self.implicit_fields@[j]);
                                } else {
                                    assert(all[j] == self.declared_fields@[j - n]);
                                }
                            }
                            lemma_first_index_absent(all, p);
                        }
                        None
                    },
                }
            },
        }
    }

    pub fn name(&self) -> (r: &str)
        ensures
            r@ == self.spec_name(),
    {
        self.name.as_str()
    }
}

// ---------------------------------------------------------------------------
// Catalog
// ---------------------------------------------------------------------------
/// `Some` view of a type reference, if present.
pub open spec fn type_ref_view(r: Option<ObjectTypeRef>) -> Option<ObjectTypeRefView> {
    match r {
        Some(t) => Some(t@),
        None => None,
    }
}

/// `Some` view of a field reference, if present.
pub open spec fn field_ref_view(r: Option<FieldRef>) -> Option<FieldRefView> {
    match r {
        Some(f) => Some(f@),
        None => None,
    }
}

/// The reference to the object type at position `i`.
pub open(crate) spec fn type_ref_at(types: Seq<ObjectType>, i: int) -> ObjectTypeRefView {
    ObjectTypeRefView { id: (i + 1) as u64, name: types[i].name@ }
}

impl SchemaCatalog {
    /// Catalog invariant: the validated rules hold and every object type
    /// carries the implicit `id` field.
    #[verifier::type_invariant]
    pub open(crate) spec fn well_formed(self) -> bool {
        &&& valid_catalog(self.object_types@)
        &&& forall|i: int|
            0 <= i < self.object_types@.len() ==> (#[trigger] self.object_types@[i]).implicit_wf()
    }

    /// Position of the object type named `name`.
    pub open(crate) spec fn type_index(self, name: Seq<char>) -> Option<int> {
        first_index(self.object_types@, type_named(name))
    }

    /// The reference that `find_type_ref(name)` returns.
    pub open(crate) spec fn spec_type_ref(self, name: Seq<char>) -> Option<ObjectTypeRefView> {
        match self.type_index(name) {
            Some(i) => Some(type_ref_at(self.object_types@, i)),
            None => None,
        }
    }

    /// The field that `find_field(owner_name, field_name)` returns.
    pub open(crate) spec fn spec_field(self, owner_name: Seq<char>, field_name: Seq<char>) -> Option<
        Field,
    > {
        match self.type_index(owner_name) {
            Some(i) => match self.object_types@[i].field_index(field_name) {
                Some(j) => Some(self.object_types@[i].all_fields()[j]),
                None => None,
            },
            None => None,
        }
    }

    /// The reference that `find_field_ref(owner_name, field_name)` returns.
    pub open(crate) spec fn spec_field_ref(self, owner_name: Seq<char>, field_name: Seq<char>) -> Option<
        FieldRefView,
    > {
        match self.type_index(owner_name) {
            Some(i) => match self.object_types@[i].field_index(field_name) {
                Some(j) => Some(
                    FieldRefView {
                        id: (j + 1) as u64,
                        owner: type_ref_at(self.object_types@, i),
                        name: field_name,
                    },
                ),
                None => None,
            },
            None => None,
        }
    }

    /// Builds a catalog and validates its invariants.
    pub fn try_new(object_types: Vec<ObjectType>) -> (r: Result<Self, SchemaError>)
        ensures
            r is Ok <==> valid_catalog(object_types@),
            r matches Ok(c) ==> c.spec_types() == object_types@,
            r matches Err(e) ==> reported_error(object_types@, e),
    {
        Self::validate_unique_type_names(&object_types)?;
        Self::validate_unique_field_names_within_type(&object_types)?;
        Self::validate_no_explicit_id_field_declaration(&object_types)?;
        Self::validate_no_unknown_link_target(&object_types)?;
        Self::validate_no_reserved_scalar_type_name_as_object_type_name(&object_types)?;
        Ok(SchemaCatalog { object_types })
    }

    fn validate_unique_type_names(object_types: &Vec<ObjectType>) -> (r: Result<(), SchemaError>)
        ensures
            r is Ok <==> unique_type_names(object_types@),
            r is Ok ==> forall|i: int|
                0 <= i < object_types@.len() ==> (#[trigger] object_types@[i]).implicit_wf(),
            r matches Err(e) ==> duplicate_type_error(object_types@, e),
    {
        let ghost types = object_types@;
        let mut i: usize = 0;
        while i < object_types.len()
            invariant
                i <= object_types.len(),
                types == object_types@,
                forall|k: int| 0 <= k < i ==> !repeats_type_name(types, k),
                forall|k: int| 0 <= k < i ==> (#[trigger] types[k]).implicit_wf(),
            decreases object_types.len() - i,
        {
            let current = &object_types[i];
            proof {
                use_type_invariant(current);
            }
            let mut j: usize = 0;
            while j < i
                invariant
                    j <= i < object_types.len(),
                    types == object_types@,
                    *current == types[i as int],
                    forall|k: int| 0 <= k < i ==> !repeats_type_name(types, k),
                    forall|m: int| 0 <= m < j ==> #[trigger] types[m].name@ != types[i as int].name@,
                decreases i - j,
            {
                if str_equal(object_types[j].name.as_str(), current.name.as_str()) {
                    let e = SchemaError::DuplicateTypeName { name: current.name.clone() };
                    proof {
                        assert(repeats_type_name(types, i as int));
                        assert(types[j as int].name@ == types[i as int].name@);
                        assert(!unique_type_names(types));
                        let ii = i as int;
                        assert(0 <= ii < types.len() && repeats_type_name(types, ii) && (forall|k: int|
                            0 <= k < ii ==> !repeats_type_name(types, k)));
                        assert(duplicate_type_error(types, e));
                    }
                    return Err(e);
                }
                j += 1;
            }
            i += 1;
        }
        proof {
            assert forall|a: int, b: int|
                0 <= a < types.len() && 0 <= b < types.len() && a != b implies #[trigger] types[a].name@
                != #[trigger] types[b].name@ by {
                if a < b {
                    assert(!repeats_type_name(types, b));
                } else {
                    assert(!repeats_type_name(types, a));
                }
            }
        }
        Ok(())
    }

    fn validate_unique_field_names_within_type(object_types: &Vec<ObjectType>) -> (r: Result<
        (),
        SchemaError,
    >)
        ensures
            r is Ok <==> unique_field_names(object_types@),
            r matches Err(e) ==> duplicate_field_error(object_types@, e),
    {
        let ghost types = object_types@;
        let mut t: usize = 0;
        while t < object_types.len()
            invariant
                t <= object_types.len(),
                types == object_types@,
                forall|u: int| 0 <= u < t ==> unique_field_names_of(#[trigger] types[u]),
            decreases object_types.len() - t,
        {
            let object_type = &object_types[t];
            let fields = &object_type.declared_fields;
            let mut f: usize = 0;
            while f < fields.len()
                invariant
                    t < object_types.len(),
                    f <= fields.len(),
                    types == object_types@,
                    *object_type == types[t as int],
                    *fields == types[t as int].declared_fields,
                    forall|u: int| 0 <= u < t ==> unique_field_names_of(#[trigger] types[u]),
                    forall|h: int| 0 <= h < f ==> !repeats_field_name(types[t as int], h),
                decreases fields.len() - f,
            {
                let mut g: usize = 0;
                while g < f
                    invariant
                        t < object_types.len(),
                        g <= f < fields.len(),
                        types == object_types@,
                        *object_type == types[t as int],
                        *fields == types[t as int].declared_fields,
                        forall|u: int| 0 <= u < t ==> unique_field_names_of(#[trigger] types[u]),
                        forall|h: int| 0 <= h < f ==> !repeats_field_name(types[t as int], h),
                        forall|m: int|
                            0 <= m < g ==> #[trigger] fields@[m].name_view()
                                != fields@[f as int].name_view(),
                    decreases f - g,
                {
                    if str_equal(fields[g].name(), fields[f].name()) {
                        let e = SchemaError::DuplicateFieldName {
                            object_type: object_type.name.clone(),
                            field_name: owned(fields[f].name()),
                        };
                        proof {
                            assert(repeats_field_name(types[t as int], f as int));
                            assert(!unique_field_names_of(types[t as int]));
                            assert(types[t as int].declared_fields@[f as int] == fields@[f as int]);
                        }
                        return Err(e);
                    }
                    g += 1;
                }
                f += 1;
            }
            proof {
                let ot = types[t as int];
                assert forall|a: int, b: int|
                    0 <= a < ot.declared_fields@.len() && 0 <= b < ot.declared_fields@.len() && a
                        != b implies #[trigger] ot.declared_fields@[a].name_view()
                    != #[trigger] ot.declared_fields@[b].name_view() by {
                    if a < b {
                        assert(!repeats_field_name(ot, b));
                    } else {
                        assert(!repeats_field_name(ot, a));
                    }
                }
            }
            t += 1;
        }
        Ok(())
    }

    fn validate_no_explicit_id_field_declaration(object_types: &Vec<ObjectType>) -> (r: Result<
        (),
        SchemaError,
    >)
        ensures
            r is Ok <==> no_explicit_id(object_types@),
            r matches Err(e) ==> explicit_id_error(object_types@, e),
    {
        let ghost types = object_types@;
        let mut t: usize = 0;
        while t < object_types.len()
            invariant
                t <= object_types.len(),
                types == object_types@,
                forall|u: int| 0 <= u < t ==> no_declared_id_in(#[trigger] types[u]),
            decreases object_types.len() - t,
        {
            let object_type = &object_types[t];
            let fields = &object_type.declared_fields;
            let mut f: usize = 0;
            while f < fields.len()
                invariant
                    t < object_types.len(),
                    f <= fields.len(),
                    types == object_types@,
                    *object_type == types[t as int],
                    *fields == types[t as int].declared_fields,
                    forall|u: int| 0 <= u < t ==> no_declared_id_in(#[trigger] types[u]),
                    forall|g: int| 0 <= g < f ==> !declares_id_at(types[t as int], g),
                decreases fields.len() - f,
            {
                if str_equal(fields[f].name(), "id") {
                    let e = SchemaError::ExplicitIdFieldDeclaration {
                        object_type: object_type.name.clone(),
                    };
                    proof {
                        assert(declares_id_at(types[t as int], f as int));
                        assert(types[t as int].declared_fields@[f as int] == fields@[f as int]);
                        assert(!no_declared_id_in(types[t as int]));
                    }
                    return Err(e);
                }
                f += 1;
            }
            t += 1;
        }
        Ok(())
    }

    /// Whether some type in `object_types` is named `name`.
    fn has_type_named_exec(object_types: &Vec<ObjectType>, name: &str) -> (r: bool)
        ensures
            r == has_type_named(object_types@, name@),
    {
        let mut k: usize = 0;
        while k < object_types.len()
            invariant
                k <= object_types.len(),
                forall|m: int| 0 <= m < k ==> #[trigger] object_types@[m].name@ != name@,
            decreases object_types.len() - k,
        {
            if str_equal(object_types[k].name.as_str(), name) {
                return true;
            }
            k += 1;
        }
        false
    }

    fn validate_no_unknown_link_target(object_types: &Vec<ObjectType>) -> (r: Result<
        (),
        SchemaError,
    >)
        ensures
            r is Ok <==> known_link_targets(object_types@),
            r matches Err(e) ==> unknown_target_error(object_types@, e),
    {
        let ghost types = object_types@;
        let mut t: usize = 0;
        while t < object_types.len()
            invariant
                t <= object_types.len(),
                types == object_types@,
                forall|u: int| 0 <= u < t ==> known_targets_in(types, #[trigger] types[u]),
            decreases object_types.len() - t,
        {
            let object_type = &object_types[t];
            let fields = &object_type.declared_fields;
            let mut f: usize = 0;
            while f < fields.len()
                invariant
                    t < object_types.len(),
                    f <= fields.len(),
                    types == object_types@,
                    *object_type == types[t as int],
                    *fields == types[t as int].declared_fields,
                    forall|u: int| 0 <= u < t ==> known_targets_in(types, #[trigger] types[u]),
                    forall|g: int| 0 <= g < f ==> !unknown_target_at(types, types[t as int], g),
                decreases fields.len() - f,
            {
                if let Field::Link(link) = &fields[f] {
                    if !Self::has_type_named_exec(object_types, link.target_type_name.as_str()) {
                        let e = SchemaError::UnknownLinkTarget {
                            object_type: object_type.name.clone(),
                            field_name: link.name.clone(),
                            target_type: link.target_type_name.clone(),
                        };
                        proof {
                            assert(types[t as int].declared_fields@[f as int] == fields@[f as int]);
                            assert(unknown_target_at(types, types[t as int], f as int));
                            assert(!known_targets_in(types, types[t as int]));
                        }
                        return Err(e);
                    }
                }
                f += 1;
            }
            t += 1;
        }
        Ok(())
    }

    /// Whether `name` is reserved for a built-in scalar type.
    fn is_builtin_scalar_type_name(name: &str) -> (r: bool)
        ensures
            r == is_builtin_scalar_name(name@),
    {
        str_equal(name, "str") || str_equal(name, "int64") || str_equal(name, "float64")
            || str_equal(name, "bool") || str_equal(name, "uuid") || str_equal(name, "datetime")
    }

    fn validate_no_reserved_scalar_type_name_as_object_type_name(
        object_types: &Vec<ObjectType>,
    ) -> (r: Result<(), SchemaError>)
        ensures
            r is Ok <==> no_reserved_type_names(object_types@),
            r matches Err(e) ==> reserved_name_error(object_types@, e),
    {
        let ghost types = object_types@;
        let mut t: usize = 0;
        while t < object_types.len()
            invariant
                t <= object_types.len(),
                types == object_types@,
                forall|u: int| 0 <= u < t ==> !is_builtin_scalar_name(#[trigger] types[u].name@),
            decreases object_types.len() - t,
        {
            if Self::is_builtin_scalar_type_name(object_types[t].name.as_str()) {
                let e = SchemaError::ReservedScalarTypeNameAsObjectTypeName {
                    name: object_types[t].name.clone(),
                };
                return Err(e);
            }
            t += 1;
        }
        Ok(())
    }

    /// Position of the type named `name`, found by a scan.
    fn type_position(&self, name: &str) -> (r: Option<usize>)
        ensures
            r matches Some(k) ==> self.type_index(name@) == Some(k as int) && k
                < self.object_types@.len(),
            r is None ==> self.type_index(name@) is None,
    {
        let ghost p = type_named(name@);
        let mut i: usize = 0;
        while i < self.object_types.len()
            invariant
                i <= self.object_types.len(),
                p == type_named(name@),
                forall|j: int| 0 <= j < i ==> !p(#[trigger] self.object_types@[j]),
            decreases self.object_types.len() - i,
        {
            if str_equal(self.object_types[i].name.as_str(), name) {
                proof {
                    lemma_first_index_found(self.object_types@, p, i as int);
                }
                return Some(i);
            }
            i += 1;
        }
        proof {
            lemma_first_index_absent(self.object_types@, p);
        }
        None
    }

    /// The object type named `name`.
    pub fn find_type(&self, name: &str) -> (r: Option<&ObjectType>)
        ensures
            match self.type_index(name@) {
                Some(i) => r == Some(&self.spec_types()[i]),
                None => r is None,
            },
    {
        match self.type_position(name) {
            Some(i) => {
                Some(&self.object_types[i])
            },
            None => None,
        }
    }

    /// The reference to the object type named `name`; its id is the type's
    /// position in definition order plus one.
    pub fn find_type_ref(&self, name: &str) -> (r: Option<ObjectTypeRef>)
        ensures
            type_ref_view(r) == self.spec_type_ref(name@),
    {
        match self.type_position(name) {
            Some(index) => {
                let count = self.object_types.len();
                assert(index < count);
                let object_type = &self.object_types[index];
                Some(ObjectTypeRef::new(ObjectTypeId::new((index + 1) as u64), object_type.name()))
            },
            None => None,
        }
    }

    /// The field `field_name` of the object type `owner_name`.
    pub fn find_field(&self, owner_name: &str, field_name: &str) -> (r: Option<&Field>)
        ensures
            match self.spec_field(owner_name@, field_name@) {
                Some(f) => r == Some(&f),
                None => r is None,
            },
    {
        match self.find_type(owner_name) {
            Some(object_type) => object_type.find_field(field_name),
            None => None,
        }
    }

    /// The reference to field `field_name` of object type `owner_name`; its id
    /// is the field's position among the implicit fields followed by the
    /// declared fields, plus one.
    pub fn find_field_ref(&self, owner_name: &str, field_name: &str) -> (r: Option<FieldRef>)
        ensures
            field_ref_view(r) == self.spec_field_ref(owner_name@, field_name@),
    {
        let object_type_index = self.type_position(owner_name)?;
        let count = self.object_types.len();
        assert(object_type_index < count);
        let object_type = &self.object_types[object_type_index];
        proof {
            use_type_invariant(object_type);
        }
        let n = object_type.implicit_fields.len();
        let ghost all = object_type.all_fields();
        let ghost p = field_named(field_name@);
        let field_index = match position_of_field(&object_type.implicit_fields, field_name) {
            Some(i) => {
                proof {
                    assert(all[i as int] == object_type.implicit_fields@[i as int]);
                    assert forall|j: int| 0 <= j < i implies !p(#[trigger] all[j]) by {
                        assert(all[j] == object_type.implicit_fields@[j]);
                    }
                    lemma_first_index_found(all, p, i as int);
                }
                i
            },
            None => match position_of_field(&object_type.declared_fields, field_name) {
                Some(i) => {
                    proof {
                        assert(all[n + i] == object_type.declared_fields@[i as int]);
                        assert forall|j: int| 0 <= j < n + i implies !p(#[trigger] all[j]) by {
                            if j < n {
                                assert(all[j] == object_type.implicit_fields@[j]);
                            } else {
                                assert(all[j] == object_type.declared_fields@[j - n]);
                            }
                        }
                        lemma_first_index_found(all, p, n + i);
                    }
                    n + i
                },
                None => {
                    proof {
                        assert forall|j: int| 0 <= j < all.len() implies !p(#[trigger] all[j]) by {
                            if j < n {
                                assert(all[j] == object_type.implicit_fields@[j]);
                            } else {
                                assert(all[j] == object_type.declared_fields@[j - n]);
                            }
                        }
                        lemma_first_index_absent(all, p);
                    }
                    return None;
                },
            },
        };
        Some(
            FieldRef::new(
                FieldId::new((field_index + 1) as u64),
                ObjectTypeRef::new(
                    ObjectTypeId::new((object_type_index + 1) as u64),
                    object_type.name(),
                ),
                field_name,
            ),
        )
    }

    /// The object types in definition order.
    pub fn object_types(&self) -> (r: &[ObjectType])
        ensures
            r@ == self.spec_types(),
    {
        self.object_types.as_slice()
    }
}

// ---------------------------------------------------------------------------
// Laws of the catalog
// ---------------------------------------------------------------------------
proof fn lemma_type_index_of_member(c: SchemaCatalog, k: int)
    requires
        c.well_formed(),
        0 <= k < c.spec_types().len(),
    ensures
        c.type_index(c.spec_types()[k].spec_name()) == Some(k),
{
    let types = c.object_types@;
    let p = type_named(types[k].name@);
    assert forall|j: int| 0 <= j < k implies !p(#[trigger] types[j]) by {
        assert(types[j].name@ != types[k].name@);
    }
    lemma_first_index_found(types, p, k);
}

/// Type references are positional: every object type of a catalog is found
/// under its own name, with the id `position + 1`.
pub proof fn law_type_ref_is_positional(c: SchemaCatalog, k: int)
    requires
        c.well_formed(),
        0 <= k < c.spec_types().len(),
    ensures
        c.spec_type_ref(c.spec_types()[k].spec_name()) == Some(
            ObjectTypeRefView { id: (k + 1) as u64, name: c.spec_types()[k].spec_name() },
        ),
{
    lemma_type_index_of_member(c, k);
}

/// Every object type exposes the implicit `id` field: looking up `id` finds
/// the implicit required `uuid` field, and its reference has field id 1.
pub proof fn law_implicit_id_field(c: SchemaCatalog, k: int)
    requires
        c.well_formed(),
        0 <= k < c.spec_types().len(),
    ensures
        c.spec_field(c.spec_types()[k].spec_name(), id_name()) matches Some(f) && f.is_implicit_id(),
        c.spec_field_ref(c.spec_types()[k].spec_name(), id_name()) == Some(
            FieldRefView {
                id: 1,
                owner: ObjectTypeRefView { id: (k + 1) as u64, name: c.spec_types()[k].spec_name() },
                name: id_name(),
            },
        ),
{
    lemma_type_index_of_member(c, k);
    let t = c.object_types@[k];
    assert(t.implicit_wf());
    assert(t.all_fields()[0] == t.implicit_fields@[0]);
    lemma_first_index_found(t.all_fields(), field_named(id_name()), 0);
}

/// Declared fields are numbered after the implicit `id` field: the declared
/// field at position `i` of type `k` has field id `i + 2`, and its owner is
/// the reference of type `k`.
pub proof fn law_declared_field_ids(c: SchemaCatalog, k: int, i: int)
    requires
        c.well_formed(),
        0 <= k < c.spec_types().len(),
        0 <= i < c.spec_types()[k].spec_declared().len(),
    ensures
        c.spec_field_ref(
            c.spec_types()[k].spec_name(),
            c.spec_types()[k].spec_declared()[i].name_view(),
        ) == Some(
            FieldRefView {
                id: (i + 2) as u64,
                owner: ObjectTypeRefView { id: (k + 1) as u64, name: c.spec_types()[k].spec_name() },
                name: c.spec_types()[k].spec_declared()[i].name_view(),
            },
        ),
{
    lemma_type_index_of_member(c, k);
    let types = c.object_types@;
    let t = types[k];
    assert(t.implicit_wf());
    assert(unique_field_names_of(t));
    assert(no_declared_id_in(t));
    let name = t.declared_fields@[i].name_view();
    let all = t.all_fields();
    let p = field_named(name);
    assert(all[i + 1] == t.declared_fields@[i]);
    assert(!declares_id_at(t, i));
    assert forall|j: int| 0 <= j < i + 1 implies !p(#[trigger] all[j]) by {
        if j == 0 {
            assert(all[0] == t.implicit_fields@[0]);
        } else {
            assert(all[j] == t.declared_fields@[j - 1]);
            assert(t.declared_fields@[j - 1].name_view() != t.declared_fields@[i].name_view());
        }
    }
    lemma_first_index_found(all, p, i + 1);
}

/// Every link target of a catalog resolves to an object type reference.
pub proof fn law_link_targets_resolve(c: SchemaCatalog, k: int, i: int, l: LinkField)
    requires
        c.well_formed(),
        0 <= k < c.spec_types().len(),
        0 <= i < c.spec_types()[k].spec_declared().len(),
        c.spec_types()[k].spec_declared()[i] == Field::Link(l),
    ensures
        c.spec_type_ref(l.spec_target()) is Some,
{
    let types = c.object_types@;
    assert(known_targets_in(types, types[k]));
    assert(!unknown_target_at(types, types[k], i));
    let m = choose|m: int| 0 <= m < types.len() && #[trigger] types[m].name@ == l.target_type_name@;
    lemma_type_index_of_member(c, m);
}

/// Field lookup and field reference lookup agree: a field is found exactly
/// when its reference is found, and the reference carries the looked-up name.
pub proof fn law_field_lookup_agrees(c: SchemaCatalog, owner: Seq<char>, name: Seq<char>)
    ensures
        c.spec_field(owner, name) is Some <==> c.spec_field_ref(owner, name) is Some,
        c.spec_field_ref(owner, name) matches Some(r) ==> r.name == name,
        c.spec_field(owner, name) matches Some(f) ==> f.name_view() == name,
{
    if let Some(i) = c.type_index(owner) {
        let t = c.object_types@[i];
        if let Some(j) = t.field_index(name) {
            let p = field_named(name);
            assert(is_first_index(t.all_fields(), p, j));
        }
    }
}

/// References to fields of different object types differ, even when the
/// fields share a name.
pub proof fn law_field_refs_distinguish_owners(c: SchemaCatalog, k1: int, k2: int, name: Seq<char>)
    requires
        c.well_formed(),
        0 <= k1 < c.spec_types().len(),
        0 <= k2 < c.spec_types().len(),
        k1 != k2,
        c.spec_field_ref(c.spec_types()[k1].spec_name(), name) is Some,
        c.spec_field_ref(c.spec_types()[k2].spec_name(), name) is Some,
    ensures
        c.spec_field_ref(c.spec_types()[k1].spec_name(), name) != c.spec_field_ref(
            c.spec_types()[k2].spec_name(),
            name,
        ),
{
    lemma_type_index_of_member(c, k1);
    lemma_type_index_of_member(c, k2);
}

} // verus!
