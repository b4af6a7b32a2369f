//! The library's model of a raw schema document.
//!
//! A document exposes named schema definitions and path/operation entries.
//! Every attribute the resolver reads is held here as a plain value; the
//! ghost mirror types (`SchemaV`, `RefOrV`, ...) give each node a mathematical
//! view that the resolver's contracts are stated over. Collections keep
//! declaration order, which generated output depends on.

use vstd::prelude::*;

verus! {

broadcast use vstd::seq::group_seq_axioms, vstd::std_specs::vec::group_vec_axioms;

/// The primitive `type` keyword of a schema node.
#[derive(Debug, Clone, Copy, PartialEq, Eq, Structural)]
pub enum Type {
    Object,
    String,
    Integer,
    Number,
    Boolean,
    Array,
    Null,
}

/// The `type` keyword: a single type, a list of types (used for the
/// two-element nullable encoding `[T, null]`), or absent/any.
#[derive(Debug, Clone)]
pub enum SchemaType {
    Type(Type),
    Array(Vec<Type>),
    AnyValue,
}

/// Recognized `format` markers on string schemas.
#[derive(Debug, Clone, Copy, PartialEq, Eq, Structural)]
pub enum KnownFormat {
    Int8,
    Int16,
    Int32,
    Int64,
    UInt8,
    UInt16,
    UInt32,
    UInt64,
    Float,
    Double,
    Byte,
    Binary,
    Time,
    Date,
    DateTime,
    Duration,
    Password,
    Uuid,
    Ulid,
    Uri,
    Email,
    Hostname,
    Ipv4,
    Ipv6,
    Regex,
}

impl KnownFormat {
    /// The marker under which this format appears in a document.
    pub fn name(&self) -> (r: &'static str)
        ensures
            r@ == spec_format_name(*self),
    {
        match self {
            KnownFormat::Int8 => "int8",
            KnownFormat::Int16 => "int16",
            KnownFormat::Int32 => "int32",
            KnownFormat::Int64 => "int64",
            KnownFormat::UInt8 => "u-int8",
            KnownFormat::UInt16 => "u-int16",
            KnownFormat::UInt32 => "u-int32",
            KnownFormat::UInt64 => "u-int64",
            KnownFormat::Float => "float",
            KnownFormat::Double => "double",
            KnownFormat::Byte => "byte",
            KnownFormat::Binary => "binary",
            KnownFormat::Time => "time",
            KnownFormat::Date => "date",
            KnownFormat::DateTime => "date-time",
            KnownFormat::Duration => "duration",
            KnownFormat::Password => "password",
            KnownFormat::Uuid => "uuid",
            KnownFormat::Ulid => "ulid",
            KnownFormat::Uri => "uri",
            KnownFormat::Email => "email",
            KnownFormat::Hostname => "hostname",
            KnownFormat::Ipv4 => "ipv4",
            KnownFormat::Ipv6 => "ipv6",
            KnownFormat::Regex => "regex",
        }
    }
}

/// The marker under which a recognized format appears in a document.
pub open spec fn spec_format_name(k: KnownFormat) -> Seq<char> {
    match k {
        KnownFormat::Int8 => "int8"@,
        KnownFormat::Int16 => "int16"@,
        KnownFormat::Int32 => "int32"@,
        KnownFormat::Int64 => "int64"@,
        KnownFormat::UInt8 => "u-int8"@,
        KnownFormat::UInt16 => "u-int16"@,
        KnownFormat::UInt32 => "u-int32"@,
        KnownFormat::UInt64 => "u-int64"@,
        KnownFormat::Float => "float"@,
        KnownFormat::Double => "double"@,
        KnownFormat::Byte => "byte"@,
        KnownFormat::Binary => "binary"@,
        KnownFormat::Time => "time"@,
        KnownFormat::Date => "date"@,
        KnownFormat::DateTime => "date-time"@,
        KnownFormat::Duration => "duration"@,
        KnownFormat::Password => "password"@,
        KnownFormat::Uuid => "uuid"@,
        KnownFormat::Ulid => "ulid"@,
        KnownFormat::Uri => "uri"@,
        KnownFormat::Email => "email"@,
        KnownFormat::Hostname => "hostname"@,
        KnownFormat::Ipv4 => "ipv4"@,
        KnownFormat::Ipv6 => "ipv6"@,
        KnownFormat::Regex => "regex"@,
    }
}

/// A `format` annotation: either a recognized marker or a custom string.
#[derive(Debug, Clone)]
pub enum SchemaFormat {
    KnownFormat(KnownFormat),
    Custom(String),
}

/// One entry of an `enum` list: a string literal, or some other JSON value.
#[derive(Debug, Clone)]
pub enum EnumLiteral {
    Str(String),
    Other,
}

/// A named reference, holding the raw location path whose last segment is
/// the referenced schema name.
#[derive(Debug, Clone)]
pub struct Ref {
    pub loc: String,
}

/// Either a reference or an inline value.
#[derive(Debug)]
pub enum RefOr<T> {
    Ref(Ref),
    T(T),
}

/// An object-or-primitive schema node.
#[derive(Debug)]
pub struct Object {
    pub schema_type: SchemaType,
    pub format: Option<SchemaFormat>,
    pub enum_values: Option<Vec<EnumLiteral>>,
    /// Fields in declaration order.
    pub properties: Vec<(String, RefOr<OaSchema>)>,
    /// Metadata marker: suppressed from type-declaration emission, but still
    /// resolvable as a reference target.
    pub user_defined: bool,
}

/// The `items` keyword of an array schema.
#[derive(Debug)]
pub enum ArrayItems {
    R(Box<RefOr<OaSchema>>),
    False,
}

/// An array schema node.
#[derive(Debug)]
pub struct Array {
    pub schema_type: SchemaType,
    pub items: ArrayItems,
    /// Positional item schemas; non-empty exactly when `items` is `False`.
    pub prefix_items: Vec<OaSchema>,
    pub min_items: Option<usize>,
    pub max_items: Option<usize>,
    pub user_defined: bool,
}

/// A `oneOf` schema node.
#[derive(Debug)]
pub struct OneOf {
    pub items: Vec<RefOr<OaSchema>>,
    pub user_defined: bool,
}

/// An `allOf` schema node.
#[derive(Debug)]
pub struct AllOf {
    pub items: Vec<RefOr<OaSchema>>,
    pub user_defined: bool,
}

/// A raw schema node.
#[derive(Debug)]
pub enum OaSchema {
    Object(Object),
    Array(Array),
    OneOf(OneOf),
    AllOf(AllOf),
    AnyOf,
}

// ------------------------------------------------------------------
// Ghost mirrors.
// ------------------------------------------------------------------

#[verifier::ext_equal]
pub ghost enum SchemaTypeV {
    Type(Type),
    Array(Seq<Type>),
    AnyValue,
}

#[verifier::ext_equal]
pub ghost enum FormatV {
    Known(KnownFormat),
    Custom(Seq<char>),
}

#[verifier::ext_equal]
pub ghost enum LitV {
    Str(Seq<char>),
    Other,
}

#[verifier::ext_equal]
pub ghost enum RefOrV {
    Ref(Seq<char>),
    T(SchemaV),
}

#[verifier::ext_equal]
pub ghost struct ObjectV {
    pub schema_type: SchemaTypeV,
    pub format: Option<FormatV>,
    pub enum_values: Option<Seq<LitV>>,
    pub properties: Seq<(Seq<char>, RefOrV)>,
    pub user_defined: bool,
}

#[verifier::ext_equal]
pub ghost enum ItemsV {
    R(Box<RefOrV>),
    False,
}

#[verifier::ext_equal]
pub ghost struct ArrayV {
    pub schema_type: SchemaTypeV,
    pub items: ItemsV,
    pub prefix_items: Seq<SchemaV>,
    pub min_items: Option<usize>,
    pub max_items: Option<usize>,
    pub user_defined: bool,
}

#[verifier::ext_equal]
pub ghost struct OfV {
    pub items: Seq<RefOrV>,
    pub user_defined: bool,
}

#[verifier::ext_equal]
pub ghost enum SchemaV {
    Object(ObjectV),
    Array(ArrayV),
    OneOf(OfV),
    AllOf(OfV),
    AnyOf,
}

// ------------------------------------------------------------------
// Views.
// ------------------------------------------------------------------

pub open spec fn schema_type_view(t: SchemaType) -> SchemaTypeV {
    match t {
        SchemaType::Type(t) => SchemaTypeV::Type(t),
        SchemaType::Array(ts) => SchemaTypeV::Array(ts@),
        SchemaType::AnyValue => SchemaTypeV::AnyValue,
    }
}

pub open spec fn format_view(f: SchemaFormat) -> FormatV {
    match f {
        SchemaFormat::KnownFormat(k) => FormatV::Known(k),
        SchemaFormat::Custom(s) => FormatV::Custom(s@),
    }
}

pub open spec fn opt_format_view(f: Option<SchemaFormat>) -> Option<FormatV> {
    match f {
        Some(f) => Some(format_view(f)),
        None => None,
    }
}

pub open spec fn lit_view(l: EnumLiteral) -> LitV {
    match l {
        EnumLiteral::Str(s) => LitV::Str(s@),
        EnumLiteral::Other => LitV::Other,
    }
}

pub open spec fn lits_view(ls: Option<Vec<EnumLiteral>>) -> Option<Seq<LitV>> {
    match ls {
        Some(ls) => Some(Seq::new(ls@.len(), |i: int| lit_view(ls@[i]))),
        None => None,
    }
}

pub open spec fn ref_or_view(r: RefOr<OaSchema>) -> RefOrV
    decreases r,
{
    match r {
        RefOr::Ref(rf) => RefOrV::Ref(rf.loc@),
        RefOr::T(s) => RefOrV::T(schema_view(s)),
    }
}

pub open spec fn props_view(ps: Vec<(String, RefOr<OaSchema>)>) -> Seq<(Seq<char>, RefOrV)>
    decreases ps,
{
    Seq::new(
        ps@.len(),
        |i: int|
            if 0 <= i < ps@.len() {
                (ps@[i].0@, ref_or_view(ps@[i].1))
            } else {
                arbitrary()
            },
    )
}

pub open spec fn items_list_view(items: Vec<RefOr<OaSchema>>) -> Seq<RefOrV>
    decreases items,
{
    Seq::new(
        items@.len(),
        |i: int| if 0 <= i < items@.len() { ref_or_view(items@[i]) } else { arbitrary() },
    )
}

pub open spec fn schemas_list_view(items: Vec<OaSchema>) -> Seq<SchemaV>
    decreases items,
{
    Seq::new(
        items@.len(),
        |i: int| if 0 <= i < items@.len() { schema_view(items@[i]) } else { arbitrary() },
    )
}

pub open spec fn array_items_view(items: ArrayItems) -> ItemsV
    decreases items,
{
    match items {
        ArrayItems::R(r) => ItemsV::R(Box::new(ref_or_view(*r))),
        ArrayItems::False => ItemsV::False,
    }
}

pub open spec fn schema_view(s: OaSchema) -> SchemaV
    decreases s,
{
    match s {
        OaSchema::Object(o) => SchemaV::Object(
            ObjectV {
                schema_type: schema_type_view(o.schema_type),
                format: opt_format_view(o.format),
                enum_values: lits_view(o.enum_values),
                properties: props_view(o.properties),
                user_defined: o.user_defined,
            },
        ),
        OaSchema::Array(a) => SchemaV::Array(
            ArrayV {
                schema_type: schema_type_view(a.schema_type),
                items: array_items_view(a.items),
                prefix_items: schemas_list_view(a.prefix_items),
                min_items: a.min_items,
                max_items: a.max_items,
                user_defined: a.user_defined,
            },
        ),
        OaSchema::OneOf(o) => SchemaV::OneOf(
            OfV { items: items_list_view(o.items), user_defined: o.user_defined },
        ),
        OaSchema::AllOf(o) => SchemaV::AllOf(
            OfV { items: items_list_view(o.items), user_defined: o.user_defined },
        ),
        OaSchema::AnyOf => SchemaV::AnyOf,
    }
}

impl View for OaSchema {
    type V = SchemaV;

    open spec fn view(&self) -> SchemaV {
        schema_view(*self)
    }
}

impl View for RefOr<OaSchema> {
    type V = RefOrV;

    open spec fn view(&self) -> RefOrV {
        ref_or_view(*self)
    }
}

impl SchemaV {
    pub open spec fn spec_user_defined(self) -> bool {
        match self {
            SchemaV::Object(o) => o.user_defined,
            SchemaV::Array(a) => a.user_defined,
            SchemaV::OneOf(o) => o.user_defined,
            SchemaV::AllOf(o) => o.user_defined,
            SchemaV::AnyOf => false,
        }
    }
}

impl OaSchema {
    /// The "do not generate" metadata marker.
    pub fn is_user_defined(&self) -> (r: bool)
        ensures
            r == self@.spec_user_defined(),
    {
        match self {
            OaSchema::Object(o) => o.user_defined,
            OaSchema::Array(a) => a.user_defined,
            OaSchema::OneOf(o) => o.user_defined,
            OaSchema::AllOf(o) => o.user_defined,
            OaSchema::AnyOf => false,
        }
    }
}

} // verus!
