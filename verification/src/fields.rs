//! Field values and field descriptors.
//!
//! A field's value is one of a fixed set of kinds (`FieldValue`), so that a
//! store can hold heterogeneously-typed fields behind one representation and
//! type checks at the access boundary are ordinary, exhaustive matches.  A
//! field descriptor binds a tag number, a symbolic name and an expected value
//! kind; it is the typed key used for lookups.

use vstd::prelude::*;

verus! {

/// The kinds of value a FIX field may hold.
#[derive(Clone, Copy, Debug, PartialEq, Eq, Structural)]
pub enum FieldType {
    Str,
    Int,
    Decimal,
    Timestamp,
    Char,
    Bool,
    Raw,
}

/// One decoded field value: a tagged union over the supported kinds.
///
/// A decimal is a scaled integer (`mantissa * 10^-scale`) and a timestamp a
/// plain tick count, so every kind is an exact, comparable value.
#[derive(Clone, Debug, PartialEq, Eq)]
pub enum FieldValue {
    Str(String),
    Int(i64),
    Decimal { mantissa: i64, scale: u32 },
    Timestamp(u64),
    Char(char),
    Bool(bool),
    Raw(Vec<u8>),
}

/// The kind of a stored value.
pub open spec fn field_type_of(v: FieldValue) -> FieldType {
    match v {
        FieldValue::Str(_) => FieldType::Str,
        FieldValue::Int(_) => FieldType::Int,
        FieldValue::Decimal { .. } => FieldType::Decimal,
        FieldValue::Timestamp(_) => FieldType::Timestamp,
        FieldValue::Char(_) => FieldType::Char,
        FieldValue::Bool(_) => FieldType::Bool,
        FieldValue::Raw(_) => FieldType::Raw,
    }
}

impl FieldValue {
    /// The kind this value belongs to.
    pub fn value_type(&self) -> (t: FieldType)
        ensures
            t == field_type_of(*self),
    {
        match self {
            FieldValue::Str(_) => FieldType::Str,
            FieldValue::Int(_) => FieldType::Int,
            FieldValue::Decimal { .. } => FieldType::Decimal,
            FieldValue::Timestamp(_) => FieldType::Timestamp,
            FieldValue::Char(_) => FieldType::Char,
            FieldValue::Bool(_) => FieldType::Bool,
            FieldValue::Raw(_) => FieldType::Raw,
        }
    }
}

/// Raw wire bytes could not be decoded into the descriptor's value kind.
#[derive(Clone, Copy, Debug, PartialEq, Eq, Structural)]
pub struct DecodeError;

/// A field descriptor: an immutable binding of a tag number, a symbolic
/// name (for diagnostics) and the value kind the field is expected to hold.
pub trait FIXMessageField {
    /// The bound tag number.
    spec fn spec_tag_num(&self) -> u32;

    /// The bound symbolic name.
    spec fn spec_name(&self) -> Seq<char>;

    /// The value kind this descriptor expects.
    spec fn spec_value_type(&self) -> FieldType;

    /// Returns the bound tag number.
    fn get_tag_num(&self) -> (tag: u32)
        ensures
            tag == self.spec_tag_num(),
    ;

    /// Returns the bound symbolic name.
    fn get_name(&self) -> (name: &str)
        ensures
            name@ == self.spec_name(),
    ;

    /// Returns the value kind this descriptor expects.
    fn value_type(&self) -> (t: FieldType)
        ensures
            t == self.spec_value_type(),
    ;

    /// Decodes raw wire bytes into a value of the descriptor's kind.
    /// Whether decoding succeeds is the codec's business; the store only
    /// guarantees that a decoded value is of the expected kind.
    fn get_value(&self, raw: Vec<u8>) -> (r: Result<FieldValue, DecodeError>)
        ensures
            r is Ok ==> field_type_of(r->Ok_0) == self.spec_value_type(),
    ;
}

/// A descriptor for a string-valued field: a tag number and a name.
pub struct StringField(pub u32, pub &'static str);

impl FIXMessageField for StringField {
    open spec fn spec_tag_num(&self) -> u32 {
        self.0
    }

    open spec fn spec_name(&self) -> Seq<char> {
        self.1@
    }

    open spec fn spec_value_type(&self) -> FieldType {
        FieldType::Str
    }

    fn get_tag_num(&self) -> u32 {
        self.0
    }

    fn get_name(&self) -> &str {
        self.1
    }

    fn value_type(&self) -> FieldType {
        FieldType::Str
    }

    /// Byte-level decoding belongs to the wire codec, not to the store;
    /// this descriptor rejects every input.
    fn get_value(&self, raw: Vec<u8>) -> (r: Result<FieldValue, DecodeError>)
        ensures
            r is Err,
    {
        Err(DecodeError)
    }
}

} // verus!
