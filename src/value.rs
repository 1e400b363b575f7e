//! The settings model: TOML values as the build logic reads them.

use vstd::prelude::*;

use crate::text::str_eq;

verus! {

/// The kinds of TOML values.
#[derive(Clone, Copy, Debug, PartialEq, Eq, Structural)]
pub enum TomlValueType {
    String,
    Integer,
    Float,
    Boolean,
    Time,
    Date,
    DateTime,
    OffsetDateTime,
    Array,
    Table,
}

/// A TOML value. Numbers other than integers, and dates and times, are kept
/// by kind only: the build logic never reads them.
#[derive(Debug)]
pub enum TomlValue {
    String(String),
    Integer(i64),
    Float,
    Boolean(bool),
    Time,
    Date,
    DateTime,
    OffsetDateTime,
    Array(Vec<TomlValue>),
    Table(TomlTable),
}

/// A TOML table: key/value entries in the order they were declared.
#[derive(Debug)]
pub struct TomlTable {
    pub entries: Vec<(String, TomlValue)>,
}

/// The kind of a value.
pub open spec fn type_of(v: TomlValue) -> TomlValueType {
    match v {
        TomlValue::String(_) => TomlValueType::String,
        TomlValue::Integer(_) => TomlValueType::Integer,
        TomlValue::Float => TomlValueType::Float,
        TomlValue::Boolean(_) => TomlValueType::Boolean,
        TomlValue::Time => TomlValueType::Time,
        TomlValue::Date => TomlValueType::Date,
        TomlValue::DateTime => TomlValueType::DateTime,
        TomlValue::OffsetDateTime => TomlValueType::OffsetDateTime,
        TomlValue::Array(_) => TomlValueType::Array,
        TomlValue::Table(_) => TomlValueType::Table,
    }
}

/// The value of the first entry whose key is `key`.
pub open spec fn lookup(entries: Seq<(String, TomlValue)>, key: Seq<char>) -> Option<TomlValue>
    decreases entries.len(),
{
    if entries.len() == 0 {
        None
    } else if entries[0].0@ == key {
        Some(entries[0].1)
    } else {
        lookup(entries.drop_first(), key)
    }
}

impl TomlValue {
    /// The kind of this value.
    pub fn ty(&self) -> (r: TomlValueType)
        ensures
            r == type_of(*self),
    {
        match self {
            TomlValue::String(_) => TomlValueType::String,
            TomlValue::Integer(_) => TomlValueType::Integer,
            TomlValue::Float => TomlValueType::Float,
            TomlValue::Boolean(_) => TomlValueType::Boolean,
            TomlValue::Time => TomlValueType::Time,
            TomlValue::Date => TomlValueType::Date,
            TomlValue::DateTime => TomlValueType::DateTime,
            TomlValue::OffsetDateTime => TomlValueType::OffsetDateTime,
            TomlValue::Array(_) => TomlValueType::Array,
            TomlValue::Table(_) => TomlValueType::Table,
        }
    }

    /// The value as a string, if it is one.
    pub fn as_string(&self) -> (r: Option<&str>)
        ensures
            r is Some <==> self is String,
            r is Some ==> r->0@ == self->String_0@,
    {
        match self {
            TomlValue::String(s) => Some(s.as_str()),
            _ => None,
        }
    }

    /// The value as a table, if it is one.
    pub fn as_table(&self) -> (r: Option<&TomlTable>)
        ensures
            r is Some <==> self is Table,
            r is Some ==> *r->0 == self->Table_0,
    {
        match self {
            TomlValue::Table(t) => Some(t),
            _ => None,
        }
    }
}

impl TomlTable {
    /// An empty table.
    pub fn new() -> (r: TomlTable)
        ensures
            r.entries@.len() == 0,
    {
        TomlTable { entries: Vec::new() }
    }

    /// Adds an entry after the others.
    pub fn push(&mut self, key: &str, value: TomlValue)
        ensures
            final(self).entries@.len() == old(self).entries@.len() + 1,
            final(self).entries@.subrange(0, old(self).entries@.len() as int) == old(self).entries@,
            final(self).entries@.last().0@ == key@,
            final(self).entries@.last().1 == value,
    {
        let ghost before = self.entries@;
        self.entries.push((key.to_string(), value));
        assert(self.entries@.subrange(0, before.len() as int) =~= before);
    }

    /// The number of entries.
    pub fn len(&self) -> (r: usize)
        ensures
            r == self.entries@.len(),
    {
        self.entries.len()
    }

    /// Looks a key up.
    pub fn get(&self, key: &str) -> (r: Option<&TomlValue>)
        ensures
            r is Some <==> lookup(self.entries@, key@) is Some,
            r is Some ==> *r->0 == lookup(self.entries@, key@)->0,
    {
        let mut i: usize = 0;
        assert(self.entries@.subrange(0, self.entries@.len() as int) =~= self.entries@);
        while i < self.entries.len()
            invariant
                i <= self.entries@.len(),
                lookup(self.entries@, key@) == lookup(self.entries@.subrange(i as int, self.entries@.len() as int), key@),
            decreases self.entries@.len() - i,
        {
            let ghost rest = self.entries@.subrange(i as int, self.entries@.len() as int);
            assert(rest.drop_first() =~= self.entries@.subrange(i + 1, self.entries@.len() as int));
            if str_eq(self.entries[i].0.as_str(), key) {
                return Some(&self.entries[i].1);
            }
            i = i + 1;
        }
        None
    }
}

} // verus!
