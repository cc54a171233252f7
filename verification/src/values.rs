//! The tri-state value model and the transport parameter container.
//!
//! A bound parameter is either an explicit encoded payload, an explicit null
//! (which the store treats as a delete), or the distinct "leave this column's
//! stored value unchanged" marker. Conflating the marker with null would write
//! a tombstone instead of leaving the column untouched.

use vstd::prelude::*;
use vstd::string::StrSliceExecFns;
use vstd::utf8::encode_utf8;
use crate::error::SerializeValuesError;

verus! {

/// The transport can count at most this many values in one statement.
pub const MAX_VALUES: usize = 65535;

/// The transport carries at most this many bytes in one encoded value.
pub const MAX_VALUE_SIZE: usize = 0x7fff_ffff;

/// Per field, per call: either a new value to write, or the intent to leave
/// the stored column completely untouched.
#[derive(Debug, PartialEq, Eq, Clone)]
pub enum TriStateValue<T> {
    /// The caller supplies a new value for the column.
    Assigned(T),
    /// The column's stored value is to remain unchanged (not nulled).
    Unset,
}

/// One transport-ready parameter.
#[derive(Debug, PartialEq, Eq)]
pub enum EncodedValue {
    /// The "leave unchanged" marker, recognized by the store's
    /// prepared-statement protocol. Distinct from `Null`.
    Unset,
    /// An explicit null, which deletes the stored column value.
    Null,
    /// A type-specific encoded payload.
    Bytes(Vec<u8>),
}

/// Mathematical image of [`EncodedValue`].
pub enum EncodedValueV {
    Unset,
    Null,
    Bytes(Seq<u8>),
}

impl View for EncodedValue {
    type V = EncodedValueV;

    open spec fn view(&self) -> EncodedValueV {
        match self {
            EncodedValue::Unset => EncodedValueV::Unset,
            EncodedValue::Null => EncodedValueV::Null,
            EncodedValue::Bytes(b) => EncodedValueV::Bytes(b@),
        }
    }
}

impl Clone for EncodedValue {
    fn clone(&self) -> (r: Self)
        ensures
            r@ == self@,
    {
        match self {
            EncodedValue::Unset => EncodedValue::Unset,
            EncodedValue::Null => EncodedValue::Null,
            EncodedValue::Bytes(b) => EncodedValue::Bytes(b.clone()),
        }
    }
}

/// How many payload bytes a parameter carries; markers carry none.
pub open spec fn encoded_size(v: EncodedValueV) -> int {
    match v {
        EncodedValueV::Bytes(b) => b.len() as int,
        _ => 0,
    }
}

/// The view of one container entry: an optional parameter name and the
/// encoded value.
pub open spec fn entry_view(e: (Option<String>, EncodedValue)) -> (Option<Seq<char>>, EncodedValueV) {
    (
        match e.0 {
            Option::None => Option::<Seq<char>>::None,
            Option::Some(n) => Option::Some(n@),
        },
        e.1@,
    )
}

/// An ordered container of transport-ready parameters, bound either all by
/// name or all positionally, never mixed.
#[derive(Debug, PartialEq, Eq)]
pub struct SerializedValues {
    entries: Vec<(Option<String>, EncodedValue)>,
}

impl View for SerializedValues {
    type V = Seq<(Option<Seq<char>>, EncodedValueV)>;

    closed spec fn view(&self) -> Seq<(Option<Seq<char>>, EncodedValueV)> {
        Seq::new(self.entries@.len(), |i: int| entry_view(self.entries@[i]))
    }
}

impl SerializedValues {
    /// All entries are named, or all are positional.
    pub open spec fn wf(&self) -> bool {
        forall|i: int, j: int|
            0 <= i < self@.len() && 0 <= j < self@.len() ==> (self@[i].0 is Some <==> self@[j].0 is Some)
    }

    /// An empty container.
    pub fn new() -> (r: Self)
        ensures
            r@ == Seq::<(Option<Seq<char>>, EncodedValueV)>::empty(),
            r.wf(),
    {
        let r = SerializedValues { entries: Vec::new() };
        proof {
            assert(r@ =~= Seq::<(Option<Seq<char>>, EncodedValueV)>::empty());
        }
        r
    }

    /// How many values are bound.
    pub fn len(&self) -> (r: usize)
        ensures
            r == self@.len(),
    {
        self.entries.len()
    }

    /// The entry at one position.
    pub fn entry(&self, i: usize) -> (r: &(Option<String>, EncodedValue))
        requires
            i < self@.len(),
        ensures
            entry_view(*r) == self@[i as int],
    {
        &self.entries[i]
    }

    /// Appends one value under a parameter name.
    ///
    /// Fails when the container already holds positional values, when the
    /// transport's value count is exhausted, or when the encoded value is too
    /// big — checked in that order, and the container is left unchanged.
    pub fn add_named_value(&mut self, name: &str, value: EncodedValue) -> (r: Result<(), SerializeValuesError>)
        requires
            old(self).wf(),
        ensures
            final(self).wf(),
            (match r {
                Result::Ok(()) => {
                    &&& !(old(self)@.len() > 0 && old(self)@[0].0 is None)
                    &&& old(self)@.len() < MAX_VALUES
                    &&& encoded_size(value@) <= MAX_VALUE_SIZE
                    &&& final(self)@ == old(self)@.push((Option::Some(name@), value@))
                },
                Result::Err(e) => final(self)@ == old(self)@ && (match e {
                    SerializeValuesError::MixingNamedAndNotNamedValues => old(self)@.len() > 0 && old(
                        self,
                    )@[0].0 is None,
                    SerializeValuesError::TooManyValues => !(old(self)@.len() > 0 && old(self)@[0].0 is None)
                        && old(self)@.len() >= MAX_VALUES,
                    SerializeValuesError::ValueTooBig => !(old(self)@.len() > 0 && old(self)@[0].0 is None)
                        && old(self)@.len() < MAX_VALUES && encoded_size(value@) > MAX_VALUE_SIZE,
                }),
            }),
    {
        if self.entries.len() > 0 && self.entries[0].0.is_none() {
            return Err(SerializeValuesError::MixingNamedAndNotNamedValues);
        }
        if self.entries.len() >= MAX_VALUES {
            return Err(SerializeValuesError::TooManyValues);
        }
        if let EncodedValue::Bytes(b) = &value {
            if b.len() > MAX_VALUE_SIZE {
                return Err(SerializeValuesError::ValueTooBig);
            }
        }
        let ghost pre = self@;
        self.entries.push((Some(name.to_owned()), value));
        proof {
            assert(self@ =~= pre.push((Option::Some(name@), value@)));
        }
        Ok(())
    }

    /// Appends one positional value.
    ///
    /// Fails when the container already holds named values, when the
    /// transport's value count is exhausted, or when the encoded value is too
    /// big — checked in that order, and the container is left unchanged.
    pub fn add_value(&mut self, value: EncodedValue) -> (r: Result<(), SerializeValuesError>)
        requires
            old(self).wf(),
        ensures
            final(self).wf(),
            (match r {
                Result::Ok(()) => {
                    &&& !(old(self)@.len() > 0 && old(self)@[0].0 is Some)
                    &&& old(self)@.len() < MAX_VALUES
                    &&& encoded_size(value@) <= MAX_VALUE_SIZE
                    &&& final(self)@ == old(self)@.push((Option::<Seq<char>>::None, value@))
                },
                Result::Err(e) => final(self)@ == old(self)@ && (match e {
                    SerializeValuesError::MixingNamedAndNotNamedValues => old(self)@.len() > 0 && old(
                        self,
                    )@[0].0 is Some,
                    SerializeValuesError::TooManyValues => !(old(self)@.len() > 0 && old(self)@[0].0 is Some)
                        && old(self)@.len() >= MAX_VALUES,
                    SerializeValuesError::ValueTooBig => !(old(self)@.len() > 0 && old(self)@[0].0 is Some)
                        && old(self)@.len() < MAX_VALUES && encoded_size(value@) > MAX_VALUE_SIZE,
                }),
            }),
    {
        if self.entries.len() > 0 && self.entries[0].0.is_some() {
            return Err(SerializeValuesError::MixingNamedAndNotNamedValues);
        }
        if self.entries.len() >= MAX_VALUES {
            return Err(SerializeValuesError::TooManyValues);
        }
        if let EncodedValue::Bytes(b) = &value {
            if b.len() > MAX_VALUE_SIZE {
                return Err(SerializeValuesError::ValueTooBig);
            }
        }
        let ghost pre = self@;
        self.entries.push((None, value));
        proof {
            assert(self@ =~= pre.push((Option::<Seq<char>>::None, value@)));
        }
        Ok(())
    }
}

/// The big-endian bytes of a 32-bit value.
pub open spec fn be_bytes_u32(x: u32) -> Seq<u8> {
    seq![(x >> 24) as u8, (x >> 16) as u8, (x >> 8) as u8, x as u8]
}

/// The big-endian bytes of a 64-bit value.
pub open spec fn be_bytes_u64(x: u64) -> Seq<u8> {
    seq![
        (x >> 56) as u8,
        (x >> 48) as u8,
        (x >> 40) as u8,
        (x >> 32) as u8,
        (x >> 24) as u8,
        (x >> 16) as u8,
        (x >> 8) as u8,
        x as u8,
    ]
}

/// The big-endian bytes of a 128-bit value.
pub open spec fn be_bytes_u128(x: u128) -> Seq<u8> {
    be_bytes_u64((x >> 64) as u64) + be_bytes_u64(x as u64)
}

/// The transport encoding of a character string: its UTF-8 bytes.
pub open spec fn string_encoding(s: Seq<char>) -> EncodedValueV {
    EncodedValueV::Bytes(encode_utf8(s))
}

/// The transport encoding of a 32-bit signed integer.
pub open spec fn i32_encoding(x: i32) -> EncodedValueV {
    EncodedValueV::Bytes(be_bytes_u32(x as u32))
}

/// The transport encoding of a 64-bit signed integer.
pub open spec fn i64_encoding(x: i64) -> EncodedValueV {
    EncodedValueV::Bytes(be_bytes_u64(x as u64))
}

/// Encodes a character string as its UTF-8 bytes.
pub fn encode_string(s: &str) -> (r: EncodedValue)
    ensures
        r@ == string_encoding(s@),
{
    EncodedValue::Bytes(s.as_bytes_vec())
}

/// Encodes a 32-bit signed integer as four big-endian bytes.
pub fn encode_i32(x: i32) -> (r: EncodedValue)
    ensures
        r@ == i32_encoding(x),
{
    let u = x as u32;
    let r = EncodedValue::Bytes(vec![(u >> 24) as u8, (u >> 16) as u8, (u >> 8) as u8, u as u8]);
    proof {
        assert(r@->Bytes_0 =~= be_bytes_u32(x as u32));
    }
    r
}

/// Encodes a 64-bit signed integer as eight big-endian bytes.
pub fn encode_i64(x: i64) -> (r: EncodedValue)
    ensures
        r@ == i64_encoding(x),
{
    let u = x as u64;
    let r = EncodedValue::Bytes(
        vec![
            (u >> 56) as u8,
            (u >> 48) as u8,
            (u >> 40) as u8,
            (u >> 32) as u8,
            (u >> 24) as u8,
            (u >> 16) as u8,
            (u >> 8) as u8,
            u as u8,
        ],
    );
    proof {
        assert(r@->Bytes_0 =~= be_bytes_u64(x as u64));
    }
    r
}

/// Encodes a 128-bit value as sixteen big-endian bytes.
pub fn encode_u128(x: u128) -> (r: EncodedValue)
    ensures
        r@ == EncodedValueV::Bytes(be_bytes_u128(x)),
{
    let hi = (x >> 64) as u64;
    let lo = x as u64;
    let r = EncodedValue::Bytes(
        vec![
            (hi >> 56) as u8,
            (hi >> 48) as u8,
            (hi >> 40) as u8,
            (hi >> 32) as u8,
            (hi >> 24) as u8,
            (hi >> 16) as u8,
            (hi >> 8) as u8,
            hi as u8,
            (lo >> 56) as u8,
            (lo >> 48) as u8,
            (lo >> 40) as u8,
            (lo >> 32) as u8,
            (lo >> 24) as u8,
            (lo >> 16) as u8,
            (lo >> 8) as u8,
            lo as u8,
        ],
    );
    proof {
        assert(r@->Bytes_0 =~= be_bytes_u128(x));
    }
    r
}

/// The transport encoding of an optional 32-bit integer: an explicit null
/// when absent.
pub open spec fn opt_i32_encoding(x: Option<i32>) -> EncodedValueV {
    match x {
        Option::None => EncodedValueV::Null,
        Option::Some(v) => i32_encoding(v),
    }
}

/// Encodes an optional 32-bit integer, with an explicit null when absent.
pub fn encode_opt_i32(x: &Option<i32>) -> (r: EncodedValue)
    ensures
        r@ == opt_i32_encoding(*x),
{
    match x {
        Option::None => EncodedValue::Null,
        Option::Some(v) => encode_i32(*v),
    }
}

/// The "leave unchanged" marker differs from an explicit null and from every
/// payload: binding `Unset` can never delete or overwrite a stored value.
pub proof fn lemma_unset_marker_distinct(b: Seq<u8>)
    ensures
        EncodedValueV::Unset != EncodedValueV::Null,
        EncodedValueV::Unset != EncodedValueV::Bytes(b),
{
}

} // verus!
