//! The query contract: statement text, deterministic value binding, and the
//! declarative coalescing policy consumed by the external executor.

use vstd::prelude::*;
use vstd::string::StrSliceExecFns;
use vstd::utf8::encode_utf8;
use crate::error::{BuildUpsertQueryError, BuildUpsertQueryErrorV};
use crate::values::{EncodedValue, EncodedValueV, SerializedValues};

verus! {

/// A statically declared query: fixed statement text and a binding of its
/// parameters.
pub trait Query: Sized {
    /// The statement text this query always renders.
    spec fn spec_query() -> Seq<char>;

    /// What binding this query's values produce: the exact ordered transport
    /// parameters, or the exact typed error.
    spec fn spec_bind(&self) -> Result<Seq<(Option<Seq<char>>, EncodedValueV)>, BuildUpsertQueryErrorV>;

    /// The statement text.
    fn query() -> (r: String)
        ensures
            r@ == Self::spec_query(),
    ;

    /// Binds this query's values into transport parameters.
    fn bind(&self) -> (r: Result<SerializedValues, BuildUpsertQueryError>)
        ensures
            (match r {
                Result::Ok(sv) => sv.wf() && self.spec_bind() == Result::<
                    Seq<(Option<Seq<char>>, EncodedValueV)>,
                    BuildUpsertQueryErrorV,
                >::Ok(sv@),
                Result::Err(e) => self.spec_bind() == Result::<
                    Seq<(Option<Seq<char>>, EncodedValueV)>,
                    BuildUpsertQueryErrorV,
                >::Err(e@),
            }),
    ;
}

/// Marker for write queries, so one cannot be handed to a read-query
/// executor.
pub trait WriteQuery: Query {

}

/// Picks the single row a point lookup returns. The executor hands back the
/// decoded rows; an empty result is the distinguished `NoRowsFound` outcome,
/// a typed result rather than an exceptional shortcut.
pub fn single_row<T>(rows: Vec<T>) -> (r: Result<T, crate::error::ScyllaxError>)
    ensures
        (match r {
            Result::Ok(v) => rows@.len() > 0 && v == rows@[0],
            Result::Err(e) => rows@.len() == 0 && e == crate::error::ScyllaxError::NoRowsFound,
        }),
{
    let mut rows = rows;
    if rows.len() == 0 {
        Err(crate::error::ScyllaxError::NoRowsFound)
    } else {
        Ok(rows.remove(0))
    }
}

/// The declarative coalescing contract of a read-style query type: when the
/// flag holds, the external executor must run at most one execution per
/// identity key at a time and share the outcome with every concurrent
/// requester of the same key. This type only declares the flag; it performs
/// no deduplication itself.
#[derive(Debug, PartialEq, Eq, Clone, Copy)]
pub struct CoalescingPolicy {
    /// Whether structurally identical in-flight executions may be merged.
    pub coalesce_eligible: bool,
}

impl Default for CoalescingPolicy {
    /// Read queries are coalesce-eligible unless declared otherwise.
    fn default() -> (r: Self)
        ensures
            r.coalesce_eligible,
    {
        CoalescingPolicy { coalesce_eligible: true }
    }
}

/// The 64-bit offset basis of the hash below.
pub const HASH_BASIS: u64 = 14695981039346656037;

/// The 64-bit multiplier of the hash below.
pub const HASH_PRIME: u64 = 1099511628211;

/// One byte folded into the running hash.
pub open spec fn hash_step(h: u64, b: u8) -> u64 {
    vstd::wrapping::u64_specs::wrapping_mul(h ^ (b as u64), HASH_PRIME)
}

/// A byte sequence folded into the running hash, left to right.
pub open spec fn hash_bytes(h: u64, bytes: Seq<u8>) -> u64
    decreases bytes.len(),
{
    if bytes.len() == 0 {
        h
    } else {
        hash_bytes(hash_step(h, bytes[0]), bytes.drop_first())
    }
}

/// The bytes a parameter name contributes: a presence tag, then the name.
pub open spec fn name_tag_bytes(n: Option<Seq<char>>) -> Seq<u8> {
    match n {
        Option::None => seq![0u8],
        Option::Some(s) => seq![1u8] + encode_utf8(s),
    }
}

/// The bytes a bound value contributes: a variant tag, then any payload.
pub open spec fn value_tag_bytes(v: EncodedValueV) -> Seq<u8> {
    match v {
        EncodedValueV::Unset => seq![0u8],
        EncodedValueV::Null => seq![1u8],
        EncodedValueV::Bytes(b) => seq![2u8] + b,
    }
}

/// The bound entries folded into the running hash, in order.
pub open spec fn hash_entries(h: u64, es: Seq<(Option<Seq<char>>, EncodedValueV)>) -> u64
    decreases es.len(),
{
    if es.len() == 0 {
        h
    } else {
        hash_entries(hash_bytes(hash_bytes(h, name_tag_bytes(es[0].0)), value_tag_bytes(es[0].1)), es.drop_first())
    }
}

/// The identity key of one execution: a content hash of the statement text
/// and the bound parameter values. The external executor coalesces concurrent
/// requests that share this key.
pub open spec fn spec_identity_key(stmt: Seq<char>, es: Seq<(Option<Seq<char>>, EncodedValueV)>) -> u64 {
    hash_entries(hash_bytes(HASH_BASIS, encode_utf8(stmt)), es)
}

proof fn lemma_hash_bytes_cons(h: u64, t: u8, rest: Seq<u8>)
    ensures
        hash_bytes(h, seq![t] + rest) == hash_bytes(hash_bytes(h, seq![t]), rest),
{
    let whole = seq![t] + rest;
    assert(whole[0] == t);
    assert(whole.drop_first() =~= rest);
    assert(seq![t].drop_first() =~= Seq::<u8>::empty());
    assert(hash_bytes(hash_step(h, t), Seq::<u8>::empty()) == hash_step(h, t));
    assert(hash_bytes(h, seq![t]) == hash_step(h, t));
}

/// Folds a byte vector into the running hash.
fn fold_bytes(h: u64, bytes: &Vec<u8>) -> (r: u64)
    ensures
        r == hash_bytes(h, bytes@),
{
    let mut acc = h;
    let mut i: usize = 0;
    proof {
        assert(bytes@.skip(0) =~= bytes@);
    }
    while i < bytes.len()
        invariant
            0 <= i <= bytes@.len(),
            hash_bytes(h, bytes@) == hash_bytes(acc, bytes@.skip(i as int)),
        decreases bytes@.len() - i,
    {
        let ghost before = bytes@.skip(i as int);
        proof {
            assert(before[0] == bytes@[i as int]);
            assert(before.drop_first() =~= bytes@.skip(i + 1));
        }
        acc = (acc ^ (bytes[i] as u64)).wrapping_mul(HASH_PRIME);
        i += 1;
    }
    proof {
        assert(bytes@.skip(bytes@.len() as int) =~= Seq::<u8>::empty());
    }
    acc
}

/// Folds one tag byte into the running hash.
fn fold_tag(h: u64, t: u8) -> (r: u64)
    ensures
        r == hash_bytes(h, seq![t]),
{
    proof {
        assert(seq![t].drop_first() =~= Seq::<u8>::empty());
        assert(hash_bytes(hash_step(h, t), Seq::<u8>::empty()) == hash_step(h, t));
        assert(hash_bytes(h, seq![t]) == hash_step(h, t));
    }
    (h ^ (t as u64)).wrapping_mul(HASH_PRIME)
}

/// Derives the identity key of one execution from its statement text and its
/// bound values.
pub fn identity_key(statement: &str, values: &SerializedValues) -> (r: u64)
    ensures
        r == spec_identity_key(statement@, values@),
{
    let stmt_bytes = statement.as_bytes_vec();
    let mut h = fold_bytes(HASH_BASIS, &stmt_bytes);
    let mut i: usize = 0;
    proof {
        assert(values@.skip(0) =~= values@);
    }
    while i < values.len()
        invariant
            0 <= i <= values@.len(),
            spec_identity_key(statement@, values@) == hash_entries(h, values@.skip(i as int)),
        decreases values@.len() - i,
    {
        let ghost before = values@.skip(i as int);
        proof {
            assert(before[0] == values@[i as int]);
            assert(before.drop_first() =~= values@.skip(i + 1));
        }
        let e = values.entry(i);
        let ghost h0 = h;
        match &e.0 {
            Option::None => {
                h = fold_tag(h, 0);
            },
            Option::Some(name) => {
                h = fold_tag(h, 1);
                let nb = name.as_str().as_bytes_vec();
                h = fold_bytes(h, &nb);
                proof {
                    lemma_hash_bytes_cons(h0, 1u8, encode_utf8(name@));
                }
            },
        }
        proof {
            assert(h == hash_bytes(h0, name_tag_bytes(values@[i as int].0)));
        }
        let ghost hn = h;
        match &e.1 {
            EncodedValue::Unset => {
                h = fold_tag(h, 0);
            },
            EncodedValue::Null => {
                h = fold_tag(h, 1);
            },
            EncodedValue::Bytes(b) => {
                h = fold_tag(h, 2);
                h = fold_bytes(h, b);
                proof {
                    lemma_hash_bytes_cons(hn, 2u8, b@);
                }
            },
        }
        proof {
            assert(h == hash_bytes(hn, value_tag_bytes(values@[i as int].1)));
        }
        i += 1;
    }
    proof {
        assert(values@.skip(values@.len() as int) =~= Seq::<(Option<Seq<char>>, EncodedValueV)>::empty());
    }
    h
}

} // verus!
