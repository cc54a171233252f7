//! Entity schema description: ordered fields, primary-key subset, and the
//! identifier-resolution rule shared by statement synthesis.
//!
//! Declared names are lowercase by convention and are used for parameter
//! binding; a rename override preserves case for storage. Storage identifiers
//! are emitted double-quoted, which is meaning-preserving for the
//! already-lowercase declared names (the store folds only unquoted
//! identifiers) and required for renamed, case-sensitive ones.

use vstd::prelude::*;
use vstd::string::StringExecFns;
use crate::error::SchemaError;

verus! {

/// One declared entity field.
#[derive(Debug, PartialEq, Eq, Clone)]
pub struct FieldDescriptor {
    /// The declared name: the identifier used for parameter binding.
    pub name: String,
    /// An optional storage-identifier override, emitted quoted to preserve
    /// case.
    pub rename: Option<String>,
    /// Whether the field belongs to the primary key.
    pub primary_key: bool,
}

/// Mathematical image of [`FieldDescriptor`].
pub struct FieldV {
    pub name: Seq<char>,
    pub rename: Option<Seq<char>>,
    pub primary_key: bool,
}

impl View for FieldDescriptor {
    type V = FieldV;

    open spec fn view(&self) -> FieldV {
        FieldV {
            name: self.name@,
            rename: match self.rename {
                Option::None => Option::<Seq<char>>::None,
                Option::Some(r) => Option::Some(r@),
            },
            primary_key: self.primary_key,
        }
    }
}

/// The storage identifier of a field: the rename override when declared,
/// otherwise the declared name — always emitted inside double quotes.
pub open spec fn spec_storage_identifier(f: FieldV) -> Seq<char> {
    match f.rename {
        Option::Some(r) => "\""@ + r + "\""@,
        Option::None => "\""@ + f.name + "\""@,
    }
}

/// The resolved storage identifiers of all fields, in declaration order.
pub open spec fn spec_keys(fs: Seq<FieldV>) -> Seq<Seq<char>> {
    fs.map_values(|f: FieldV| spec_storage_identifier(f))
}

/// The resolved storage identifiers of the primary-key fields, in declaration
/// order.
pub open spec fn spec_pks(fs: Seq<FieldV>) -> Seq<Seq<char>>
    decreases fs.len(),
{
    if fs.len() == 0 {
        Seq::empty()
    } else {
        spec_pks(fs.drop_last()) + if fs.last().primary_key {
            seq![spec_storage_identifier(fs.last())]
        } else {
            Seq::empty()
        }
    }
}

/// Mathematical image of [`SchemaDescriptor`].
pub struct SchemaV {
    pub table: Seq<char>,
    pub fields: Seq<FieldV>,
}

/// One entity's registration: a table name and its ordered fields. Field
/// order is semantically significant: it fixes binding order everywhere.
/// Built once, immutable afterward.
#[derive(Debug, PartialEq, Eq, Clone)]
pub struct SchemaDescriptor {
    table: String,
    fields: Vec<FieldDescriptor>,
}

impl View for SchemaDescriptor {
    type V = SchemaV;

    closed spec fn view(&self) -> SchemaV {
        SchemaV { table: self.table@, fields: self.fields@.map_values(|f: FieldDescriptor| f@) }
    }
}

impl SchemaDescriptor {
    /// At least one field is flagged primary-key.
    pub open spec fn wf(&self) -> bool {
        exists|i: int| 0 <= i < self@.fields.len() && self@.fields[i].primary_key
    }

    /// Registers one entity. Fails with an explicit, reportable error when no
    /// field is flagged primary-key.
    pub fn new(table: String, fields: Vec<FieldDescriptor>) -> (r: Result<SchemaDescriptor, SchemaError>)
        ensures
            (match r {
                Result::Ok(s) => {
                    &&& s@.table == table@
                    &&& s@.fields == fields@.map_values(|f: FieldDescriptor| f@)
                    &&& s.wf()
                },
                Result::Err(e) => e == SchemaError::NoPrimaryKey && (forall|i: int|
                    0 <= i < fields@.len() ==> !(#[trigger] fields@[i]@).primary_key),
            }),
    {
        let mut i: usize = 0;
        let mut has_pk: bool = false;
        while i < fields.len()
            invariant
                0 <= i <= fields@.len(),
                has_pk <==> (exists|j: int| 0 <= j < i && (#[trigger] fields@[j]@).primary_key),
            decreases fields@.len() - i,
        {
            if fields[i].primary_key {
                has_pk = true;
                proof {
                    assert((fields@[i as int]@).primary_key);
                }
            } else {
                proof {
                    assert(!(fields@[i as int]@).primary_key);
                }
            }
            i += 1;
        }
        if !has_pk {
            return Err(SchemaError::NoPrimaryKey);
        }
        let s = SchemaDescriptor { table, fields };
        proof {
            let j = choose|j: int| 0 <= j < s.fields@.len() && (#[trigger] s.fields@[j]@).primary_key;
            assert(s@.fields[j].primary_key);
        }
        Ok(s)
    }

    /// The table this entity is stored in.
    pub fn table_name(&self) -> (r: &str)
        ensures
            r@ == self@.table,
    {
        self.table.as_str()
    }

    /// How many fields the entity declares.
    pub fn num_fields(&self) -> (r: usize)
        ensures
            r == self@.fields.len(),
    {
        self.fields.len()
    }

    /// The field at one declaration-order position.
    pub fn field(&self, i: usize) -> (r: &FieldDescriptor)
        requires
            i < self@.fields.len(),
        ensures
            r@ == self@.fields[i as int],
    {
        &self.fields[i]
    }

    /// Resolves one field's storage identifier.
    pub fn resolve_storage_identifier(f: &FieldDescriptor) -> (r: String)
        ensures
            r@ == spec_storage_identifier(f@),
    {
        let mut out = String::from_str("\"");
        match &f.rename {
            Option::Some(rn) => out.append(rn.as_str()),
            Option::None => out.append(f.name.as_str()),
        }
        out.append("\"");
        out
    }

    /// All fields' resolved storage identifiers, in declaration order.
    pub fn keys(&self) -> (r: Vec<String>)
        ensures
            r@.len() == self@.fields.len(),
            forall|i: int| 0 <= i < r@.len() ==> (#[trigger] r@[i])@ == spec_keys(self@.fields)[i],
    {
        let mut out: Vec<String> = Vec::new();
        let mut i: usize = 0;
        while i < self.fields.len()
            invariant
                0 <= i <= self.fields@.len(),
                self@.fields.len() == self.fields@.len(),
                out@.len() == i,
                forall|j: int| 0 <= j < i ==> (#[trigger] out@[j])@ == spec_storage_identifier(self@.fields[j]),
            decreases self.fields@.len() - i,
        {
            out.push(Self::resolve_storage_identifier(&self.fields[i]));
            i += 1;
        }
        out
    }

    /// The primary-key fields' resolved storage identifiers, in declaration
    /// order.
    pub fn pks(&self) -> (r: Vec<String>)
        ensures
            r@.map_values(|s: String| s@) == spec_pks(self@.fields),
    {
        let mut out: Vec<String> = Vec::new();
        let mut i: usize = 0;
        while i < self.fields.len()
            invariant
                0 <= i <= self.fields@.len(),
                self@.fields.len() == self.fields@.len(),
                forall|j: int| 0 <= j < i ==> self@.fields[j] == (#[trigger] self.fields@[j])@,
                out@.map_values(|s: String| s@) == spec_pks(self@.fields.subrange(0, i as int)),
            decreases self.fields@.len() - i,
        {
            let ghost pre = out@;
            if self.fields[i].primary_key {
                out.push(Self::resolve_storage_identifier(&self.fields[i]));
            }
            i += 1;
            proof {
                let sub1 = self@.fields.subrange(0, i as int);
                assert(sub1.drop_last() =~= self@.fields.subrange(0, i - 1));
                if self.fields@[i - 1]@.primary_key {
                    assert(out@.map_values(|s: String| s@) =~= pre.map_values(|s: String| s@) + seq![
                        spec_storage_identifier(self@.fields[i - 1]),
                    ]);
                } else {
                    assert(out@.map_values(|s: String| s@) =~= spec_pks(sub1));
                }
            }
        }
        proof {
            assert(self@.fields.subrange(0, self@.fields.len() as int) =~= self@.fields);
        }
        out
    }
}

/// `a` occurs inside `b` in order: `a` can be had from `b` by deleting
/// elements.
pub open spec fn is_subsequence_of<A>(a: Seq<A>, b: Seq<A>) -> bool
    decreases b.len(), a.len(),
{
    if a.len() == 0 {
        true
    } else if b.len() == 0 {
        false
    } else {
        (a.last() == b.last() && is_subsequence_of(a.drop_last(), b.drop_last())) || is_subsequence_of(
            a,
            b.drop_last(),
        )
    }
}

/// For any registered schema, the primary-key identifiers are non-empty and
/// form a sub-sequence of all keys, in the same relative order; the key list
/// itself matches the declared fields one for one.
pub proof fn lemma_primary_keys_subsequence(s: &SchemaDescriptor)
    requires
        s.wf(),
    ensures
        spec_keys(s@.fields).len() == s@.fields.len(),
        spec_pks(s@.fields).len() > 0,
        is_subsequence_of(spec_pks(s@.fields), spec_keys(s@.fields)),
{
    lemma_pks_nonempty(s@.fields);
    lemma_pks_subsequence(s@.fields);
}

proof fn lemma_pks_nonempty(fs: Seq<FieldV>)
    requires
        exists|i: int| 0 <= i < fs.len() && fs[i].primary_key,
    ensures
        spec_pks(fs).len() > 0,
    decreases fs.len(),
{
    if fs.last().primary_key {
    } else {
        let i = choose|i: int| 0 <= i < fs.len() && fs[i].primary_key;
        assert(fs.drop_last()[i] == fs[i]);
        lemma_pks_nonempty(fs.drop_last());
    }
}

proof fn lemma_pks_subsequence(fs: Seq<FieldV>)
    ensures
        is_subsequence_of(spec_pks(fs), spec_keys(fs)),
    decreases fs.len(),
{
    if fs.len() == 0 {
        assert(spec_pks(fs) =~= Seq::<Seq<char>>::empty());
    } else {
        lemma_pks_subsequence(fs.drop_last());
        assert(spec_keys(fs).drop_last() =~= spec_keys(fs.drop_last()));
        assert(spec_keys(fs).last() == spec_storage_identifier(fs.last()));
        if fs.last().primary_key {
            assert(spec_pks(fs).last() == spec_storage_identifier(fs.last()));
            assert(spec_pks(fs).drop_last() =~= spec_pks(fs.drop_last()));
        } else {
            assert(spec_pks(fs) =~= spec_pks(fs.drop_last()));
            if spec_pks(fs).len() == 0 {
            }
        }
    }
}

} // verus!
