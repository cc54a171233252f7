//! The person entity: a registered schema, its partial-update queries with
//! tri-state binding, and its point-lookup queries.
//!
//! Identifiers that the store generates (uuids) are carried as plain 128-bit
//! values; the boundary that talks to the driver converts.

use vstd::prelude::*;
use vstd::string::{StringExecFns, StrSliceExecFns};
use vstd::utf8::encode_utf8;
use crate::error::{BuildUpsertQueryError, BuildUpsertQueryErrorV, attach_field};
use crate::queries::{Query, WriteQuery};
use crate::schema::{FieldDescriptor, FieldV, SchemaDescriptor, SchemaV, spec_storage_identifier};
use crate::upsert::{build, spec_plan, spec_set_pairs, spec_statement, spec_where_pairs};
use crate::values::{
    EncodedValue,
    EncodedValueV,
    SerializedValues,
    TriStateValue,
    MAX_VALUE_SIZE,
    be_bytes_u128,
    encode_i32,
    encode_i64,
    encode_opt_i32,
    encode_string,
    encode_u128,
    encoded_size,
    i32_encoding,
    i64_encoding,
    opt_i32_encoding,
    string_encoding,
};

verus! {

/// A person's 128-bit identifier, held as a plain value.
#[derive(Debug, PartialEq, Eq, Clone, Copy)]
pub struct PersonId(pub u128);

/// The transport encoding of a person identifier: its sixteen big-endian
/// bytes.
pub open spec fn person_id_encoding(id: PersonId) -> EncodedValueV {
    EncodedValueV::Bytes(be_bytes_u128(id.0))
}

/// Encodes a person identifier.
pub fn encode_person_id(id: &PersonId) -> (r: EncodedValue)
    ensures
        r@ == person_id_encoding(*id),
{
    encode_u128(id.0)
}

/// Extra data carried by a person.
#[derive(Debug, PartialEq, Eq, Clone)]
pub struct PersonData {
    /// The person's billing identifier, when known.
    pub stripe_id: Option<String>,
}

/// Mathematical image of [`PersonData`].
pub struct PersonDataV {
    pub stripe_id: Option<Seq<char>>,
}

impl View for PersonData {
    type V = PersonDataV;

    open spec fn view(&self) -> PersonDataV {
        PersonDataV {
            stripe_id: match self.stripe_id {
                Option::None => Option::<Seq<char>>::None,
                Option::Some(s) => Option::Some(s@),
            },
        }
    }
}

/// A text with quote and backslash characters escaped.
pub open spec fn json_escaped(s: Seq<char>) -> Seq<char>
    decreases s.len(),
{
    if s.len() == 0 {
        Seq::empty()
    } else {
        json_escaped(s.drop_last()) + if s.last() == '"' || s.last() == '\\' {
            seq!['\\', s.last()]
        } else {
            seq![s.last()]
        }
    }
}

/// The stored text form of a person's extra data.
pub open spec fn person_data_text(d: PersonDataV) -> Seq<char> {
    "{\"stripeId\":"@ + (match d.stripe_id {
        Option::None => "null"@,
        Option::Some(s) => "\""@ + json_escaped(s) + "\""@,
    }) + "}"@
}

/// The transport encoding of a person's extra data: the UTF-8 bytes of its
/// stored text form.
pub open spec fn person_data_encoding(d: PersonDataV) -> EncodedValueV {
    EncodedValueV::Bytes(encode_utf8(person_data_text(d)))
}

/// Appends `s` with quotes and backslashes escaped.
fn append_json_escaped(out: &mut String, s: &str)
    ensures
        final(out)@ == old(out)@ + json_escaped(s@),
{
    let ghost base = out@;
    let n = s.unicode_len();
    let mut i: usize = 0;
    proof {
        assert(s@.subrange(0, 0) =~= Seq::<char>::empty());
        assert(json_escaped(s@.subrange(0, 0)) =~= Seq::<char>::empty());
        assert(out@ =~= base + json_escaped(s@.subrange(0, 0)));
    }
    while i < n
        invariant
            0 <= i <= n,
            n == s@.len(),
            out@ == base + json_escaped(s@.subrange(0, i as int)),
        decreases n - i,
    {
        let c = s.get_char(i);
        if c == '"' || c == '\\' {
            out.append("\\");
        }
        let piece = s.substring_char(i, i + 1);
        out.append(piece);
        i += 1;
        proof {
            let sub1 = s@.subrange(0, i as int);
            assert(sub1.drop_last() =~= s@.subrange(0, i - 1));
            assert(sub1.last() == s@[i - 1]);
            assert(piece@ =~= seq![s@[i - 1]]);
            if s@[i - 1] == '"' || s@[i - 1] == '\\' {
                reveal_strlit("\\");
                assert("\\"@ + piece@ =~= seq!['\\', s@[i - 1]]);
            }
            assert(out@ =~= base + json_escaped(sub1));
        }
    }
    proof {
        assert(s@.subrange(0, n as int) =~= s@);
    }
}

/// Encodes a person's extra data into its stored text form.
pub fn encode_person_data(d: &PersonData) -> (r: EncodedValue)
    ensures
        r@ == person_data_encoding(d@),
{
    let mut out = <String as StringExecFns>::from_str("{\"stripeId\":");
    match &d.stripe_id {
        Option::None => out.append("null"),
        Option::Some(s) => {
            out.append("\"");
            append_json_escaped(&mut out, s.as_str());
            out.append("\"");
        },
    }
    out.append("}");
    proof {
        assert(out@ =~= person_data_text(d@));
    }
    EncodedValue::Bytes(out.as_str().as_bytes_vec())
}

/// The transport encoding of optional extra data: an explicit null when
/// absent.
pub open spec fn opt_person_data_encoding(d: Option<PersonDataV>) -> EncodedValueV {
    match d {
        Option::None => EncodedValueV::Null,
        Option::Some(v) => person_data_encoding(v),
    }
}

/// Encodes optional extra data.
pub fn encode_opt_person_data(d: &Option<PersonData>) -> (r: EncodedValue)
    ensures
        (match d {
            Option::None => r@ == EncodedValueV::Null,
            Option::Some(v) => r@ == person_data_encoding(v@),
        }),
{
    match d {
        Option::None => EncodedValue::Null,
        Option::Some(v) => encode_person_data(v),
    }
}

/// The kind of person.
#[derive(Debug, PartialEq, Eq, Structural, Clone, Copy)]
pub enum PersonKind {
    /// A staff member.
    Staff,
    /// A parent.
    Parent,
    /// A student.
    Student,
}

/// The stored integer code of a person kind.
pub open spec fn spec_kind_code(k: PersonKind) -> i32 {
    match k {
        PersonKind::Staff => 0,
        PersonKind::Parent => 1,
        PersonKind::Student => 2,
    }
}

impl PersonKind {
    /// The stored integer code of this kind.
    pub fn code(&self) -> (r: i32)
        ensures
            r == spec_kind_code(*self),
    {
        match self {
            PersonKind::Staff => 0,
            PersonKind::Parent => 1,
            PersonKind::Student => 2,
        }
    }
}

/// The transport encoding of a person kind: its integer code.
pub open spec fn person_kind_encoding(k: PersonKind) -> EncodedValueV {
    i32_encoding(spec_kind_code(k))
}

/// Encodes a person kind.
pub fn encode_person_kind(k: &PersonKind) -> (r: EncodedValue)
    ensures
        r@ == person_kind_encoding(*k),
{
    encode_i32(k.code())
}

/// A person row.
#[derive(Debug, PartialEq, Eq, Clone)]
pub struct PersonEntity {
    /// The person's identifier; the primary key.
    pub id: PersonId,
    /// The person's email address.
    pub email: String,
    /// The person's age, when known.
    pub age: Option<i32>,
    /// Extra data, when present.
    pub data: Option<PersonData>,
    /// The kind of person.
    pub kind: PersonKind,
    /// When the row was created; stored under the case-sensitive column
    /// `createdAt`.
    pub created_at: i64,
}

/// The person entity's registered schema.
pub open spec fn spec_person_schema() -> SchemaV {
    SchemaV {
        table: "person"@,
        fields: seq![
            FieldV { name: "id"@, rename: Option::None, primary_key: true },
            FieldV { name: "email"@, rename: Option::None, primary_key: false },
            FieldV { name: "age"@, rename: Option::None, primary_key: false },
            FieldV { name: "data"@, rename: Option::None, primary_key: false },
            FieldV { name: "kind"@, rename: Option::None, primary_key: false },
            FieldV { name: "created_at"@, rename: Option::Some("createdAt"@), primary_key: false },
        ],
    }
}

impl PersonEntity {
    /// Registers the person schema: six fields, `id` as the primary key,
    /// `created_at` renamed to the case-sensitive `createdAt`.
    pub fn schema() -> (r: SchemaDescriptor)
        ensures
            r@ == spec_person_schema(),
            r.wf(),
    {
        let mut fields: Vec<FieldDescriptor> = Vec::new();
        fields.push(
            FieldDescriptor { name: <String as StringExecFns>::from_str("id"), rename: None, primary_key: true },
        );
        fields.push(
            FieldDescriptor {
                name: <String as StringExecFns>::from_str("email"),
                rename: None,
                primary_key: false,
            },
        );
        fields.push(
            FieldDescriptor { name: <String as StringExecFns>::from_str("age"), rename: None, primary_key: false },
        );
        fields.push(
            FieldDescriptor {
                name: <String as StringExecFns>::from_str("data"),
                rename: None,
                primary_key: false,
            },
        );
        fields.push(
            FieldDescriptor {
                name: <String as StringExecFns>::from_str("kind"),
                rename: None,
                primary_key: false,
            },
        );
        fields.push(
            FieldDescriptor {
                name: <String as StringExecFns>::from_str("created_at"),
                rename: Some(<String as StringExecFns>::from_str("createdAt")),
                primary_key: false,
            },
        );
        proof {
            assert(fields@.map_values(|f: FieldDescriptor| f@) =~= spec_person_schema().fields);
        }
        match SchemaDescriptor::new(<String as StringExecFns>::from_str("person"), fields) {
            Result::Ok(s) => s,
            Result::Err(_) => vstd::pervasive::unreached(),
        }
    }

    /// All storage identifiers, in declaration order.
    pub fn keys() -> (r: Vec<String>)
        ensures
            r@.len() == spec_person_schema().fields.len(),
            forall|i: int|
                0 <= i < r@.len() ==> (#[trigger] r@[i])@ == crate::schema::spec_keys(spec_person_schema().fields)[i],
    {
        let s = Self::schema();
        s.keys()
    }

    /// The primary-key storage identifiers, in declaration order.
    pub fn pks() -> (r: Vec<String>)
        ensures
            r@.map_values(|s: String| s@) == crate::schema::spec_pks(spec_person_schema().fields),
    {
        let s = Self::schema();
        s.pks()
    }
}

/// The encoding a tri-state string value binds.
pub open spec fn tri_string_encoding(v: TriStateValue<String>) -> EncodedValueV {
    match v {
        TriStateValue::Assigned(s) => string_encoding(s@),
        TriStateValue::Unset => EncodedValueV::Unset,
    }
}

/// The encoding a tri-state optional integer binds.
pub open spec fn tri_opt_i32_encoding(v: TriStateValue<Option<i32>>) -> EncodedValueV {
    match v {
        TriStateValue::Assigned(x) => opt_i32_encoding(x),
        TriStateValue::Unset => EncodedValueV::Unset,
    }
}

/// The encoding tri-state optional extra data binds.
pub open spec fn tri_opt_data_encoding(v: TriStateValue<Option<PersonData>>) -> EncodedValueV {
    match v {
        TriStateValue::Assigned(Option::None) => EncodedValueV::Null,
        TriStateValue::Assigned(Option::Some(d)) => person_data_encoding(d@),
        TriStateValue::Unset => EncodedValueV::Unset,
    }
}

/// The encoding a tri-state person kind binds.
pub open spec fn tri_kind_encoding(v: TriStateValue<PersonKind>) -> EncodedValueV {
    match v {
        TriStateValue::Assigned(k) => person_kind_encoding(k),
        TriStateValue::Unset => EncodedValueV::Unset,
    }
}

/// The encoding a tri-state 64-bit integer binds.
pub open spec fn tri_i64_encoding(v: TriStateValue<i64>) -> EncodedValueV {
    match v {
        TriStateValue::Assigned(x) => i64_encoding(x),
        TriStateValue::Unset => EncodedValueV::Unset,
    }
}

/// A partial update of one person row. Each non-key field carries a
/// tri-state value; the key is always supplied, so a key can never be left
/// unset.
#[derive(Debug, PartialEq, Eq)]
pub struct UpsertPerson {
    /// The row's identifier.
    pub id: PersonId,
    /// The email column.
    pub email: TriStateValue<String>,
    /// The age column.
    pub age: TriStateValue<Option<i32>>,
    /// The extra-data column.
    pub data: TriStateValue<Option<PersonData>>,
    /// The kind column.
    pub kind: TriStateValue<PersonKind>,
    /// The `createdAt` column.
    pub created_at: TriStateValue<i64>,
}

/// The ordered transport parameters an upsert binds: the non-key fields in
/// declaration order, then the key fields in declaration order.
pub open spec fn spec_upsert_person_entries(u: UpsertPerson) -> Seq<(Option<Seq<char>>, EncodedValueV)> {
    seq![
        (Option::Some("email"@), tri_string_encoding(u.email)),
        (Option::Some("age"@), tri_opt_i32_encoding(u.age)),
        (Option::Some("data"@), tri_opt_data_encoding(u.data)),
        (Option::Some("kind"@), tri_kind_encoding(u.kind)),
        (Option::Some("created_at"@), tri_i64_encoding(u.created_at)),
        (Option::Some("id"@), person_id_encoding(u.id)),
    ]
}

/// The binding an upsert produces: every entry in order, unless an encoded
/// value exceeds the transport's maximum size, which is that field's typed
/// error.
pub open spec fn spec_upsert_person_bind(u: UpsertPerson) -> Result<
    Seq<(Option<Seq<char>>, EncodedValueV)>,
    BuildUpsertQueryErrorV,
> {
    if encoded_size(tri_string_encoding(u.email)) > MAX_VALUE_SIZE {
        Result::Err(BuildUpsertQueryErrorV::ValueTooBig { field: "email"@ })
    } else if encoded_size(tri_opt_data_encoding(u.data)) > MAX_VALUE_SIZE {
        Result::Err(BuildUpsertQueryErrorV::ValueTooBig { field: "data"@ })
    } else {
        Result::Ok(spec_upsert_person_entries(u))
    }
}

impl Query for UpsertPerson {
    open spec fn spec_query() -> Seq<char> {
        spec_statement(spec_person_schema(), false)
    }

    open spec fn spec_bind(&self) -> Result<Seq<(Option<Seq<char>>, EncodedValueV)>, BuildUpsertQueryErrorV> {
        spec_upsert_person_bind(*self)
    }

    fn query() -> (r: String) {
        let schema = PersonEntity::schema();
        let (_plan, text) = build(&schema, false);
        text
    }

    fn bind(&self) -> (r: Result<SerializedValues, BuildUpsertQueryError>) {
        let mut sv = SerializedValues::new();
        let email = match &self.email {
            TriStateValue::Assigned(s) => encode_string(s.as_str()),
            TriStateValue::Unset => EncodedValue::Unset,
        };
        match sv.add_named_value("email", email) {
            Result::Ok(()) => {},
            Result::Err(e) => {
                return Err(attach_field(e, <String as StringExecFns>::from_str("email")));
            },
        }
        let age = match &self.age {
            TriStateValue::Assigned(x) => encode_opt_i32(x),
            TriStateValue::Unset => EncodedValue::Unset,
        };
        match sv.add_named_value("age", age) {
            Result::Ok(()) => {},
            Result::Err(_) => {
                return vstd::pervasive::unreached();
            },
        }
        let data = match &self.data {
            TriStateValue::Assigned(d) => encode_opt_person_data(d),
            TriStateValue::Unset => EncodedValue::Unset,
        };
        match sv.add_named_value("data", data) {
            Result::Ok(()) => {},
            Result::Err(e) => {
                return Err(attach_field(e, <String as StringExecFns>::from_str("data")));
            },
        }
        let kind = match &self.kind {
            TriStateValue::Assigned(k) => encode_person_kind(k),
            TriStateValue::Unset => EncodedValue::Unset,
        };
        match sv.add_named_value("kind", kind) {
            Result::Ok(()) => {},
            Result::Err(_) => {
                return vstd::pervasive::unreached();
            },
        }
        let created_at = match &self.created_at {
            TriStateValue::Assigned(x) => encode_i64(*x),
            TriStateValue::Unset => EncodedValue::Unset,
        };
        match sv.add_named_value("created_at", created_at) {
            Result::Ok(()) => {},
            Result::Err(_) => {
                return vstd::pervasive::unreached();
            },
        }
        match sv.add_named_value("id", encode_person_id(&self.id)) {
            Result::Ok(()) => {},
            Result::Err(_) => {
                return vstd::pervasive::unreached();
            },
        }
        proof {
            assert(sv@ =~= spec_upsert_person_entries(*self));
        }
        Ok(sv)
    }
}

impl WriteQuery for UpsertPerson {

}

/// A partial update of one person row that also sets a time-to-live on the
/// written data. The ttl value is always supplied, so it can never be left
/// unset.
#[derive(Debug, PartialEq, Eq)]
pub struct UpsertPersonWithTTL {
    /// The row's identifier.
    pub id: PersonId,
    /// The email column.
    pub email: TriStateValue<String>,
    /// The age column.
    pub age: TriStateValue<Option<i32>>,
    /// The extra-data column.
    pub data: TriStateValue<Option<PersonData>>,
    /// The kind column.
    pub kind: TriStateValue<PersonKind>,
    /// The `createdAt` column.
    pub created_at: TriStateValue<i64>,
    /// The time-to-live, in seconds.
    pub set_ttl: i32,
}

/// The plain upsert carrying the same field values as a ttl upsert.
pub open spec fn spec_without_ttl(u: UpsertPersonWithTTL) -> UpsertPerson {
    UpsertPerson {
        id: u.id,
        email: u.email,
        age: u.age,
        data: u.data,
        kind: u.kind,
        created_at: u.created_at,
    }
}

/// The binding a ttl upsert produces: the plain upsert's entries, then the
/// ttl value last.
pub open spec fn spec_upsert_person_ttl_bind(u: UpsertPersonWithTTL) -> Result<
    Seq<(Option<Seq<char>>, EncodedValueV)>,
    BuildUpsertQueryErrorV,
> {
    match spec_upsert_person_bind(spec_without_ttl(u)) {
        Result::Ok(es) => Result::Ok(es.push((Option::Some("set_ttl"@), i32_encoding(u.set_ttl)))),
        Result::Err(e) => Result::Err(e),
    }
}

impl Query for UpsertPersonWithTTL {
    open spec fn spec_query() -> Seq<char> {
        spec_statement(spec_person_schema(), true)
    }

    open spec fn spec_bind(&self) -> Result<Seq<(Option<Seq<char>>, EncodedValueV)>, BuildUpsertQueryErrorV> {
        spec_upsert_person_ttl_bind(*self)
    }

    fn query() -> (r: String) {
        let schema = PersonEntity::schema();
        let (_plan, text) = build(&schema, true);
        text
    }

    fn bind(&self) -> (r: Result<SerializedValues, BuildUpsertQueryError>) {
        let mut sv = SerializedValues::new();
        let email = match &self.email {
            TriStateValue::Assigned(s) => encode_string(s.as_str()),
            TriStateValue::Unset => EncodedValue::Unset,
        };
        match sv.add_named_value("email", email) {
            Result::Ok(()) => {},
            Result::Err(e) => {
                return Err(attach_field(e, <String as StringExecFns>::from_str("email")));
            },
        }
        let age = match &self.age {
            TriStateValue::Assigned(x) => encode_opt_i32(x),
            TriStateValue::Unset => EncodedValue::Unset,
        };
        match sv.add_named_value("age", age) {
            Result::Ok(()) => {},
            Result::Err(_) => {
                return vstd::pervasive::unreached();
            },
        }
        let data = match &self.data {
            TriStateValue::Assigned(d) => encode_opt_person_data(d),
            TriStateValue::Unset => EncodedValue::Unset,
        };
        match sv.add_named_value("data", data) {
            Result::Ok(()) => {},
            Result::Err(e) => {
                return Err(attach_field(e, <String as StringExecFns>::from_str("data")));
            },
        }
        let kind = match &self.kind {
            TriStateValue::Assigned(k) => encode_person_kind(k),
            TriStateValue::Unset => EncodedValue::Unset,
        };
        match sv.add_named_value("kind", kind) {
            Result::Ok(()) => {},
            Result::Err(_) => {
                return vstd::pervasive::unreached();
            },
        }
        let created_at = match &self.created_at {
            TriStateValue::Assigned(x) => encode_i64(*x),
            TriStateValue::Unset => EncodedValue::Unset,
        };
        match sv.add_named_value("created_at", created_at) {
            Result::Ok(()) => {},
            Result::Err(_) => {
                return vstd::pervasive::unreached();
            },
        }
        match sv.add_named_value("id", encode_person_id(&self.id)) {
            Result::Ok(()) => {},
            Result::Err(_) => {
                return vstd::pervasive::unreached();
            },
        }
        match sv.add_named_value("set_ttl", encode_i32(self.set_ttl)) {
            Result::Ok(()) => {},
            Result::Err(_) => {
                return vstd::pervasive::unreached();
            },
        }
        proof {
            assert(sv@ =~= spec_upsert_person_entries(spec_without_ttl(*self)).push(
                (Option::Some("set_ttl"@), i32_encoding(self.set_ttl)),
            ));
        }
        Ok(sv)
    }
}

impl WriteQuery for UpsertPersonWithTTL {

}

/// A point lookup of one person row by identifier.
#[derive(Debug, PartialEq, Eq, Clone, Copy)]
pub struct GetPersonById {
    /// The identifier to look up.
    pub id: PersonId,
}

impl Query for GetPersonById {
    open spec fn spec_query() -> Seq<char> {
        "select * from person where id = ? limit 1"@
    }

    open spec fn spec_bind(&self) -> Result<Seq<(Option<Seq<char>>, EncodedValueV)>, BuildUpsertQueryErrorV> {
        Result::Ok(seq![(Option::<Seq<char>>::None, person_id_encoding(self.id))])
    }

    fn query() -> (r: String) {
        <String as StringExecFns>::from_str("select * from person where id = ? limit 1")
    }

    fn bind(&self) -> (r: Result<SerializedValues, BuildUpsertQueryError>) {
        let mut sv = SerializedValues::new();
        match sv.add_value(encode_person_id(&self.id)) {
            Result::Ok(()) => {},
            Result::Err(_) => {
                return vstd::pervasive::unreached();
            },
        }
        proof {
            assert(sv@ =~= seq![(Option::<Seq<char>>::None, person_id_encoding(self.id))]);
        }
        Ok(sv)
    }
}

/// A point lookup of one person row by email address.
#[derive(Debug, PartialEq, Eq, Clone)]
pub struct GetPersonByEmail {
    /// The email address to look up.
    pub email: String,
}

impl Query for GetPersonByEmail {
    open spec fn spec_query() -> Seq<char> {
        "select * from person_by_email where email = ? limit 1"@
    }

    open spec fn spec_bind(&self) -> Result<Seq<(Option<Seq<char>>, EncodedValueV)>, BuildUpsertQueryErrorV> {
        if string_encoding(self.email@)->Bytes_0.len() > MAX_VALUE_SIZE {
            Result::Err(BuildUpsertQueryErrorV::ValueTooBig { field: "email"@ })
        } else {
            Result::Ok(seq![(Option::<Seq<char>>::None, string_encoding(self.email@))])
        }
    }

    fn query() -> (r: String) {
        <String as StringExecFns>::from_str("select * from person_by_email where email = ? limit 1")
    }

    fn bind(&self) -> (r: Result<SerializedValues, BuildUpsertQueryError>) {
        let mut sv = SerializedValues::new();
        match sv.add_value(encode_string(self.email.as_str())) {
            Result::Ok(()) => {},
            Result::Err(e) => {
                return Err(attach_field(e, <String as StringExecFns>::from_str("email")));
            },
        }
        proof {
            assert(sv@ =~= seq![(Option::<Seq<char>>::None, string_encoding(self.email@))]);
        }
        Ok(sv)
    }
}

/// Binding an upsert where a non-key field is left unset encodes that field
/// with the "leave unchanged" marker — a value distinct from the explicit
/// null and from every payload, so the stored column can be neither deleted
/// nor overwritten by it.
pub proof fn lemma_unset_field_binding(u: UpsertPerson, es: Seq<(Option<Seq<char>>, EncodedValueV)>, b: Seq<u8>)
    requires
        spec_upsert_person_bind(u) == Result::<Seq<(Option<Seq<char>>, EncodedValueV)>, BuildUpsertQueryErrorV>::Ok(
            es,
        ),
    ensures
        u.email is Unset ==> es[0].1 == EncodedValueV::Unset,
        u.age is Unset ==> es[1].1 == EncodedValueV::Unset,
        u.data is Unset ==> es[2].1 == EncodedValueV::Unset,
        u.kind is Unset ==> es[3].1 == EncodedValueV::Unset,
        u.created_at is Unset ==> es[4].1 == EncodedValueV::Unset,
        EncodedValueV::Unset != EncodedValueV::Null && EncodedValueV::Unset != EncodedValueV::Bytes(b),
{
}

/// The entries an upsert binds follow the synthesized plan's declared order
/// exactly: the SET parameters in declaration order, then the WHERE
/// parameters in declaration order, each under its plain declared parameter
/// name. Callers may therefore rely on positional binding. (The ttl upsert
/// appends its value last; see `lemma_ttl_binding_order`.)
pub proof fn lemma_person_binding_order(u: UpsertPerson)
    ensures
        spec_upsert_person_entries(u).len() == spec_plan(spec_person_schema(), false).set_pairs.len() + spec_plan(
            spec_person_schema(),
            false,
        ).where_pairs.len(),
        forall|i: int|
            0 <= i < spec_plan(spec_person_schema(), false).set_pairs.len()
                ==> (#[trigger] spec_upsert_person_entries(u)[i]).0 == Option::Some(
                spec_plan(spec_person_schema(), false).set_pairs[i].1,
            ),
        forall|i: int|
            0 <= i < spec_plan(spec_person_schema(), false).where_pairs.len()
                ==> spec_upsert_person_entries(u)[spec_plan(spec_person_schema(), false).set_pairs.len() + i].0
                == Option::Some((#[trigger] spec_plan(spec_person_schema(), false).where_pairs[i]).1),
{
    let fs = spec_person_schema().fields;
    let s5 = seq![fs[0], fs[1], fs[2], fs[3], fs[4]];
    let s4 = seq![fs[0], fs[1], fs[2], fs[3]];
    let s3 = seq![fs[0], fs[1], fs[2]];
    let s2 = seq![fs[0], fs[1]];
    let s1 = seq![fs[0]];
    let s0 = Seq::<FieldV>::empty();
    assert(fs.drop_last() =~= s5);
    assert(s5.drop_last() =~= s4);
    assert(s4.drop_last() =~= s3);
    assert(s3.drop_last() =~= s2);
    assert(s2.drop_last() =~= s1);
    assert(s1.drop_last() =~= s0);
    assert(spec_set_pairs(s0).len() == 0);
    assert(spec_where_pairs(s0).len() == 0);
    assert(spec_set_pairs(s1) =~= spec_set_pairs(s0));
    assert(spec_set_pairs(s2) =~= spec_set_pairs(s1) + seq![(spec_storage_identifier(fs[1]), fs[1].name)]);
    assert(spec_set_pairs(s3) =~= spec_set_pairs(s2) + seq![(spec_storage_identifier(fs[2]), fs[2].name)]);
    assert(spec_set_pairs(s4) =~= spec_set_pairs(s3) + seq![(spec_storage_identifier(fs[3]), fs[3].name)]);
    assert(spec_set_pairs(s5) =~= spec_set_pairs(s4) + seq![(spec_storage_identifier(fs[4]), fs[4].name)]);
    assert(spec_set_pairs(fs) =~= spec_set_pairs(s5) + seq![(spec_storage_identifier(fs[5]), fs[5].name)]);
    assert(spec_where_pairs(s1) =~= spec_where_pairs(s0) + seq![(spec_storage_identifier(fs[0]), fs[0].name)]);
    assert(spec_where_pairs(s2) =~= spec_where_pairs(s1));
    assert(spec_where_pairs(s3) =~= spec_where_pairs(s2));
    assert(spec_where_pairs(s4) =~= spec_where_pairs(s3));
    assert(spec_where_pairs(s5) =~= spec_where_pairs(s4));
    assert(spec_where_pairs(fs) =~= spec_where_pairs(s5));
}

/// A ttl upsert binds exactly what the plain upsert with the same field
/// values binds, with the ttl value appended last — after every SET value and
/// every WHERE value.
pub proof fn lemma_ttl_binding_order(u: UpsertPersonWithTTL, es: Seq<(Option<Seq<char>>, EncodedValueV)>)
    requires
        spec_upsert_person_ttl_bind(u) == Result::<
            Seq<(Option<Seq<char>>, EncodedValueV)>,
            BuildUpsertQueryErrorV,
        >::Ok(es),
    ensures
        es.len() > 0,
        es.last() == (Option::Some("set_ttl"@), i32_encoding(u.set_ttl)),
        spec_upsert_person_bind(spec_without_ttl(u)) == Result::<
            Seq<(Option<Seq<char>>, EncodedValueV)>,
            BuildUpsertQueryErrorV,
        >::Ok(es.drop_last()),
{
    let inner = spec_upsert_person_bind(spec_without_ttl(u));
    assert(inner is Ok);
    assert(es == inner->Ok_0.push((Option::Some("set_ttl"@), i32_encoding(u.set_ttl))));
    assert(es.drop_last() =~= inner->Ok_0);
}

} // verus!
