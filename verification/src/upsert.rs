//! Partial-update statement synthesis.
//!
//! From a registered schema the builder renders one canonical
//! `update <table> [using ttl :set_ttl] set ... where ...;` statement and the
//! deterministic parameter order its companion binder must follow: non-key
//! fields in declaration order, then key fields in declaration order, then
//! the ttl parameter last when present. The text is fixed per
//! (schema, include-ttl) pair: it always lists every non-key column, whatever
//! a particular caller intends to change.

use vstd::prelude::*;
use vstd::string::StringExecFns;
use crate::schema::{FieldV, SchemaDescriptor, SchemaV, spec_storage_identifier};

verus! {

/// The fixed parameter name of the ttl value.
pub open spec fn spec_ttl_param() -> Seq<char> {
    "set_ttl"@
}

/// The (storage identifier, parameter name) pairs of the SET clause: the
/// non-key fields, in declaration order. The parameter name is always the
/// plain declared name, never the rename, so a column can be renamed for
/// storage without changing how callers refer to it when binding.
pub open spec fn spec_set_pairs(fs: Seq<FieldV>) -> Seq<(Seq<char>, Seq<char>)>
    decreases fs.len(),
{
    if fs.len() == 0 {
        Seq::empty()
    } else {
        spec_set_pairs(fs.drop_last()) + if !fs.last().primary_key {
            seq![(spec_storage_identifier(fs.last()), fs.last().name)]
        } else {
            Seq::empty()
        }
    }
}

/// The (storage identifier, parameter name) pairs of the WHERE clause: the
/// key fields, in declaration order.
pub open spec fn spec_where_pairs(fs: Seq<FieldV>) -> Seq<(Seq<char>, Seq<char>)>
    decreases fs.len(),
{
    if fs.len() == 0 {
        Seq::empty()
    } else {
        spec_where_pairs(fs.drop_last()) + if fs.last().primary_key {
            seq![(spec_storage_identifier(fs.last()), fs.last().name)]
        } else {
            Seq::empty()
        }
    }
}

/// One rendered assignment: `<column> = :<parameter>`.
pub open spec fn spec_assignment(p: (Seq<char>, Seq<char>)) -> Seq<char> {
    p.0 + " = :"@ + p.1
}

/// Assignments joined by a separator.
pub open spec fn spec_render_assignments(ps: Seq<(Seq<char>, Seq<char>)>, sep: Seq<char>) -> Seq<char>
    decreases ps.len(),
{
    if ps.len() == 0 {
        Seq::empty()
    } else if ps.len() == 1 {
        spec_assignment(ps[0])
    } else {
        spec_render_assignments(ps.drop_last(), sep) + sep + spec_assignment(ps.last())
    }
}

/// Everything of the statement after the table name and the optional ttl
/// clause.
pub open spec fn spec_statement_tail(s: SchemaV) -> Seq<char> {
    " set "@ + spec_render_assignments(spec_set_pairs(s.fields), ", "@) + " where "@ + spec_render_assignments(
        spec_where_pairs(s.fields),
        " and "@,
    ) + ";"@
}

/// The canonical partial-update statement text for one (schema, include-ttl)
/// pair.
pub open spec fn spec_statement(s: SchemaV, include_ttl: bool) -> Seq<char> {
    if include_ttl {
        "update "@ + s.table + " using ttl :"@ + spec_ttl_param() + spec_statement_tail(s)
    } else {
        "update "@ + s.table + spec_statement_tail(s)
    }
}

/// Mathematical image of [`UpsertPlan`].
pub struct UpsertPlanV {
    pub table: Seq<char>,
    pub set_pairs: Seq<(Seq<char>, Seq<char>)>,
    pub where_pairs: Seq<(Seq<char>, Seq<char>)>,
    pub ttl_param: Option<Seq<char>>,
}

/// The plan view a schema determines.
pub open spec fn spec_plan(s: SchemaV, include_ttl: bool) -> UpsertPlanV {
    UpsertPlanV {
        table: s.table,
        set_pairs: spec_set_pairs(s.fields),
        where_pairs: spec_where_pairs(s.fields),
        ttl_param: if include_ttl {
            Option::Some(spec_ttl_param())
        } else {
            Option::None
        },
    }
}

/// A synthesized partial-update plan: which columns the SET and WHERE clauses
/// list, under which parameter names, and whether a ttl parameter trails.
/// Built once per (schema, include-ttl) pair; immutable.
#[derive(Debug, PartialEq, Eq)]
pub struct UpsertPlan {
    /// The table the statement updates.
    pub table: String,
    /// (storage identifier, parameter name) of each non-key field, in
    /// declaration order.
    pub set_pairs: Vec<(String, String)>,
    /// (storage identifier, parameter name) of each key field, in declaration
    /// order.
    pub where_pairs: Vec<(String, String)>,
    /// The fixed ttl parameter name, when the statement carries a ttl clause.
    pub ttl_param: Option<String>,
}

/// The view of a pair list.
pub open spec fn pairs_view(ps: Seq<(String, String)>) -> Seq<(Seq<char>, Seq<char>)> {
    ps.map_values(|p: (String, String)| (p.0@, p.1@))
}

impl View for UpsertPlan {
    type V = UpsertPlanV;

    open spec fn view(&self) -> UpsertPlanV {
        UpsertPlanV {
            table: self.table@,
            set_pairs: pairs_view(self.set_pairs@),
            where_pairs: pairs_view(self.where_pairs@),
            ttl_param: match self.ttl_param {
                Option::None => Option::<Seq<char>>::None,
                Option::Some(p) => Option::Some(p@),
            },
        }
    }
}

/// Renders the assignments of one clause into `out`.
fn render_assignments(out: &mut String, pairs: &Vec<(String, String)>, sep: &str)
    ensures
        final(out)@ == old(out)@ + spec_render_assignments(pairs_view(pairs@), sep@),
{
    let ghost base = out@;
    let mut i: usize = 0;
    while i < pairs.len()
        invariant
            0 <= i <= pairs@.len(),
            out@ == base + spec_render_assignments(pairs_view(pairs@).subrange(0, i as int), sep@),
        decreases pairs@.len() - i,
    {
        if i > 0 {
            out.append(sep);
        }
        out.append(pairs[i].0.as_str());
        out.append(" = :");
        out.append(pairs[i].1.as_str());
        i += 1;
        proof {
            let ps = pairs_view(pairs@);
            let sub1 = ps.subrange(0, i as int);
            assert(sub1.drop_last() =~= ps.subrange(0, i - 1));
            assert(sub1.last() == ps[i - 1]);
            assert(out@ =~= base + spec_render_assignments(sub1, sep@));
        }
    }
    proof {
        assert(pairs_view(pairs@).subrange(0, pairs@.len() as int) =~= pairs_view(pairs@));
    }
}

/// Builds the plan and its rendered statement text for one schema. The text
/// is a pure function of the schema view and the ttl flag alone.
pub fn build(schema: &SchemaDescriptor, include_ttl: bool) -> (r: (UpsertPlan, String))
    requires
        schema.wf(),
    ensures
        r.0@ == spec_plan(schema@, include_ttl),
        r.1@ == spec_statement(schema@, include_ttl),
{
    let mut set_pairs: Vec<(String, String)> = Vec::new();
    let mut where_pairs: Vec<(String, String)> = Vec::new();
    let n = schema.num_fields();
    let mut i: usize = 0;
    while i < n
        invariant
            0 <= i <= n,
            n == schema@.fields.len(),
            pairs_view(set_pairs@) == spec_set_pairs(schema@.fields.subrange(0, i as int)),
            pairs_view(where_pairs@) == spec_where_pairs(schema@.fields.subrange(0, i as int)),
        decreases n - i,
    {
        let f = schema.field(i);
        let ghost pre_set = pairs_view(set_pairs@);
        let ghost pre_where = pairs_view(where_pairs@);
        let pair = (SchemaDescriptor::resolve_storage_identifier(f), f.name.clone());
        if f.primary_key {
            where_pairs.push(pair);
        } else {
            set_pairs.push(pair);
        }
        i += 1;
        proof {
            let sub1 = schema@.fields.subrange(0, i as int);
            assert(sub1.drop_last() =~= schema@.fields.subrange(0, i - 1));
            assert(sub1.last() == schema@.fields[i - 1]);
            if f@.primary_key {
                assert(pairs_view(where_pairs@) =~= pre_where + seq![
                    (spec_storage_identifier(schema@.fields[i - 1]), schema@.fields[i - 1].name),
                ]);
                assert(pairs_view(set_pairs@) =~= pre_set);
            } else {
                assert(pairs_view(set_pairs@) =~= pre_set + seq![
                    (spec_storage_identifier(schema@.fields[i - 1]), schema@.fields[i - 1].name),
                ]);
                assert(pairs_view(where_pairs@) =~= pre_where);
            }
            assert(pairs_view(set_pairs@) =~= spec_set_pairs(sub1));
            assert(pairs_view(where_pairs@) =~= spec_where_pairs(sub1));
        }
    }
    proof {
        assert(schema@.fields.subrange(0, schema@.fields.len() as int) =~= schema@.fields);
    }
    let mut stmt = String::from_str("update ");
    stmt.append(schema.table_name());
    if include_ttl {
        stmt.append(" using ttl :");
        stmt.append("set_ttl");
    }
    stmt.append(" set ");
    render_assignments(&mut stmt, &set_pairs, ", ");
    stmt.append(" where ");
    render_assignments(&mut stmt, &where_pairs, " and ");
    stmt.append(";");
    let plan = UpsertPlan {
        table: String::from_str(schema.table_name()),
        set_pairs,
        where_pairs,
        ttl_param: if include_ttl {
            Some(String::from_str("set_ttl"))
        } else {
            None
        },
    };
    proof {
        assert(stmt@ =~= spec_statement(schema@, include_ttl));
        assert(plan@.set_pairs =~= spec_plan(schema@, include_ttl).set_pairs);
        assert(plan@.where_pairs =~= spec_plan(schema@, include_ttl).where_pairs);
    }
    (plan, stmt)
}

/// The rendered statement text is a pure function of (schema, include-ttl):
/// two renderings for the same pair are identical, and no tri-state value
/// assignment enters the text at all.
pub proof fn lemma_statement_text_pure(t1: Seq<char>, t2: Seq<char>, s: SchemaV, include_ttl: bool)
    requires
        t1 == spec_statement(s, include_ttl),
        t2 == spec_statement(s, include_ttl),
    ensures
        t1 == t2,
{
}

/// With a ttl, the text inserts `using ttl :set_ttl` between the table name
/// and the `set` keyword, and is otherwise the very text rendered without
/// one.
pub proof fn lemma_ttl_statement_placement(s: SchemaV)
    ensures
        spec_statement(s, true) == "update "@ + s.table + " using ttl :"@ + spec_ttl_param() + spec_statement_tail(
            s,
        ),
        spec_statement(s, false) == "update "@ + s.table + spec_statement_tail(s),
{
}

} // verus!
