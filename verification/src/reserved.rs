//! Reserved keywords of the query dialect, matched case-insensitively.
//!
//! A named variable must not collide with a reserved keyword; the parser
//! surfaces such a collision as a typed error.

use vstd::prelude::*;
use vstd::string::StrSliceExecFns;

verus! {

/// Case-folds one character: ASCII uppercase letters map to lowercase, all
/// others stay.
pub open spec fn lower(c: char) -> char {
    if 'A' <= c && c <= 'Z' {
        ((c as u32) + 32) as char
    } else {
        c
    }
}

/// Case-folds a character sequence.
pub open spec fn lower_seq(s: Seq<char>) -> Seq<char> {
    Seq::new(s.len(), |i: int| lower(s[i]))
}

/// Case-folds one character.
pub fn to_lower(c: char) -> (r: char)
    ensures
        r == lower(c),
{
    match c {
        'A' => 'a',
        'B' => 'b',
        'C' => 'c',
        'D' => 'd',
        'E' => 'e',
        'F' => 'f',
        'G' => 'g',
        'H' => 'h',
        'I' => 'i',
        'J' => 'j',
        'K' => 'k',
        'L' => 'l',
        'M' => 'm',
        'N' => 'n',
        'O' => 'o',
        'P' => 'p',
        'Q' => 'q',
        'R' => 'r',
        'S' => 's',
        'T' => 't',
        'U' => 'u',
        'V' => 'v',
        'W' => 'w',
        'X' => 'x',
        'Y' => 'y',
        'Z' => 'z',
        _ => c,
    }
}

/// Whether `s`, case-folded, equals the (lowercase) keyword `kw`.
fn eq_fold(s: &str, kw: &str) -> (r: bool)
    ensures
        r == (lower_seq(s@) == kw@),
{
    let sn = s.unicode_len();
    let kn = kw.unicode_len();
    if sn != kn {
        proof {
            assert(lower_seq(s@).len() != kw@.len());
        }
        return false;
    }
    let mut i: usize = 0;
    while i < sn
        invariant
            0 <= i <= sn,
            sn == s@.len(),
            sn == kw@.len(),
            forall|j: int| 0 <= j < i ==> lower(s@[j]) == kw@[j],
        decreases sn - i,
    {
        let c = to_lower(s.get_char(i));
        let k = kw.get_char(i);
        if c != k {
            proof {
                assert(lower_seq(s@)[i as int] != kw@[i as int]);
            }
            return false;
        }
        i += 1;
    }
    proof {
        assert(lower_seq(s@) =~= kw@);
    }
    true
}

/// Whether a (case-folded) identifier is a reserved keyword of the query
/// dialect.
pub open spec fn spec_is_reserved(s: Seq<char>) -> bool {
    ||| lower_seq(s) == "add"@
    ||| lower_seq(s) == "allow"@
    ||| lower_seq(s) == "alter"@
    ||| lower_seq(s) == "and"@
    ||| lower_seq(s) == "apply"@
    ||| lower_seq(s) == "asc"@
    ||| lower_seq(s) == "authorize"@
    ||| lower_seq(s) == "batch"@
    ||| lower_seq(s) == "begin"@
    ||| lower_seq(s) == "by"@
    ||| lower_seq(s) == "columnfamily"@
    ||| lower_seq(s) == "create"@
    ||| lower_seq(s) == "delete"@
    ||| lower_seq(s) == "desc"@
    ||| lower_seq(s) == "describe"@
    ||| lower_seq(s) == "drop"@
    ||| lower_seq(s) == "entries"@
    ||| lower_seq(s) == "execute"@
    ||| lower_seq(s) == "from"@
    ||| lower_seq(s) == "full"@
    ||| lower_seq(s) == "grant"@
    ||| lower_seq(s) == "if"@
    ||| lower_seq(s) == "in"@
    ||| lower_seq(s) == "index"@
    ||| lower_seq(s) == "infinity"@
    ||| lower_seq(s) == "insert"@
    ||| lower_seq(s) == "into"@
    ||| lower_seq(s) == "keyspace"@
    ||| lower_seq(s) == "limit"@
    ||| lower_seq(s) == "modify"@
    ||| lower_seq(s) == "nan"@
    ||| lower_seq(s) == "norecursive"@
    ||| lower_seq(s) == "not"@
    ||| lower_seq(s) == "null"@
    ||| lower_seq(s) == "of"@
    ||| lower_seq(s) == "on"@
    ||| lower_seq(s) == "or"@
    ||| lower_seq(s) == "order"@
    ||| lower_seq(s) == "primary"@
    ||| lower_seq(s) == "rename"@
    ||| lower_seq(s) == "replace"@
    ||| lower_seq(s) == "revoke"@
    ||| lower_seq(s) == "schema"@
    ||| lower_seq(s) == "select"@
    ||| lower_seq(s) == "set"@
    ||| lower_seq(s) == "table"@
    ||| lower_seq(s) == "to"@
    ||| lower_seq(s) == "token"@
    ||| lower_seq(s) == "truncate"@
    ||| lower_seq(s) == "unlogged"@
    ||| lower_seq(s) == "update"@
    ||| lower_seq(s) == "use"@
    ||| lower_seq(s) == "using"@
    ||| lower_seq(s) == "where"@
    ||| lower_seq(s) == "with"@
}

/// Reports whether an identifier collides, case-insensitively, with a
/// reserved keyword.
pub fn is_reserved(s: &str) -> (r: bool)
    ensures
        r == spec_is_reserved(s@),
{
    eq_fold(s, "add") || eq_fold(s, "allow") || eq_fold(s, "alter") || eq_fold(s, "and") || eq_fold(s, "apply")
        || eq_fold(s, "asc") || eq_fold(s, "authorize") || eq_fold(s, "batch") || eq_fold(s, "begin") || eq_fold(
        s,
        "by",
    ) || eq_fold(s, "columnfamily") || eq_fold(s, "create") || eq_fold(s, "delete") || eq_fold(s, "desc")
        || eq_fold(s, "describe") || eq_fold(s, "drop") || eq_fold(s, "entries") || eq_fold(s, "execute")
        || eq_fold(s, "from") || eq_fold(s, "full") || eq_fold(s, "grant") || eq_fold(s, "if") || eq_fold(s, "in")
        || eq_fold(s, "index") || eq_fold(s, "infinity") || eq_fold(s, "insert") || eq_fold(s, "into") || eq_fold(
        s,
        "keyspace",
    ) || eq_fold(s, "limit") || eq_fold(s, "modify") || eq_fold(s, "nan") || eq_fold(s, "norecursive") || eq_fold(
        s,
        "not",
    ) || eq_fold(s, "null") || eq_fold(s, "of") || eq_fold(s, "on") || eq_fold(s, "or") || eq_fold(s, "order")
        || eq_fold(s, "primary") || eq_fold(s, "rename") || eq_fold(s, "replace") || eq_fold(s, "revoke")
        || eq_fold(s, "schema") || eq_fold(s, "select") || eq_fold(s, "set") || eq_fold(s, "table") || eq_fold(
        s,
        "to",
    ) || eq_fold(s, "token") || eq_fold(s, "truncate") || eq_fold(s, "unlogged") || eq_fold(s, "update")
        || eq_fold(s, "use") || eq_fold(s, "using") || eq_fold(s, "where") || eq_fold(s, "with")
}

} // verus!
