//! Recursive-descent parsing of the constrained query dialect used in
//! embedded templates: columns, variables, literal values and limit clauses.
//!
//! Each parser takes the input and a cursor position and returns either a
//! parsed node with the advanced cursor, or a structured failure naming the
//! expected construct and where the unconsumed input begins. Failure is
//! always a typed result — in particular, a named variable that collides with
//! a reserved keyword is a recoverable error, never an abort.
//!
//! The grammar of each construct is written down once, as a specification
//! parser (`spec_parse_*`); every executable parser is proved to compute
//! exactly that function of the input.

use vstd::prelude::*;
use vstd::string::{StrSliceExecFns, StringExecFns};
use crate::reserved::{lower, spec_is_reserved, is_reserved, to_lower};

verus! {

/// ASCII letters.
pub open spec fn is_alpha(c: char) -> bool {
    ('a' <= c && c <= 'z') || ('A' <= c && c <= 'Z')
}

/// ASCII decimal digits.
pub open spec fn is_digit(c: char) -> bool {
    '0' <= c && c <= '9'
}

/// Characters that may open an identifier.
pub open spec fn is_ident_start(c: char) -> bool {
    is_alpha(c) || c == '_'
}

/// Characters that may continue an identifier.
pub open spec fn is_ident_char(c: char) -> bool {
    is_alpha(c) || is_digit(c) || c == '_'
}

/// The end of the maximal identifier-character run from `i`.
pub open spec fn ident_run_end(s: Seq<char>, i: int) -> int
    decreases s.len() - i when 0 <= i <= s.len()
{
    if i < s.len() && is_ident_char(s[i]) {
        ident_run_end(s, i + 1)
    } else {
        i
    }
}

/// The end of the maximal letter run from `i`.
pub open spec fn alpha_run_end(s: Seq<char>, i: int) -> int
    decreases s.len() - i when 0 <= i <= s.len()
{
    if i < s.len() && is_alpha(s[i]) {
        alpha_run_end(s, i + 1)
    } else {
        i
    }
}

/// The end of the maximal digit run from `i`.
pub open spec fn digit_run_end(s: Seq<char>, i: int) -> int
    decreases s.len() - i when 0 <= i <= s.len()
{
    if i < s.len() && is_digit(s[i]) {
        digit_run_end(s, i + 1)
    } else {
        i
    }
}

proof fn lemma_ident_run_end(s: Seq<char>, i: int)
    requires
        0 <= i <= s.len(),
    ensures
        i <= ident_run_end(s, i) <= s.len(),
        forall|j: int| i <= j < ident_run_end(s, i) ==> is_ident_char(s[j]),
        ident_run_end(s, i) == s.len() || !is_ident_char(s[ident_run_end(s, i)]),
    decreases s.len() - i,
{
    if i < s.len() && is_ident_char(s[i]) {
        lemma_ident_run_end(s, i + 1);
    }
}

proof fn lemma_alpha_run_end(s: Seq<char>, i: int)
    requires
        0 <= i <= s.len(),
    ensures
        i <= alpha_run_end(s, i) <= s.len(),
        forall|j: int| i <= j < alpha_run_end(s, i) ==> is_alpha(s[j]),
        alpha_run_end(s, i) == s.len() || !is_alpha(s[alpha_run_end(s, i)]),
    decreases s.len() - i,
{
    if i < s.len() && is_alpha(s[i]) {
        lemma_alpha_run_end(s, i + 1);
    }
}

proof fn lemma_digit_run_end(s: Seq<char>, i: int)
    requires
        0 <= i <= s.len(),
    ensures
        i <= digit_run_end(s, i) <= s.len(),
        forall|j: int| i <= j < digit_run_end(s, i) ==> is_digit(s[j]),
        digit_run_end(s, i) == s.len() || !is_digit(s[digit_run_end(s, i)]),
    decreases s.len() - i,
{
    if i < s.len() && is_digit(s[i]) {
        lemma_digit_run_end(s, i + 1);
    }
}

/// Reports whether a character is an ASCII letter.
fn alpha_exec(c: char) -> (r: bool)
    ensures
        r == is_alpha(c),
{
    ('a' <= c && c <= 'z') || ('A' <= c && c <= 'Z')
}

/// Reports whether a character is an ASCII digit.
fn digit_exec(c: char) -> (r: bool)
    ensures
        r == is_digit(c),
{
    '0' <= c && c <= '9'
}

/// Scans to the end of the identifier-character run from `pos`.
fn scan_ident_end(s: &str, pos: usize) -> (r: usize)
    requires
        pos <= s@.len(),
    ensures
        r == ident_run_end(s@, pos as int),
        pos <= r <= s@.len(),
{
    let n = s.unicode_len();
    let mut j = pos;
    loop
        invariant_except_break
            pos <= j <= n,
            n == s@.len(),
            ident_run_end(s@, pos as int) == ident_run_end(s@, j as int),
        ensures
            pos <= j <= n,
            n == s@.len(),
            j == ident_run_end(s@, pos as int),
        decreases n - j,
    {
        if j >= n {
            break ;
        }
        let c = s.get_char(j);
        if !(alpha_exec(c) || digit_exec(c) || c == '_') {
            break ;
        }
        j += 1;
    }
    j
}

/// Scans to the end of the letter run from `pos`.
fn scan_alpha_end(s: &str, pos: usize) -> (r: usize)
    requires
        pos <= s@.len(),
    ensures
        r == alpha_run_end(s@, pos as int),
        pos <= r <= s@.len(),
{
    let n = s.unicode_len();
    let mut j = pos;
    loop
        invariant_except_break
            pos <= j <= n,
            n == s@.len(),
            alpha_run_end(s@, pos as int) == alpha_run_end(s@, j as int),
        ensures
            pos <= j <= n,
            n == s@.len(),
            j == alpha_run_end(s@, pos as int),
        decreases n - j,
    {
        if j >= n {
            break ;
        }
        if !alpha_exec(s.get_char(j)) {
            break ;
        }
        j += 1;
    }
    j
}

/// Scans to the end of the digit run from `pos`.
fn scan_digit_end(s: &str, pos: usize) -> (r: usize)
    requires
        pos <= s@.len(),
    ensures
        r == digit_run_end(s@, pos as int),
        pos <= r <= s@.len(),
{
    let n = s.unicode_len();
    let mut j = pos;
    loop
        invariant_except_break
            pos <= j <= n,
            n == s@.len(),
            digit_run_end(s@, pos as int) == digit_run_end(s@, j as int),
        ensures
            pos <= j <= n,
            n == s@.len(),
            j == digit_run_end(s@, pos as int),
        decreases n - j,
    {
        if j >= n {
            break ;
        }
        if !digit_exec(s.get_char(j)) {
            break ;
        }
        j += 1;
    }
    j
}

/// The construct a failed parse expected.
#[derive(Debug, PartialEq, Eq, Clone, Copy, Structural)]
pub enum Expected {
    /// A column: an identifier or an asterisk.
    Column,
    /// A variable: `?` or `:identifier`.
    Variable,
    /// An identifier.
    Identifier,
    /// A boolean keyword.
    Boolean,
    /// A digit run.
    Number,
    /// A literal: a bare run of letters or a double-quoted one.
    Literal,
    /// A double-quote-delimited token.
    Quoted,
    /// The keyword `limit` followed by a space.
    LimitKeyword,
    /// The end of the input.
    EndOfInput,
}

/// A structured parse failure. `at` is where the unconsumed input begins.
#[derive(Debug, PartialEq, Eq, Clone)]
pub enum ParseError {
    /// The expected construct was not found at `at`.
    Unexpected {
        /// What the parser was looking for.
        expected: Expected,
        /// Position of the unconsumed input.
        at: usize,
    },
    /// A named variable collides, case-insensitively, with a reserved
    /// keyword.
    ReservedKeyword {
        /// The offending variable name.
        name: String,
        /// Position of the unconsumed input.
        at: usize,
    },
    /// A digit run denotes a number too large for the machine.
    NumberTooLarge {
        /// Position of the unconsumed input.
        at: usize,
    },
}

/// Mathematical image of [`ParseError`].
pub enum ParseErrorV {
    Unexpected { expected: Expected, at: int },
    ReservedKeyword { name: Seq<char>, at: int },
    NumberTooLarge { at: int },
}

impl View for ParseError {
    type V = ParseErrorV;

    open spec fn view(&self) -> ParseErrorV {
        match self {
            ParseError::Unexpected { expected, at } => (ParseErrorV::Unexpected {
                expected: *expected,
                at: *at as int,
            }),
            ParseError::ReservedKeyword { name, at } => (ParseErrorV::ReservedKeyword {
                name: name@,
                at: *at as int,
            }),
            ParseError::NumberTooLarge { at } => (ParseErrorV::NumberTooLarge { at: *at as int }),
        }
    }
}

/// A selected column in a read template.
#[derive(Debug, PartialEq, Eq)]
pub enum Column {
    /// A named column; a double-quote-escaped identifier keeps its quotes.
    Identifier(String),
    /// All columns.
    Asterisk,
}

/// Mathematical image of [`Column`].
pub enum ColumnV {
    Identifier(Seq<char>),
    Asterisk,
}

impl View for Column {
    type V = ColumnV;

    open spec fn view(&self) -> ColumnV {
        match self {
            Column::Identifier(name) => ColumnV::Identifier(name@),
            Column::Asterisk => ColumnV::Asterisk,
        }
    }
}

/// A query variable.
#[derive(Debug, PartialEq, Eq)]
pub enum Variable {
    /// A positional variable, rendered `?`.
    Placeholder,
    /// A named variable, rendered `:name`.
    NamedVariable(String),
}

/// Mathematical image of [`Variable`].
pub enum VariableV {
    Placeholder,
    NamedVariable(Seq<char>),
}

impl View for Variable {
    type V = VariableV;

    open spec fn view(&self) -> VariableV {
        match self {
            Variable::Placeholder => VariableV::Placeholder,
            Variable::NamedVariable(name) => VariableV::NamedVariable(name@),
        }
    }
}

/// How a variable renders back into statement text.
pub open spec fn spec_render_variable(v: VariableV) -> Seq<char> {
    match v {
        VariableV::Placeholder => "?"@,
        VariableV::NamedVariable(name) => ":"@ + name,
    }
}

impl Variable {
    /// Renders the variable as it appears in statement text.
    pub fn render(&self) -> (r: String)
        ensures
            r@ == spec_render_variable(self@),
    {
        match self {
            Variable::Placeholder => <String as vstd::string::StringExecFns>::from_str("?"),
            Variable::NamedVariable(name) => {
                let mut out = <String as vstd::string::StringExecFns>::from_str(":");
                out.append(name.as_str());
                out
            },
        }
    }
}

/// A query value: a variable, a literal, a number or a boolean.
#[derive(Debug, PartialEq, Eq)]
pub enum Value {
    /// A variable reference.
    Variable(Variable),
    /// A literal: a bare letter run, or a double-quoted run with its quotes
    /// kept.
    Literal(String),
    /// An unsigned number.
    Number(usize),
    /// A boolean keyword.
    Boolean(bool),
}

/// Mathematical image of [`Value`].
pub enum ValueV {
    Variable(VariableV),
    Literal(Seq<char>),
    Number(int),
    Boolean(bool),
}

impl View for Value {
    type V = ValueV;

    open spec fn view(&self) -> ValueV {
        match self {
            Value::Variable(v) => ValueV::Variable(v@),
            Value::Literal(s) => ValueV::Literal(s@),
            Value::Number(n) => ValueV::Number(*n as int),
            Value::Boolean(b) => ValueV::Boolean(*b),
        }
    }
}

/// The numeric value of a digit run.
pub open spec fn digits_val(ds: Seq<char>) -> int
    decreases ds.len(),
{
    if ds.len() == 0 {
        0
    } else {
        digits_val(ds.drop_last()) * 10 + (ds.last() as int - '0' as int)
    }
}

proof fn lemma_digits_val_nonneg(ds: Seq<char>)
    requires
        forall|j: int| 0 <= j < ds.len() ==> is_digit(ds[j]),
    ensures
        digits_val(ds) >= 0,
    decreases ds.len(),
{
    if ds.len() > 0 {
        lemma_digits_val_nonneg(ds.drop_last());
    }
}

proof fn lemma_digits_val_monotone(s: Seq<char>, i: int, a: int, b: int)
    requires
        0 <= i <= a <= b <= s.len(),
        forall|j: int| i <= j < b ==> is_digit(s[j]),
    ensures
        digits_val(s.subrange(i, a)) <= digits_val(s.subrange(i, b)),
    decreases b - a,
{
    if a < b {
        let sub1 = s.subrange(i, b);
        assert(sub1.drop_last() =~= s.subrange(i, b - 1));
        assert(forall|j: int| 0 <= j < s.subrange(i, b - 1).len() ==> is_digit(#[trigger] s.subrange(i, b - 1)[j]));
        lemma_digits_val_nonneg(s.subrange(i, b - 1));
        lemma_digits_val_monotone(s, i, a, b - 1);
    }
}

/// The grammar of an identifier: a letter or underscore, then letters, digits
/// and underscores, maximal.
pub open spec fn spec_parse_identifier(s: Seq<char>, i: int) -> Result<(Seq<char>, int), ParseErrorV> {
    if i < s.len() && is_ident_start(s[i]) {
        Result::Ok((s.subrange(i, ident_run_end(s, i)), ident_run_end(s, i)))
    } else {
        Result::Err(ParseErrorV::Unexpected { expected: Expected::Identifier, at: i })
    }
}

/// The grammar of a variable: `?`, or `:` and an identifier that is no
/// reserved keyword.
pub open spec fn spec_parse_variable(s: Seq<char>, i: int) -> Result<(VariableV, int), ParseErrorV> {
    if i < s.len() && s[i] == '?' {
        Result::Ok((VariableV::Placeholder, i + 1))
    } else if i < s.len() && s[i] == ':' {
        if i + 1 < s.len() && is_ident_start(s[i + 1]) {
            let end = ident_run_end(s, i + 1);
            let name = s.subrange(i + 1, end);
            if spec_is_reserved(name) {
                Result::Err(ParseErrorV::ReservedKeyword { name, at: i })
            } else {
                Result::Ok((VariableV::NamedVariable(name), end))
            }
        } else {
            Result::Err(ParseErrorV::Unexpected { expected: Expected::Identifier, at: i + 1 })
        }
    } else {
        Result::Err(ParseErrorV::Unexpected { expected: Expected::Variable, at: i })
    }
}

/// The grammar of a quoted literal: `"`, a non-empty letter run, `"`; yields
/// the run without its quotes.
pub open spec fn spec_parse_escaped(s: Seq<char>, i: int) -> Result<(Seq<char>, int), ParseErrorV> {
    if i < s.len() && s[i] == '"' {
        let end = alpha_run_end(s, i + 1);
        if end > i + 1 && end < s.len() && s[end] == '"' {
            Result::Ok((s.subrange(i + 1, end), end + 1))
        } else {
            Result::Err(ParseErrorV::Unexpected { expected: Expected::Quoted, at: i })
        }
    } else {
        Result::Err(ParseErrorV::Unexpected { expected: Expected::Quoted, at: i })
    }
}

/// The grammar of a quoted identifier: `"`, an identifier, `"`; yields the
/// identifier without its quotes.
pub open spec fn spec_parse_quoted_identifier(s: Seq<char>, i: int) -> Result<(Seq<char>, int), ParseErrorV> {
    if i < s.len() && s[i] == '"' && i + 1 < s.len() && is_ident_start(s[i + 1]) {
        let end = ident_run_end(s, i + 1);
        if end < s.len() && s[end] == '"' {
            Result::Ok((s.subrange(i + 1, end), end + 1))
        } else {
            Result::Err(ParseErrorV::Unexpected { expected: Expected::Quoted, at: i })
        }
    } else {
        Result::Err(ParseErrorV::Unexpected { expected: Expected::Quoted, at: i })
    }
}

/// The grammar of a string literal: a quoted letter run kept with its
/// surrounding quotes, or a bare non-empty letter run.
pub open spec fn spec_parse_string(s: Seq<char>, i: int) -> Result<(Seq<char>, int), ParseErrorV> {
    if spec_parse_escaped(s, i) is Ok {
        let end = spec_parse_escaped(s, i)->Ok_0.1;
        Result::Ok((s.subrange(i, end), end))
    } else if i < s.len() && is_alpha(s[i]) {
        Result::Ok((s.subrange(i, alpha_run_end(s, i)), alpha_run_end(s, i)))
    } else {
        Result::Err(ParseErrorV::Unexpected { expected: Expected::Literal, at: i })
    }
}

/// The grammar of a number: a maximal digit run, failing when its value does
/// not fit the machine.
pub open spec fn spec_parse_number(s: Seq<char>, i: int) -> Result<(int, int), ParseErrorV> {
    if i < s.len() && is_digit(s[i]) {
        let end = digit_run_end(s, i);
        let v = digits_val(s.subrange(i, end));
        if v <= usize::MAX {
            Result::Ok((v, end))
        } else {
            Result::Err(ParseErrorV::NumberTooLarge { at: i })
        }
    } else {
        Result::Err(ParseErrorV::Unexpected { expected: Expected::Number, at: i })
    }
}

/// Case-insensitive `true` at `i`.
pub open spec fn true_at(s: Seq<char>, i: int) -> bool {
    &&& i + 4 <= s.len()
    &&& lower(s[i]) == 't'
    &&& lower(s[i + 1]) == 'r'
    &&& lower(s[i + 2]) == 'u'
    &&& lower(s[i + 3]) == 'e'
}

/// Case-insensitive `false` at `i`.
pub open spec fn false_at(s: Seq<char>, i: int) -> bool {
    &&& i + 5 <= s.len()
    &&& lower(s[i]) == 'f'
    &&& lower(s[i + 1]) == 'a'
    &&& lower(s[i + 2]) == 'l'
    &&& lower(s[i + 3]) == 's'
    &&& lower(s[i + 4]) == 'e'
}

/// Case-insensitive `limit ` at `i`.
pub open spec fn limit_prefix_at(s: Seq<char>, i: int) -> bool {
    &&& i + 6 <= s.len()
    &&& lower(s[i]) == 'l'
    &&& lower(s[i + 1]) == 'i'
    &&& lower(s[i + 2]) == 'm'
    &&& lower(s[i + 3]) == 'i'
    &&& lower(s[i + 4]) == 't'
    &&& s[i + 5] == ' '
}

/// The grammar of a boolean: the keyword `true` or `false`,
/// case-insensitively.
pub open spec fn spec_parse_boolean(s: Seq<char>, i: int) -> Result<(bool, int), ParseErrorV> {
    if true_at(s, i) {
        Result::Ok((true, i + 4))
    } else if false_at(s, i) {
        Result::Ok((false, i + 5))
    } else {
        Result::Err(ParseErrorV::Unexpected { expected: Expected::Boolean, at: i })
    }
}

/// The grammar of a value. The alternatives are tried in a strict order —
/// boolean, variable, number, literal — so that a literal never swallows a
/// token that reads as a boolean or a variable. A reserved-keyword collision
/// and an oversized number surface as their own typed errors; any other
/// failure is the literal's, the last alternative tried.
pub open spec fn spec_parse_value(s: Seq<char>, i: int) -> Result<(ValueV, int), ParseErrorV> {
    if true_at(s, i) {
        Result::Ok((ValueV::Boolean(true), i + 4))
    } else if false_at(s, i) {
        Result::Ok((ValueV::Boolean(false), i + 5))
    } else if i < s.len() && (s[i] == '?' || s[i] == ':') && spec_parse_variable(s, i) is Ok {
        let (v, end) = spec_parse_variable(s, i)->Ok_0;
        Result::Ok((ValueV::Variable(v), end))
    } else if i < s.len() && s[i] == ':' && spec_parse_variable(s, i) matches Result::Err(
        ParseErrorV::ReservedKeyword { name, at },
    ) {
        Result::Err(ParseErrorV::ReservedKeyword { name: spec_parse_variable(s, i)->Err_0->ReservedKeyword_name, at: i })
    } else if i < s.len() && is_digit(s[i]) {
        match spec_parse_number(s, i) {
            Result::Ok((v, end)) => Result::Ok((ValueV::Number(v), end)),
            Result::Err(e) => Result::Err(e),
        }
    } else {
        match spec_parse_string(s, i) {
            Result::Ok((lit, end)) => Result::Ok((ValueV::Literal(lit), end)),
            Result::Err(e) => Result::Err(e),
        }
    }
}

/// The grammar of a limit clause: `limit `, case-insensitively, then one
/// value.
pub open spec fn spec_parse_limit_clause(s: Seq<char>, i: int) -> Result<(ValueV, int), ParseErrorV> {
    if limit_prefix_at(s, i) {
        spec_parse_value(s, i + 6)
    } else {
        Result::Err(ParseErrorV::Unexpected { expected: Expected::LimitKeyword, at: i })
    }
}

/// The grammar of a column: `*`, a quoted identifier kept with its quotes, or
/// a bare identifier.
pub open spec fn spec_parse_column(s: Seq<char>, i: int) -> Result<(ColumnV, int), ParseErrorV> {
    if i < s.len() && s[i] == '*' {
        Result::Ok((ColumnV::Asterisk, i + 1))
    } else if i < s.len() && s[i] == '"' {
        match spec_parse_quoted_identifier(s, i) {
            Result::Ok((_inner, end)) => Result::Ok((ColumnV::Identifier(s.subrange(i, end)), end)),
            Result::Err(_) => Result::Err(ParseErrorV::Unexpected { expected: Expected::Column, at: i }),
        }
    } else if i < s.len() && is_ident_start(s[i]) {
        Result::Ok((ColumnV::Identifier(s.subrange(i, ident_run_end(s, i))), ident_run_end(s, i)))
    } else {
        Result::Err(ParseErrorV::Unexpected { expected: Expected::Column, at: i })
    }
}

/// Parses an identifier: a letter or underscore, then letters, digits and
/// underscores.
pub fn parse_rust_flavored_variable(input: &str, pos: usize) -> (r: Result<(String, usize), ParseError>)
    requires
        pos <= input@.len(),
    ensures
        (match r {
            Result::Ok((name, end)) => end <= input@.len() && spec_parse_identifier(input@, pos as int)
                == Result::<(Seq<char>, int), ParseErrorV>::Ok((name@, end as int)),
            Result::Err(e) => spec_parse_identifier(input@, pos as int) == Result::<
                (Seq<char>, int),
                ParseErrorV,
            >::Err(e@),
        }),
{
    let n = input.unicode_len();
    if pos < n {
        let c = input.get_char(pos);
        if alpha_exec(c) || c == '_' {
            let end = scan_ident_end(input, pos);
            proof {
                lemma_ident_run_end(input@, pos as int);
            }
            let name = input.substring_char(pos, end).to_owned();
            return Ok((name, end));
        }
    }
    Err(ParseError::Unexpected { expected: Expected::Identifier, at: pos })
}

/// Parses an identifier.
pub fn parse_identifier(input: &str, pos: usize) -> (r: Result<(String, usize), ParseError>)
    requires
        pos <= input@.len(),
    ensures
        (match r {
            Result::Ok((name, end)) => end <= input@.len() && spec_parse_identifier(input@, pos as int)
                == Result::<(Seq<char>, int), ParseErrorV>::Ok((name@, end as int)),
            Result::Err(e) => spec_parse_identifier(input@, pos as int) == Result::<
                (Seq<char>, int),
                ParseErrorV,
            >::Err(e@),
        }),
{
    parse_rust_flavored_variable(input, pos)
}

/// Parses a variable: `?` gives the placeholder; `:name` gives a named
/// variable unless the name collides with a reserved keyword, which is a
/// typed error.
pub fn parse_variable(input: &str, pos: usize) -> (r: Result<(Variable, usize), ParseError>)
    requires
        pos <= input@.len(),
    ensures
        (match r {
            Result::Ok((v, end)) => end <= input@.len() && spec_parse_variable(input@, pos as int) == Result::<
                (VariableV, int),
                ParseErrorV,
            >::Ok((v@, end as int)),
            Result::Err(e) => spec_parse_variable(input@, pos as int) == Result::<
                (VariableV, int),
                ParseErrorV,
            >::Err(e@),
        }),
{
    let n = input.unicode_len();
    if pos < n && input.get_char(pos) == '?' {
        return Ok((Variable::Placeholder, pos + 1));
    }
    if pos < n && input.get_char(pos) == ':' {
        if pos + 1 < n {
            let c = input.get_char(pos + 1);
            if alpha_exec(c) || c == '_' {
                let end = scan_ident_end(input, pos + 1);
                proof {
                    lemma_ident_run_end(input@, pos + 1);
                }
                let name = input.substring_char(pos + 1, end).to_owned();
                if is_reserved(name.as_str()) {
                    return Err(ParseError::ReservedKeyword { name, at: pos });
                }
                return Ok((Variable::NamedVariable(name), end));
            }
        }
        return Err(ParseError::Unexpected { expected: Expected::Identifier, at: pos + 1 });
    }
    Err(ParseError::Unexpected { expected: Expected::Variable, at: pos })
}

/// Parses a quoted literal: a non-empty letter run between double quotes,
/// yielded without them.
pub fn parse_escaped(input: &str, pos: usize) -> (r: Result<(String, usize), ParseError>)
    requires
        pos <= input@.len(),
    ensures
        (match r {
            Result::Ok((inner, end)) => end <= input@.len() && spec_parse_escaped(input@, pos as int)
                == Result::<(Seq<char>, int), ParseErrorV>::Ok((inner@, end as int)),
            Result::Err(e) => spec_parse_escaped(input@, pos as int) == Result::<
                (Seq<char>, int),
                ParseErrorV,
            >::Err(e@),
        }),
{
    let n = input.unicode_len();
    if pos < n && input.get_char(pos) == '"' {
        let end = scan_alpha_end(input, pos + 1);
        proof {
            lemma_alpha_run_end(input@, pos + 1);
        }
        if end > pos + 1 && end < n && input.get_char(end) == '"' {
            let inner = input.substring_char(pos + 1, end).to_owned();
            return Ok((inner, end + 1));
        }
    }
    Err(ParseError::Unexpected { expected: Expected::Quoted, at: pos })
}

/// Parses a quoted identifier, yielded without its quotes.
pub fn parse_string_escaped_rust_flavored_variable(input: &str, pos: usize) -> (r: Result<
    (String, usize),
    ParseError,
>)
    requires
        pos <= input@.len(),
    ensures
        (match r {
            Result::Ok((inner, end)) => end <= input@.len() && spec_parse_quoted_identifier(input@, pos as int)
                == Result::<(Seq<char>, int), ParseErrorV>::Ok((inner@, end as int)),
            Result::Err(e) => spec_parse_quoted_identifier(input@, pos as int) == Result::<
                (Seq<char>, int),
                ParseErrorV,
            >::Err(e@),
        }),
{
    let n = input.unicode_len();
    if pos < n && input.get_char(pos) == '"' {
        if pos + 1 < n {
            let c = input.get_char(pos + 1);
            if alpha_exec(c) || c == '_' {
                let end = scan_ident_end(input, pos + 1);
                proof {
                    lemma_ident_run_end(input@, pos + 1);
                }
                if end < n && input.get_char(end) == '"' {
                    let inner = input.substring_char(pos + 1, end).to_owned();
                    return Ok((inner, end + 1));
                }
            }
        }
    }
    Err(ParseError::Unexpected { expected: Expected::Quoted, at: pos })
}

/// Parses a string literal: a quoted letter run kept with its quotes, or a
/// bare letter run.
pub fn parse_string(input: &str, pos: usize) -> (r: Result<(String, usize), ParseError>)
    requires
        pos <= input@.len(),
    ensures
        (match r {
            Result::Ok((lit, end)) => end <= input@.len() && spec_parse_string(input@, pos as int) == Result::<
                (Seq<char>, int),
                ParseErrorV,
            >::Ok((lit@, end as int)),
            Result::Err(e) => spec_parse_string(input@, pos as int) == Result::<
                (Seq<char>, int),
                ParseErrorV,
            >::Err(e@),
        }),
{
    let n = input.unicode_len();
    match parse_escaped(input, pos) {
        Result::Ok((_inner, end)) => {
            let lit = input.substring_char(pos, end).to_owned();
            Ok((lit, end))
        },
        Result::Err(_) => {
            if pos < n && alpha_exec(input.get_char(pos)) {
                let end = scan_alpha_end(input, pos);
                proof {
                    lemma_alpha_run_end(input@, pos as int);
                }
                let lit = input.substring_char(pos, end).to_owned();
                Ok((lit, end))
            } else {
                Err(ParseError::Unexpected { expected: Expected::Literal, at: pos })
            }
        },
    }
}

/// The numeric value of one digit character.
fn digit_value(c: char) -> (r: usize)
    requires
        is_digit(c),
    ensures
        r as int == c as int - '0' as int,
        r <= 9,
{
    match c {
        '0' => 0,
        '1' => 1,
        '2' => 2,
        '3' => 3,
        '4' => 4,
        '5' => 5,
        '6' => 6,
        '7' => 7,
        '8' => 8,
        _ => 9,
    }
}

/// Parses a number: a maximal digit run; a run whose value does not fit the
/// machine is a typed error.
fn parse_number(input: &str, pos: usize) -> (r: Result<(usize, usize), ParseError>)
    requires
        pos <= input@.len(),
    ensures
        (match r {
            Result::Ok((v, end)) => end <= input@.len() && spec_parse_number(input@, pos as int) == Result::<
                (int, int),
                ParseErrorV,
            >::Ok((v as int, end as int)),
            Result::Err(e) => spec_parse_number(input@, pos as int) == Result::<(int, int), ParseErrorV>::Err(
                e@,
            ),
        }),
{
    let n = input.unicode_len();
    if !(pos < n && digit_exec(input.get_char(pos))) {
        return Err(ParseError::Unexpected { expected: Expected::Number, at: pos });
    }
    let end = scan_digit_end(input, pos);
    proof {
        lemma_digit_run_end(input@, pos as int);
    }
    let mut acc: usize = 0;
    let mut k = pos;
    while k < end
        invariant
            pos <= k <= end <= n,
            n == input@.len(),
            end == digit_run_end(input@, pos as int),
            forall|j: int| pos <= j < end ==> is_digit(input@[j]),
            acc as int == digits_val(input@.subrange(pos as int, k as int)),
        decreases end - k,
    {
        let c = input.get_char(k);
        let d = digit_value(c);
        let ghost prefix = input@.subrange(pos as int, k as int);
        let ghost next = input@.subrange(pos as int, k + 1);
        proof {
            assert(next.drop_last() =~= prefix);
        }
        let m = acc.checked_mul(10);
        if m.is_none() {
            proof {
                lemma_digits_val_monotone(input@, pos as int, k + 1, end as int);
            }
            return Err(ParseError::NumberTooLarge { at: pos });
        }
        let m2 = m.unwrap().checked_add(d);
        if m2.is_none() {
            proof {
                lemma_digits_val_monotone(input@, pos as int, k + 1, end as int);
            }
            return Err(ParseError::NumberTooLarge { at: pos });
        }
        acc = m2.unwrap();
        k += 1;
    }
    Ok((acc, end))
}

/// Parses a boolean keyword, case-insensitively.
fn parse_boolean(input: &str, pos: usize) -> (r: Result<(bool, usize), ParseError>)
    requires
        pos <= input@.len(),
    ensures
        (match r {
            Result::Ok((v, end)) => end <= input@.len() && spec_parse_boolean(input@, pos as int) == Result::<
                (bool, int),
                ParseErrorV,
            >::Ok((v, end as int)),
            Result::Err(e) => spec_parse_boolean(input@, pos as int) == Result::<(bool, int), ParseErrorV>::Err(
                e@,
            ),
        }),
{
    let n = input.unicode_len();
    if n - pos >= 4 && to_lower(input.get_char(pos)) == 't' && to_lower(input.get_char(pos + 1)) == 'r'
        && to_lower(input.get_char(pos + 2)) == 'u' && to_lower(input.get_char(pos + 3)) == 'e' {
        return Ok((true, pos + 4));
    }
    if n - pos >= 5 && to_lower(input.get_char(pos)) == 'f' && to_lower(input.get_char(pos + 1)) == 'a'
        && to_lower(input.get_char(pos + 2)) == 'l' && to_lower(input.get_char(pos + 3)) == 's' && to_lower(
        input.get_char(pos + 4),
    ) == 'e' {
        return Ok((false, pos + 5));
    }
    Err(ParseError::Unexpected { expected: Expected::Boolean, at: pos })
}

/// Parses a value, trying boolean, variable, number and literal in that
/// strict order.
pub fn parse_value(input: &str, pos: usize) -> (r: Result<(Value, usize), ParseError>)
    requires
        pos <= input@.len(),
    ensures
        (match r {
            Result::Ok((v, end)) => end <= input@.len() && spec_parse_value(input@, pos as int) == Result::<
                (ValueV, int),
                ParseErrorV,
            >::Ok((v@, end as int)),
            Result::Err(e) => spec_parse_value(input@, pos as int) == Result::<(ValueV, int), ParseErrorV>::Err(
                e@,
            ),
        }),
{
    let n = input.unicode_len();
    match parse_boolean(input, pos) {
        Result::Ok((b, end)) => {
            return Ok((Value::Boolean(b), end));
        },
        Result::Err(_) => {},
    }
    if pos < n && (input.get_char(pos) == '?' || input.get_char(pos) == ':') {
        match parse_variable(input, pos) {
            Result::Ok((v, end)) => {
                return Ok((Value::Variable(v), end));
            },
            Result::Err(ParseError::ReservedKeyword { name, at: _ }) => {
                return Err(ParseError::ReservedKeyword { name, at: pos });
            },
            Result::Err(_) => {},
        }
    }
    if pos < n && digit_exec(input.get_char(pos)) {
        match parse_number(input, pos) {
            Result::Ok((v, end)) => {
                return Ok((Value::Number(v), end));
            },
            Result::Err(e) => {
                return Err(e);
            },
        }
    }
    match parse_string(input, pos) {
        Result::Ok((lit, end)) => Ok((Value::Literal(lit), end)),
        Result::Err(e) => Err(e),
    }
}

/// Parses a limit clause: the keyword `limit `, case-insensitively, then one
/// value.
pub fn parse_limit_clause(input: &str, pos: usize) -> (r: Result<(Value, usize), ParseError>)
    requires
        pos <= input@.len(),
    ensures
        (match r {
            Result::Ok((v, end)) => end <= input@.len() && spec_parse_limit_clause(input@, pos as int)
                == Result::<(ValueV, int), ParseErrorV>::Ok((v@, end as int)),
            Result::Err(e) => spec_parse_limit_clause(input@, pos as int) == Result::<
                (ValueV, int),
                ParseErrorV,
            >::Err(e@),
        }),
{
    let n = input.unicode_len();
    if n - pos >= 6 && to_lower(input.get_char(pos)) == 'l' && to_lower(input.get_char(pos + 1)) == 'i'
        && to_lower(input.get_char(pos + 2)) == 'm' && to_lower(input.get_char(pos + 3)) == 'i' && to_lower(
        input.get_char(pos + 4),
    ) == 't' && input.get_char(pos + 5) == ' ' {
        parse_value(input, pos + 6)
    } else {
        Err(ParseError::Unexpected { expected: Expected::LimitKeyword, at: pos })
    }
}

/// Parses a column: `*`, a quoted identifier kept with its quotes, or a bare
/// identifier.
pub fn parse_column(input: &str, pos: usize) -> (r: Result<(Column, usize), ParseError>)
    requires
        pos <= input@.len(),
    ensures
        (match r {
            Result::Ok((c, end)) => end <= input@.len() && spec_parse_column(input@, pos as int) == Result::<
                (ColumnV, int),
                ParseErrorV,
            >::Ok((c@, end as int)),
            Result::Err(e) => spec_parse_column(input@, pos as int) == Result::<(ColumnV, int), ParseErrorV>::Err(
                e@,
            ),
        }),
{
    let n = input.unicode_len();
    if pos < n && input.get_char(pos) == '*' {
        return Ok((Column::Asterisk, pos + 1));
    }
    if pos < n && input.get_char(pos) == '"' {
        match parse_string_escaped_rust_flavored_variable(input, pos) {
            Result::Ok((_inner, end)) => {
                proof {
                    lemma_ident_run_end(input@, pos + 1);
                }
                let name = input.substring_char(pos, end).to_owned();
                return Ok((Column::Identifier(name), end));
            },
            Result::Err(_) => {
                return Err(ParseError::Unexpected { expected: Expected::Column, at: pos });
            },
        }
    }
    if pos < n {
        let c = input.get_char(pos);
        if alpha_exec(c) || c == '_' {
            let end = scan_ident_end(input, pos);
            proof {
                lemma_ident_run_end(input@, pos as int);
            }
            let name = input.substring_char(pos, end).to_owned();
            return Ok((Column::Identifier(name), end));
        }
    }
    Err(ParseError::Unexpected { expected: Expected::Column, at: pos })
}

/// Succeeds only at the end of the input.
pub fn eof(input: &str, pos: usize) -> (r: Result<(), ParseError>)
    requires
        pos <= input@.len(),
    ensures
        (match r {
            Result::Ok(()) => pos == input@.len(),
            Result::Err(e) => pos < input@.len() && e@ == (ParseErrorV::Unexpected {
                expected: Expected::EndOfInput,
                at: pos as int,
            }),
        }),
{
    if pos == input.unicode_len() {
        Ok(())
    } else {
        Err(ParseError::Unexpected { expected: Expected::EndOfInput, at: pos })
    }
}

} // verus!
