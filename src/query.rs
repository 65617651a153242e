//! SQL text helpers: statement kind, statement splitting and comment stripping.
use vstd::prelude::*;
use crate::text::{
    decimal, push_decimal,
    contains, lower_of, pieces, split_char, starts_with, str_contains, str_starts_with, to_lower,
    trim, trim_str,
};

verus! {

/// Whether the statement, trimmed and lower-cased, begins with `select`.
pub open spec fn select_query(q: Seq<char>) -> bool {
    starts_with(lower_of(trim(q)), "select"@)
}

/// Whether the statement, trimmed and lower-cased, mentions `insert`, `update` or `delete`.
pub open spec fn changes_rows(q: Seq<char>) -> bool {
    let l = lower_of(trim(q));
    contains(l, "insert"@) || contains(l, "update"@) || contains(l, "delete"@)
}

/// The trimmed pieces among the first `k` of `ps` that are not empty, in order.
pub open spec fn kept(ps: Seq<Seq<char>>, k: nat) -> Seq<Seq<char>>
    decreases k,
{
    if k == 0 {
        seq![]
    } else if trim(ps[k - 1]).len() == 0 {
        kept(ps, (k - 1) as nat)
    } else {
        kept(ps, (k - 1) as nat).push(trim(ps[k - 1]))
    }
}

/// The statements of a script: its pieces between semicolons, trimmed, empty ones dropped.
pub open spec fn statements(q: Seq<char>) -> Seq<Seq<char>> {
    kept(pieces(q, ';'), pieces(q, ';').len())
}

/// The pattern of the lexical items that comment stripping looks for, in the
/// order tried: a single-quoted string (`''` escapes a quote), a double-quoted
/// string (`""` escapes), a block comment (shortest), a line comment. Strings
/// are captured so that they are kept.
pub open spec fn comment_pattern() -> Seq<char> {
    r#"('(?:[^']|'')*'|"(?:[^"]|"")*")|/\*(?:.|\n)*?\*/|--[^\n]*"#@
}

/// What `regex` gives for replacing every match of `pattern` in `text` by the
/// expansion of `rep`.
pub uninterp spec fn regex_replaced(pattern: Seq<char>, text: Seq<char>, rep: Seq<char>) -> Seq<char>;

/// Relies on `regex::Regex::new`, which fails only on a pattern that is invalid
/// or over the size limit, and so never on the fixed comment pattern, and on
/// `regex::Regex::replace_all`, whose result depends on the pattern, the text
/// and the replacement alone.
#[verifier::external_body]
fn regex_replace_all(pattern: &str, text: &str, rep: &str) -> (r: Option<String>)
    ensures
        r matches Some(s) ==> s@ == regex_replaced(pattern@, text@, rep@),
        pattern@ == comment_pattern() ==> r is Some,
{
    regex::Regex::new(pattern).ok().map(|re| re.replace_all(text, rep).into_owned())
}

/// Whether a statement reads rows.
pub fn is_select_query(query: &str) -> (r: bool)
    ensures
        r == select_query(query@),
{
    let l = to_lower(trim_str(query));
    str_starts_with(l.as_str(), "select")
}

/// Whether a statement changes rows, so that an affected-row count is worth reporting.
pub fn is_insert_update_or_delete(query: &str) -> (r: bool)
    ensures
        r == changes_rows(query@),
{
    let l = to_lower(trim_str(query));
    str_contains(l.as_str(), "insert") || str_contains(l.as_str(), "update") || str_contains(
        l.as_str(),
        "delete",
    )
}

/// The statements of a script, in order.
pub fn split_queries(queries: &str) -> (r: Vec<String>)
    ensures
        r@.map_values(|s: String| s@) == statements(queries@),
{
    let ps = split_char(queries, ';');
    let ghost pv = pieces(queries@, ';');
    proof {
        assert(ps@.map_values(|w: String| w@).len() == ps@.len());
    }
    let mut out: Vec<String> = Vec::new();
    let mut k: usize = 0;
    while k < ps.len()
        invariant
            k <= ps@.len(),
            ps@.map_values(|w: String| w@) == pv,
            pv.len() == ps@.len(),
            out@.map_values(|s: String| s@) == kept(pv, k as nat),
        decreases ps@.len() - k,
    {
        assert(ps@[k as int]@ == pv[k as int]) by {
            assert(ps@.map_values(|w: String| w@)[k as int] == ps@[k as int]@);
        }
        let t = trim_str(ps[k].as_str());
        if t.unicode_len() > 0 {
            out.push(t.to_owned());
            assert(out@.map_values(|s: String| s@) =~= kept(pv, k as nat).push(trim(pv[k as int])));
        }
        k = k + 1;
    }
    out
}

/// The script with its comments removed and its string literals kept whole.
pub fn strip_sql_comments(sql: &str) -> (r: String)
    ensures
        r@ == regex_replaced(comment_pattern(), sql@, "$1"@),
{
    match regex_replace_all(r#"('(?:[^']|'')*'|"(?:[^"]|"")*")|/\*(?:.|\n)*?\*/|--[^\n]*"#, sql, "$1") {
        Some(s) => s,
        None => String::new(),
    }
}

/// How one statement of a script ended.
#[derive(Debug, Clone, PartialEq, Eq)]
pub enum StatementOutcome {
    /// A row-changing statement ran and changed this many rows.
    Affected(u64),
    /// Any other statement ran.
    Done,
    /// The backend refused the statement, with its message.
    Failed(String),
}

/// The report line of the statement at 0-based position `i`.
pub open spec fn status_text(i: nat, o: StatementOutcome) -> Seq<char> {
    decimal(i + 1) + ")   "@ + match o {
        StatementOutcome::Affected(n) => "Row(s) affected: "@ + decimal(n as nat),
        StatementOutcome::Done => "Statement executed correctly."@,
        StatementOutcome::Failed(m) => m@,
    }
}

/// The numbered report line of one statement of a script.
pub fn numbered_status(index: usize, outcome: &StatementOutcome) -> (r: String)
    requires
        index < u64::MAX,
    ensures
        r@ == status_text(index as nat, *outcome),
{
    let mut s = String::new();
    push_decimal(&mut s, index as u64 + 1);
    s.append(")   ");
    match outcome {
        StatementOutcome::Affected(n) => {
            s.append("Row(s) affected: ");
            push_decimal(&mut s, *n);
        },
        StatementOutcome::Done => s.append("Statement executed correctly."),
        StatementOutcome::Failed(m) => s.append(m.as_str()),
    }
    assert(s@ =~= status_text(index as nat, *outcome));
    s
}

} // verus!
