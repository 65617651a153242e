//! The MongoDB call-chain grammar: `[db.]collection.verb(args)[.modifier(args)]`.
use vstd::prelude::*;
use crate::error::Error;
use crate::text::{
    lemma_pieces_concat, pieces, split_char,
    all_digits, contains, digits_value, int_value, parse_i64, parse_u64, str_contains, str_eq,
    trim, trim_str,
};

verus! {

/// The cursor modifier that may follow `find`.
#[derive(Debug, Clone, PartialEq, Eq)]
pub enum SubFunction {
    Sort(String),
    Skip(u64),
    Limit(i64),
    /// No modifier, or one that `find` does not use.
    Empty,
}

/// A MongoDB operation with its argument text, left for the driver to read.
#[derive(Debug, Clone, PartialEq, Eq)]
pub enum Function {
    Find(String, SubFunction),
    FindOne(String),
    CountDocuments(String),
    InsertOne(String),
    InsertMany(String),
    DeleteOne(String),
    DeleteMany(String),
    UpdateOne(String),
    UpdateMany(String),
    Drop,
}

pub enum SubOp {
    Sort(Seq<char>),
    Skip(int),
    Limit(int),
    Empty,
}

pub enum MongoOp {
    Find(Seq<char>, SubOp),
    FindOne(Seq<char>),
    CountDocuments(Seq<char>),
    InsertOne(Seq<char>),
    InsertMany(Seq<char>),
    DeleteOne(Seq<char>),
    DeleteMany(Seq<char>),
    UpdateOne(Seq<char>),
    UpdateMany(Seq<char>),
    Drop,
}

/// What the grammar makes of its input: an operation, a text that it cannot
/// read (with the message), or a modifier argument that is not a number.
pub enum MongoParse {
    Op(MongoOp),
    Unreadable(Seq<char>),
    Invalid(Seq<char>),
}

impl View for SubFunction {
    type V = SubOp;

    open spec fn view(&self) -> SubOp {
        match self {
            SubFunction::Sort(s) => SubOp::Sort(s@),
            SubFunction::Skip(n) => SubOp::Skip(*n as int),
            SubFunction::Limit(n) => SubOp::Limit(*n as int),
            SubFunction::Empty => SubOp::Empty,
        }
    }
}

impl View for Function {
    type V = MongoOp;

    open spec fn view(&self) -> MongoOp {
        match self {
            Function::Find(p, s) => MongoOp::Find(p@, s@),
            Function::FindOne(p) => MongoOp::FindOne(p@),
            Function::CountDocuments(p) => MongoOp::CountDocuments(p@),
            Function::InsertOne(p) => MongoOp::InsertOne(p@),
            Function::InsertMany(p) => MongoOp::InsertMany(p@),
            Function::DeleteOne(p) => MongoOp::DeleteOne(p@),
            Function::DeleteMany(p) => MongoOp::DeleteMany(p@),
            Function::UpdateOne(p) => MongoOp::UpdateOne(p@),
            Function::UpdateMany(p) => MongoOp::UpdateMany(p@),
            Function::Drop => MongoOp::Drop,
        }
    }
}

pub open spec fn is_paren(c: char) -> bool {
    c == '(' || c == ')'
}

pub open spec fn no_parens(s: Seq<char>) -> bool {
    forall|i: int| 0 <= i < s.len() ==> !is_paren(#[trigger] s[i])
}

pub open spec fn is_alpha(c: char) -> bool {
    ('a' <= c && c <= 'z') || ('A' <= c && c <= 'Z')
}

pub open spec fn all_alpha(s: Seq<char>) -> bool {
    forall|i: int| 0 <= i < s.len() ==> is_alpha(#[trigger] s[i])
}

/// The position of the first `(` in `s`, or its length.
pub open spec fn open_pos(s: Seq<char>) -> nat
    decreases s.len(),
{
    if s.len() == 0 || s[0] == '(' {
        0
    } else {
        1 + open_pos(s.drop_first())
    }
}

/// A call whose text names a numeric modifier takes only letters as its name and
/// digits as its argument.
pub open spec fn numeric_call(v: Seq<char>) -> bool {
    contains(v, "limit"@) || contains(v, "skip"@)
}

/// The name and argument text of a single call `name(args)`: the name is
/// non-empty, and neither part holds a parenthesis.
pub open spec fn call_parts(v: Seq<char>) -> Option<(Seq<char>, Seq<char>)> {
    let p = open_pos(v);
    let name = v.subrange(0, p as int);
    let args = v.subrange(p + 1 as int, v.len() - 1);
    if p >= 1 && p + 2 <= v.len() && v.last() == ')' && no_parens(name) && no_parens(args) && (
    numeric_call(v) ==> (all_alpha(name) && args.len() > 0 && all_digits(args))) {
        Some((name, args))
    } else {
        None
    }
}

pub open spec fn unsupported(v: Seq<char>) -> Seq<char> {
    "MongoDB function not supported: "@ + v
}

pub open spec fn modifier(sub: Option<Seq<char>>) -> Result<SubOp, MongoParse> {
    match sub {
        None => Ok(SubOp::Empty),
        Some(sf) => match call_parts(sf) {
            None => Err(MongoParse::Unreadable(unsupported(sf))),
            Some((sn, sp)) => if sn == "sort"@ {
                Ok(SubOp::Sort(sp))
            } else if sn == "skip"@ {
                if sp.len() > 0 && all_digits(sp) && digits_value(sp) <= u64::MAX {
                    Ok(SubOp::Skip(digits_value(sp) as int))
                } else {
                    Err(MongoParse::Invalid("skip parameter could not be cast to a number"@))
                }
            } else if sn == "limit"@ {
                match int_value(sp) {
                    Some(n) if i64::MIN <= n <= i64::MAX => Ok(SubOp::Limit(n)),
                    _ => Err(MongoParse::Invalid("limit parameter could not be cast to a number"@)),
                }
            } else {
                Ok(SubOp::Empty)
            },
        },
    }
}

/// The grammar of one call, with the modifier call that may follow it.
pub open spec fn function_grammar(f: Seq<char>, sub: Option<Seq<char>>) -> MongoParse {
    match call_parts(f) {
        None => MongoParse::Unreadable(unsupported(f)),
        Some((name, args)) => if name == "find"@ {
            match modifier(sub) {
                Ok(m) => MongoParse::Op(MongoOp::Find(args, m)),
                Err(e) => e,
            }
        } else if name == "findOne"@ {
            MongoParse::Op(MongoOp::FindOne(args))
        } else if name == "countDocuments"@ {
            MongoParse::Op(MongoOp::CountDocuments(args))
        } else if name == "insertOne"@ {
            MongoParse::Op(MongoOp::InsertOne(args))
        } else if name == "insertMany"@ {
            MongoParse::Op(MongoOp::InsertMany(args))
        } else if name == "deleteOne"@ {
            MongoParse::Op(MongoOp::DeleteOne(args))
        } else if name == "deleteMany"@ {
            MongoParse::Op(MongoOp::DeleteMany(args))
        } else if name == "updateOne"@ {
            MongoParse::Op(MongoOp::UpdateOne(args))
        } else if name == "updateMany"@ {
            MongoParse::Op(MongoOp::UpdateMany(args))
        } else if name == "drop"@ {
            MongoParse::Op(MongoOp::Drop)
        } else {
            MongoParse::Unreadable(unsupported(f))
        },
    }
}

/// `r` is what the grammar asks for.
pub open spec fn parsed_as(g: MongoParse, r: Result<Function, Error>) -> bool {
    match g {
        MongoParse::Op(op) => r matches Ok(x) && x@ == op,
        MongoParse::Unreadable(m) => r matches Err(Error::Parse(e)) && e@ == m,
        MongoParse::Invalid(m) => r matches Err(Error::Validation(e)) && e@ == m,
    }
}

fn unsupported_error(v: &str) -> (r: Error)
    ensures
        r matches Error::Parse(e) && e@ == unsupported(v@),
{
    let mut m = String::from_str("MongoDB function not supported: ");
    m.append(v);
    Error::Parse(m)
}

proof fn lemma_open_pos(s: Seq<char>, k: int)
    requires
        0 <= k <= s.len(),
        forall|i: int| 0 <= i < k ==> #[trigger] s[i] != '(',
        k == s.len() || s[k] == '(',
    ensures
        open_pos(s) == k,
    decreases k,
{
    if k > 0 {
        assert forall|i: int| 0 <= i < k - 1 implies #[trigger] s.drop_first()[i] != '(' by {
            assert(s.drop_first()[i] == s[i + 1]);
        }
        if k < s.len() {
            assert(s.drop_first()[k - 1] == s[k]);
        }
        lemma_open_pos(s.drop_first(), k - 1);
    }
}

fn has_no_parens(s: &str, from: usize, to: usize) -> (r: bool)
    requires
        from <= to <= s@.len(),
    ensures
        r == no_parens(s@.subrange(from as int, to as int)),
{
    let mut i = from;
    while i < to
        invariant
            from <= i <= to <= s@.len(),
            forall|j: int| from <= j < i ==> !is_paren(#[trigger] s@[j]),
        decreases to - i,
    {
        let c = s.get_char(i);
        if c == '(' || c == ')' {
            assert(s@.subrange(from as int, to as int)[i - from] == c);
            return false;
        }
        i = i + 1;
    }
    assert forall|j: int| 0 <= j < to - from implies !is_paren(#[trigger] s@.subrange(from as int, to as int)[j]) by {
        assert(s@.subrange(from as int, to as int)[j] == s@[from + j]);
    }
    true
}

fn all_alpha_in(s: &str, from: usize, to: usize) -> (r: bool)
    requires
        from <= to <= s@.len(),
    ensures
        r == all_alpha(s@.subrange(from as int, to as int)),
{
    let mut i = from;
    while i < to
        invariant
            from <= i <= to <= s@.len(),
            forall|j: int| from <= j < i ==> is_alpha(#[trigger] s@[j]),
        decreases to - i,
    {
        let c = s.get_char(i);
        if !(('a' <= c && c <= 'z') || ('A' <= c && c <= 'Z')) {
            assert(s@.subrange(from as int, to as int)[i - from] == c);
            return false;
        }
        i = i + 1;
    }
    assert forall|j: int| 0 <= j < to - from implies is_alpha(#[trigger] s@.subrange(from as int, to as int)[j]) by {
        assert(s@.subrange(from as int, to as int)[j] == s@[from + j]);
    }
    true
}

fn all_digits_in(s: &str, from: usize, to: usize) -> (r: bool)
    requires
        from <= to <= s@.len(),
    ensures
        r == all_digits(s@.subrange(from as int, to as int)),
{
    let mut i = from;
    while i < to
        invariant
            from <= i <= to <= s@.len(),
            forall|j: int| from <= j < i ==> crate::text::is_digit(#[trigger] s@[j]),
        decreases to - i,
    {
        let c = s.get_char(i);
        if !('0' <= c && c <= '9') {
            assert(s@.subrange(from as int, to as int)[i - from] == c);
            return false;
        }
        i = i + 1;
    }
    assert forall|j: int| 0 <= j < to - from implies crate::text::is_digit(#[trigger] s@.subrange(from as int, to as int)[j]) by {
        assert(s@.subrange(from as int, to as int)[j] == s@[from + j]);
    }
    true
}

impl Function {
    /// The name and argument text of a single call.
    pub fn get_function_and_params(value: &str) -> (r: Result<(String, String), Error>)
        ensures
            call_parts(value@) matches Some((n, a)) ==> (r matches Ok((x, y)) && x@ == n && y@ == a),
            call_parts(value@) is None ==> (r matches Err(Error::Parse(e)) && e@ == unsupported(value@)),
    {
        let n = value.unicode_len();
        let mut p: usize = 0;
        while p < n && value.get_char(p) != '('
            invariant
                n == value@.len(),
                p <= n,
                forall|i: int| 0 <= i < p ==> #[trigger] value@[i] != '(',
            decreases n - p,
        {
            p = p + 1;
        }
        proof {
            lemma_open_pos(value@, p as int);
        }
        if p < 1 || n - p < 2 || value.get_char(n - 1) != ')' {
            return Err(unsupported_error(value));
        }
        if !has_no_parens(value, 0, p) || !has_no_parens(value, p + 1, n - 1) {
            return Err(unsupported_error(value));
        }
        proof {
            reveal_strlit("limit");
            reveal_strlit("skip");
        }
        let numeric = str_contains(value, "limit") || str_contains(value, "skip");
        if numeric && !(all_alpha_in(value, 0, p) && n - p > 2 && all_digits_in(value, p + 1, n - 1)) {
            return Err(unsupported_error(value));
        }
        Ok((value.substring_char(0, p).to_owned(), value.substring_char(p + 1, n - 1).to_owned()))
    }

    /// Reads a call and, for `find`, the modifier call that may follow it.
    pub fn from(fn_str: &str, sub_fn_str: Option<&str>) -> (r: Result<Function, Error>)
        ensures
            parsed_as(
                function_grammar(
                    fn_str@,
                    match sub_fn_str {
                        Some(s) => Some(s@),
                        None => None,
                    },
                ),
                r,
            ),
    {
        let (function, params) = match Function::get_function_and_params(fn_str) {
            Ok(x) => x,
            Err(e) => return Err(e),
        };
        let name = function.as_str();
        if str_eq(name, "find") {
            let sub = match sub_fn_str {
                None => SubFunction::Empty,
                Some(f) => {
                    let (sub_function, sub_params) = match Function::get_function_and_params(f) {
                        Ok(x) => x,
                        Err(e) => return Err(e),
                    };
                    let sn = sub_function.as_str();
                    if str_eq(sn, "sort") {
                        SubFunction::Sort(sub_params)
                    } else if str_eq(sn, "skip") {
                        match parse_u64(sub_params.as_str()) {
                            Some(v) => SubFunction::Skip(v),
                            None => return Err(Error::Validation(String::from_str("skip parameter could not be cast to a number"))),
                        }
                    } else if str_eq(sn, "limit") {
                        match parse_i64(sub_params.as_str()) {
                            Some(v) => SubFunction::Limit(v),
                            None => return Err(Error::Validation(String::from_str("limit parameter could not be cast to a number"))),
                        }
                    } else {
                        SubFunction::Empty
                    }
                },
            };
            return Ok(Function::Find(params, sub));
        }
        if str_eq(name, "findOne") {
            Ok(Function::FindOne(params))
        } else if str_eq(name, "countDocuments") {
            Ok(Function::CountDocuments(params))
        } else if str_eq(name, "insertOne") {
            Ok(Function::InsertOne(params))
        } else if str_eq(name, "insertMany") {
            Ok(Function::InsertMany(params))
        } else if str_eq(name, "deleteOne") {
            Ok(Function::DeleteOne(params))
        } else if str_eq(name, "deleteMany") {
            Ok(Function::DeleteMany(params))
        } else if str_eq(name, "updateOne") {
            Ok(Function::UpdateOne(params))
        } else if str_eq(name, "updateMany") {
            Ok(Function::UpdateMany(params))
        } else if str_eq(name, "drop") {
            Ok(Function::Drop)
        } else {
            Err(unsupported_error(fn_str))
        }
    }
}

/// What the chain grammar makes of a whole command: the collection and the
/// reading of its call, or a message for a text with no call in it.
pub enum ChainParse {
    Call(Seq<char>, MongoParse),
    BadFormat(Seq<char>),
}

/// The chain grammar: the text is split at every dot; a leading `db` segment is
/// skipped; then come the collection, the call, and an optional modifier call.
pub open spec fn chain_grammar(q: Seq<char>) -> ChainParse {
    let parts = pieces(q, '.');
    if parts.len() <= 1 {
        ChainParse::BadFormat("MongoDB bad format: "@ + q)
    } else if parts[0] == "db"@ {
        if parts.len() < 3 {
            ChainParse::BadFormat("Error parsing function: "@ + q)
        } else {
            ChainParse::Call(
                parts[1],
                function_grammar(parts[2], if parts.len() > 3 { Some(parts[3]) } else { None }),
            )
        }
    } else {
        ChainParse::Call(
            parts[0],
            function_grammar(parts[1], if parts.len() > 2 { Some(parts[2]) } else { None }),
        )
    }
}

/// A leading `db.` only names the database: a command reads as the same
/// collection and call with it as without it.
pub proof fn lemma_db_prefix(rest: Seq<char>)
    requires
        pieces(rest, '.').len() >= 2,
        pieces(rest, '.')[0] != "db"@,
    ensures
        chain_grammar("db."@ + rest) == chain_grammar(rest),
{
    reveal_strlit("db.");
    reveal_strlit("db");
    let pre = seq!['d', 'b', '.'];
    assert("db."@ =~= pre);
    assert("db"@ =~= seq!['d', 'b']);
    reveal_with_fuel(pieces, 4);
    assert(pre.drop_last() =~= seq!['d', 'b']);
    assert(seq!['d', 'b'].drop_last() =~= seq!['d']);
    assert(seq!['d'].drop_last() =~= Seq::<char>::empty());
    assert(pieces(Seq::<char>::empty(), '.') =~= seq![Seq::<char>::empty()]);
    assert(Seq::<char>::empty().push('d') =~= seq!['d']);
    assert(seq![Seq::<char>::empty()].drop_last().push(Seq::<char>::empty().push('d')) =~= seq![seq!['d']]);
    assert(pieces(seq!['d'], '.') =~= seq![seq!['d']]);
    assert(seq!['d'].push('b') =~= seq!['d', 'b']);
    assert(seq![seq!['d']].drop_last().push(seq!['d'].push('b')) =~= seq![seq!['d', 'b']]);
    assert(pieces(seq!['d', 'b'], '.') =~= seq![seq!['d', 'b']]);
    assert(pieces(pre, '.') =~= seq![seq!['d', 'b'], Seq::<char>::empty()]);
    lemma_pieces_concat(pre, rest, '.');
    let parts = pieces(rest, '.');
    let all = pieces(pre + rest, '.');
    assert(all =~= seq![seq!['d', 'b']] + parts);
    assert(all[0] == "db"@);
    assert(all[1] == parts[0] && all[2] == parts[1]);
    if parts.len() > 2 {
        assert(all[3] == parts[2]);
    }
}

/// Reads a whole command into its collection name and operation. A call that
/// cannot be read is reported with the whole command text.
pub fn parse_query(queries: &str) -> (r: Result<(String, Function), Error>)
    ensures
        match chain_grammar(queries@) {
            ChainParse::BadFormat(m) => r matches Err(Error::Parse(e)) && e@ == m,
            ChainParse::Call(c, g) => match g {
                MongoParse::Unreadable(_) => r matches Err(Error::Parse(e)) && e@ == unsupported(queries@),
                MongoParse::Invalid(m) => r matches Err(Error::Validation(e)) && e@ == m,
                MongoParse::Op(op) => r matches Ok((name, f)) && name@ == c && f@ == op,
            },
        },
{
    let parts = split_char(queries, '.');
    proof {
        assert(parts@.map_values(|w: String| w@).len() == parts@.len());
        assert forall|i: int| 0 <= i < parts@.len() implies #[trigger] parts@[i]@ == pieces(queries@, '.')[i] by {
            assert(parts@.map_values(|w: String| w@)[i] == parts@[i]@);
        }
    }
    if parts.len() <= 1 {
        let mut m = String::from_str("MongoDB bad format: ");
        m.append(queries);
        return Err(Error::Parse(m));
    }
    if str_eq(parts[0].as_str(), "db") {
        if parts.len() < 3 {
            let mut m = String::from_str("Error parsing function: ");
            m.append(queries);
            return Err(Error::Parse(m));
        }
        let sub = if parts.len() > 3 { Some(parts[3].as_str()) } else { None };
        match Function::from(parts[2].as_str(), sub) {
            Ok(f) => Ok((parts[1].clone(), f)),
            Err(Error::Parse(_)) => Err(unsupported_error(queries)),
            Err(e) => Err(e),
        }
    } else {
        let sub = if parts.len() > 2 { Some(parts[2].as_str()) } else { None };
        match Function::from(parts[1].as_str(), sub) {
            Ok(f) => Ok((parts[0].clone(), f)),
            Err(Error::Parse(_)) => Err(unsupported_error(queries)),
            Err(e) => Err(e),
        }
    }
}

/// Whether `p` occurs in `s` at position `i`.
pub open spec fn occurs_at(s: Seq<char>, p: Seq<char>, i: int) -> bool {
    0 <= i && i + p.len() <= s.len() && s.subrange(i, i + p.len()) == p
}

/// The first position at or after `i` where `p` occurs in `s`.
pub open spec fn find_from(s: Seq<char>, p: Seq<char>, i: int) -> Option<int>
    decreases s.len() + 1 - i,
{
    if i < 0 || i + p.len() > s.len() {
        None
    } else if occurs_at(s, p, i) {
        Some(i)
    } else {
        find_from(s, p, i + 1)
    }
}

/// The last position of `c` in `s`.
pub open spec fn last_index(s: Seq<char>, c: char) -> Option<int>
    decreases s.len(),
{
    if s.len() == 0 {
        None
    } else if s.last() == c {
        Some(s.len() - 1)
    } else {
        last_index(s.drop_last(), c)
    }
}

/// `s` without every trailing `c`.
pub open spec fn strip_trailing(s: Seq<char>, c: char) -> Seq<char>
    decreases s.len(),
{
    if s.len() > 0 && s.last() == c {
        strip_trailing(s.drop_last(), c)
    } else {
        s
    }
}

/// The filter and update documents of an update call: the update starts at the
/// last `{` before the first `$set`; the filter is what precedes it, trimmed and
/// without trailing commas.
pub open spec fn query_and_set(f: Seq<char>) -> Option<(Seq<char>, Seq<char>)> {
    match find_from(f, "$set"@, 0) {
        None => None,
        Some(k) => {
            let start = match last_index(f.subrange(0, k), '{') {
                Some(b) => b,
                None => 0,
            };
            Some(
                (
                    strip_trailing(trim(f.subrange(0, start)), ','),
                    trim(f.subrange(start, f.len() as int)),
                ),
            )
        },
    }
}

proof fn lemma_find_from(s: Seq<char>, p: Seq<char>, i: int, k: int)
    requires
        0 <= i <= k,
        forall|j: int| i <= j < k ==> !#[trigger] occurs_at(s, p, j),
    ensures
        find_from(s, p, i) == find_from(s, p, k),
    decreases k - i,
{
    if i < k && i + p.len() <= s.len() {
        assert(!occurs_at(s, p, i));
        lemma_find_from(s, p, i + 1, k);
    }
}

proof fn lemma_last_index(s: Seq<char>, c: char, b: int)
    requires
        0 <= b <= s.len(),
        forall|j: int| b <= j < s.len() ==> #[trigger] s[j] != c,
    ensures
        last_index(s, c) == last_index(s.subrange(0, b), c),
    decreases s.len() - b,
{
    if b < s.len() {
        assert forall|j: int| b <= j < s.drop_last().len() implies #[trigger] s.drop_last()[j] != c by {
            assert(s.drop_last()[j] == s[j]);
        }
        lemma_last_index(s.drop_last(), c, b);
        assert(s.drop_last().subrange(0, b) =~= s.subrange(0, b));
    } else {
        assert(s.subrange(0, b) =~= s);
    }
}

/// Removes every trailing `c`.
fn strip_trailing_str(s: &str, c: char) -> (r: &str)
    ensures
        r@ == strip_trailing(s@, c),
{
    let n = s.unicode_len();
    let mut b = n;
    assert(s@.subrange(0, n as int) =~= s@);
    while b > 0 && s.get_char(b - 1) == c
        invariant
            n == s@.len(),
            b <= n,
            strip_trailing(s@, c) == strip_trailing(s@.subrange(0, b as int), c),
        decreases b,
    {
        assert(s@.subrange(0, b as int).drop_last() =~= s@.subrange(0, b - 1));
        b = b - 1;
    }
    assert(s@.subrange(0, n as int) =~= s@);
    s.substring_char(0, b)
}

impl Function {
    /// Splits the argument text of an update call into its filter and its update.
    pub fn get_query_and_set(filter: &str) -> (r: Result<(String, String), Error>)
        ensures
            query_and_set(filter@) matches Some((q, u)) ==> (r matches Ok((x, y)) && x@ == q && y@ == u),
            query_and_set(filter@) is None ==> (r matches Err(Error::Parse(e)) && e@ == "$set not found in update"@),
    {
        let n = filter.unicode_len();
        let mut k: usize = 0;
        proof {
            reveal_strlit("$set");
        }
        while n - k >= 4 && !str_eq(filter.substring_char(k, k + 4), "$set")
            invariant
                n == filter@.len(),
                "$set"@.len() == 4,
                k <= n,
                forall|j: int| 0 <= j < k ==> !#[trigger] occurs_at(filter@, "$set"@, j),
            decreases n - k,
        {
            k = k + 1;
        }
        if n - k < 4 {
            proof {
                lemma_find_from(filter@, "$set"@, 0, k as int);
            }
            return Err(Error::Parse(String::from_str("$set not found in update")));
        }
        proof {
            lemma_find_from(filter@, "$set"@, 0, k as int);
        }
        let mut b = k;
        while b > 0 && filter.get_char(b - 1) != '{'
            invariant
                n == filter@.len(),
                b <= k <= n,
                forall|j: int| b <= j < k ==> #[trigger] filter@.subrange(0, k as int)[j] != '{',
            decreases b,
        {
            b = b - 1;
        }
        let start = if b > 0 { b - 1 } else { 0 };
        proof {
            let pre = filter@.subrange(0, k as int);
            lemma_last_index(pre, '{', b as int);
            if b > 0 {
                assert(pre.subrange(0, b as int).last() == '{');
            } else {
                assert(pre.subrange(0, 0) =~= Seq::<char>::empty());
            }
        }
        let first = strip_trailing_str(trim_str(filter.substring_char(0, start)), ',');
        let second = trim_str(filter.substring_char(start, n));
        Ok((first.to_owned(), second.to_owned()))
    }
}

} // verus!
