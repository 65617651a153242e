//! The Redis line grammar: one command line to one validated command.
use vstd::prelude::*;
use crate::error::Error;
use crate::text::{
    first_ws, int_value, parse_i64, split_words, str_eq, str_starts_with, trim, trim_str, word_len,
    words, starts_with,
};

verus! {

/// A validated Redis command; every required field is present.
#[derive(Debug, Clone, PartialEq, Eq)]
pub enum Command {
    Get(String),
    SetKey { key: String, value: String },
    Del(Vec<String>),
    Exists(String),
    Keys(String),
    Expire { key: String, seconds: i64 },
    Ttl(String),
    FlushAll,
}

/// The mathematical content of a command.
pub enum RedisOp {
    Get(Seq<char>),
    SetKey(Seq<char>, Seq<char>),
    Del(Seq<Seq<char>>),
    Exists(Seq<char>),
    Keys(Seq<char>),
    Expire(Seq<char>, int),
    Ttl(Seq<char>),
    FlushAll,
}

/// What the grammar makes of a line: a command, a validation failure with its
/// message, or a line that names no supported verb.
pub enum RedisParse {
    Op(RedisOp),
    Invalid(Seq<char>),
    Unknown,
}

impl View for Command {
    type V = RedisOp;

    open spec fn view(&self) -> RedisOp {
        match self {
            Command::Get(k) => RedisOp::Get(k@),
            Command::SetKey { key, value } => RedisOp::SetKey(key@, value@),
            Command::Del(keys) => RedisOp::Del(keys@.map_values(|k: String| k@)),
            Command::Exists(k) => RedisOp::Exists(k@),
            Command::Keys(k) => RedisOp::Keys(k@),
            Command::Expire { key, seconds } => RedisOp::Expire(key@, *seconds as int),
            Command::Ttl(k) => RedisOp::Ttl(k@),
            Command::FlushAll => RedisOp::FlushAll,
        }
    }
}

/// What follows `verb` in `t`, trimmed.
pub open spec fn after(t: Seq<char>, verb: Seq<char>) -> Seq<char> {
    trim(t.subrange(verb.len() as int, t.len() as int))
}

/// The single argument of a one-key verb.
pub open spec fn key_arg(t: Seq<char>, verb: Seq<char>, f: spec_fn(Seq<char>) -> RedisOp) -> RedisParse {
    let k = after(t, verb);
    if k.len() == 0 {
        RedisParse::Invalid("key is empty"@)
    } else {
        RedisParse::Op(f(k))
    }
}

/// One matching pair of surrounding double quotes removed, if there is one.
pub open spec fn unquote(v: Seq<char>) -> Seq<char> {
    if v.len() >= 2 && v[0] == '"' && v.last() == '"' {
        v.subrange(1, v.len() - 1)
    } else {
        v
    }
}

pub open spec fn set_args(values: Seq<char>) -> RedisParse {
    let p = word_len(values);
    if values.len() == 0 {
        RedisParse::Invalid("values are empty"@)
    } else if p == values.len() {
        RedisParse::Invalid("Missing second value"@)
    } else {
        let value = unquote(trim(values.subrange(p as int, values.len() as int)));
        if value.len() == 0 {
            RedisParse::Invalid("value is empty"@)
        } else {
            RedisParse::Op(RedisOp::SetKey(values.subrange(0, p as int), value))
        }
    }
}

pub open spec fn expire_args(values: Seq<char>) -> RedisParse {
    let ws = words(values);
    if values.len() == 0 {
        RedisParse::Invalid("values are empty"@)
    } else if ws.len() < 2 {
        RedisParse::Invalid("Missing second value"@)
    } else if ws.len() > 2 {
        RedisParse::Invalid("Too many values"@)
    } else {
        match int_value(ws[1]) {
            Some(v) if i64::MIN <= v <= i64::MAX => RedisParse::Op(RedisOp::Expire(ws[0], v)),
            _ => RedisParse::Invalid("Failed to parse seconds as number"@),
        }
    }
}

/// The grammar: the line is trimmed, then its verb is found by prefix, in a
/// fixed order, with `FLUSHALL` taken only as the whole line.
pub open spec fn redis_grammar(q: Seq<char>) -> RedisParse {
    let t = trim(q);
    if starts_with(t, "GET"@) {
        key_arg(t, "GET"@, |k: Seq<char>| RedisOp::Get(k))
    } else if starts_with(t, "TTL"@) {
        key_arg(t, "TTL"@, |k: Seq<char>| RedisOp::Ttl(k))
    } else if starts_with(t, "KEYS"@) {
        key_arg(t, "KEYS"@, |k: Seq<char>| RedisOp::Keys(k))
    } else if starts_with(t, "EXISTS"@) {
        key_arg(t, "EXISTS"@, |k: Seq<char>| RedisOp::Exists(k))
    } else if t == "FLUSHALL"@ {
        RedisParse::Op(RedisOp::FlushAll)
    } else if starts_with(t, "DEL"@) {
        let keys = after(t, "DEL"@);
        if keys.len() == 0 {
            RedisParse::Invalid("keys is empty"@)
        } else {
            RedisParse::Op(RedisOp::Del(words(keys)))
        }
    } else if starts_with(t, "EXPIRE"@) {
        expire_args(after(t, "EXPIRE"@))
    } else if starts_with(t, "SET"@) {
        set_args(after(t, "SET"@))
    } else {
        RedisParse::Unknown
    }
}

/// The message of an unsupported line.
pub open spec fn unsupported_msg(q: Seq<char>) -> Seq<char> {
    "Command '"@ + trim(q) + "' not supported!"@
}

/// `r` is what the grammar asks for on `q`.
pub open spec fn parsed_as(q: Seq<char>, r: Result<Command, Error>) -> bool {
    match redis_grammar(q) {
        RedisParse::Op(op) => r matches Ok(c) && c@ == op,
        RedisParse::Invalid(m) => r matches Err(Error::Validation(e)) && e@ == m,
        RedisParse::Unknown => r matches Err(Error::Unsupported(e)) && e@ == unsupported_msg(q),
    }
}

/// The text after `verb`, trimmed.
fn rest_after<'a>(t: &'a str, verb: &str) -> (r: &'a str)
    requires
        starts_with(t@, verb@),
    ensures
        r@ == after(t@, verb@),
{
    let n = t.unicode_len();
    trim_str(t.substring_char(verb.unicode_len(), n))
}

impl Command {
    /// The argument of a one-key verb, or a validation error when there is none.
    pub fn take_key(queries: &str, command: &str) -> (r: Result<String, Error>)
        requires
            starts_with(queries@, command@),
        ensures
            after(queries@, command@).len() > 0 ==> (r matches Ok(k) && k@ == after(queries@, command@)),
            after(queries@, command@).len() == 0 ==> (r matches Err(Error::Validation(e)) && e@
                == "key is empty"@),
    {
        let key = rest_after(queries, command);
        if key.unicode_len() == 0 {
            Err(Error::Validation(String::from_str("key is empty")))
        } else {
            Ok(key.to_owned())
        }
    }

    fn set_from(values: &str) -> (r: Result<Command, Error>)
        ensures
            match set_args(values@) {
                RedisParse::Op(op) => r matches Ok(c) && c@ == op,
                RedisParse::Invalid(m) => r matches Err(Error::Validation(e)) && e@ == m,
                RedisParse::Unknown => false,
            },
    {
        let n = values.unicode_len();
        if n == 0 {
            return Err(Error::Validation(String::from_str("values are empty")));
        }
        let p = first_ws(values);
        if p == n {
            return Err(Error::Validation(String::from_str("Missing second value")));
        }
        let key = values.substring_char(0, p);
        let raw = trim_str(values.substring_char(p, n));
        let m = raw.unicode_len();
        let value = if m >= 2 && raw.get_char(0) == '"' && raw.get_char(m - 1) == '"' {
            raw.substring_char(1, m - 1)
        } else {
            raw
        };
        if value.unicode_len() == 0 {
            return Err(Error::Validation(String::from_str("value is empty")));
        }
        Ok(Command::SetKey { key: key.to_owned(), value: value.to_owned() })
    }

    fn expire_from(values: &str) -> (r: Result<Command, Error>)
        ensures
            match expire_args(values@) {
                RedisParse::Op(op) => r matches Ok(c) && c@ == op,
                RedisParse::Invalid(m) => r matches Err(Error::Validation(e)) && e@ == m,
                RedisParse::Unknown => false,
            },
    {
        if values.unicode_len() == 0 {
            return Err(Error::Validation(String::from_str("values are empty")));
        }
        let ws = split_words(values);
        proof {
            assert(ws@.map_values(|w: String| w@).len() == ws@.len());
        }
        if ws.len() < 2 {
            return Err(Error::Validation(String::from_str("Missing second value")));
        }
        if ws.len() > 2 {
            return Err(Error::Validation(String::from_str("Too many values")));
        }
        assert(ws@[0]@ == words(values@)[0]);
        assert(ws@[1]@ == words(values@)[1]);
        match parse_i64(ws[1].as_str()) {
            Some(seconds) => Ok(Command::Expire { key: ws[0].clone(), seconds }),
            None => Err(Error::Validation(String::from_str("Failed to parse seconds as number"))),
        }
    }

    /// Reads one command line.
    pub fn convert(queries: &str) -> (r: Result<Command, Error>)
        ensures
            parsed_as(queries@, r),
    {
        let t = trim_str(queries);
        if str_starts_with(t, "GET") {
            return match Command::take_key(t, "GET") {
                Ok(k) => Ok(Command::Get(k)),
                Err(e) => Err(e),
            };
        }
        if str_starts_with(t, "TTL") {
            return match Command::take_key(t, "TTL") {
                Ok(k) => Ok(Command::Ttl(k)),
                Err(e) => Err(e),
            };
        }
        if str_starts_with(t, "KEYS") {
            return match Command::take_key(t, "KEYS") {
                Ok(k) => Ok(Command::Keys(k)),
                Err(e) => Err(e),
            };
        }
        if str_starts_with(t, "EXISTS") {
            return match Command::take_key(t, "EXISTS") {
                Ok(k) => Ok(Command::Exists(k)),
                Err(e) => Err(e),
            };
        }
        if str_eq(t, "FLUSHALL") {
            return Ok(Command::FlushAll);
        }
        if str_starts_with(t, "DEL") {
            let keys = rest_after(t, "DEL");
            if keys.unicode_len() == 0 {
                return Err(Error::Validation(String::from_str("keys is empty")));
            }
            return Ok(Command::Del(split_words(keys)));
        }
        if str_starts_with(t, "EXPIRE") {
            return Command::expire_from(rest_after(t, "EXPIRE"));
        }
        if str_starts_with(t, "SET") {
            return Command::set_from(rest_after(t, "SET"));
        }
        let mut m = String::from_str("Command '");
        m.append(t);
        m.append("' not supported!");
        Err(Error::Unsupported(m))
    }
}

/// A Redis request: the command line that a run reads.
#[derive(Debug, Clone)]
pub struct Redis {
    pub queries: String,
}

impl Redis {
    /// A request for one command line.
    pub fn new(queries: &str) -> (r: Redis)
        ensures
            r.queries@ == queries@,
    {
        Redis { queries: queries.to_owned() }
    }

    /// The command that this request runs, read by the grammar.
    pub fn run(&self) -> (r: Result<Command, Error>)
        ensures
            parsed_as(self.queries@, r),
    {
        Command::convert(self.queries.as_str())
    }
}

} // verus!
