//! The persisted text format, stated mathematically.
//!
//! A collection is stored as a JSON array of records, each an object with
//! the keys `name`, `text`, `status` and `created_at`. `enc_tasks` is the
//! text written for a collection: the keys in declaration order, without
//! padding. `p_top` is what a text decodes to: it takes the keys in any
//! order, whitespace between tokens, the standard string escapes including
//! `\uXXXX` with surrogate pairs, and treats blank text as the empty
//! collection — any JSON array of such records.

use vstd::prelude::*;
use crate::task::{Status, TaskView, status_chars};

verus! {

// ---------- fixed tokens ----------

pub open spec fn tok_name() -> Seq<char> {
    seq!['{', '"', 'n', 'a', 'm', 'e', '"', ':']
}

pub open spec fn tok_text() -> Seq<char> {
    seq![',', '"', 't', 'e', 'x', 't', '"', ':']
}

pub open spec fn tok_status() -> Seq<char> {
    seq![',', '"', 's', 't', 'a', 't', 'u', 's', '"', ':']
}

pub open spec fn tok_created() -> Seq<char> {
    seq![',', '"', 'c', 'r', 'e', 'a', 't', 'e', 'd', '_', 'a', 't', '"', ':']
}

pub open spec fn tok_null() -> Seq<char> {
    seq!['n', 'u', 'l', 'l']
}

// ---------- encoding ----------

/// The lower-case hexadecimal digit for a value below sixteen.
pub open spec fn hex_digit(v: int) -> char {
    seq!['0', '1', '2', '3', '4', '5', '6', '7', '8', '9', 'a', 'b', 'c', 'd', 'e', 'f'][v]
}

/// How one character appears inside an encoded string: quotes and
/// backslashes take a backslash escape, control characters a `\u00XX`
/// escape, and every other character stands as itself.
pub open spec fn esc_char(c: char) -> Seq<char> {
    if c == '"' {
        seq!['\\', '"']
    } else if c == '\\' {
        seq!['\\', '\\']
    } else if (c as u32) < 32 {
        seq!['\\', 'u', '0', '0', hex_digit((c as u32) as int / 16), hex_digit((c as u32) as int % 16)]
    } else {
        seq![c]
    }
}

pub open spec fn esc_string(s: Seq<char>) -> Seq<char>
    decreases s.len(),
{
    if s.len() == 0 {
        Seq::empty()
    } else {
        esc_char(s[0]) + esc_string(s.drop_first())
    }
}

/// A string value: its escaped characters between double quotes.
pub open spec fn enc_jstring(s: Seq<char>) -> Seq<char> {
    seq!['"'] + esc_string(s) + seq!['"']
}

/// An optional text: its string value, or the word `null`.
pub open spec fn enc_text(t: Option<Seq<char>>) -> Seq<char> {
    match t {
        Some(s) => enc_jstring(s),
        None => tok_null(),
    }
}

/// A status: its word between double quotes.
pub open spec fn enc_status(st: Status) -> Seq<char> {
    seq!['"'] + status_chars(st) + seq!['"']
}

/// One record: the four keyed fields in declaration order.
pub open spec fn enc_task(t: TaskView) -> Seq<char> {
    tok_name() + enc_jstring(t.name) + tok_text() + enc_text(t.text) + tok_status() + enc_status(
        t.status,
    ) + tok_created() + enc_jstring(t.created_at) + seq!['}']
}

/// The records after the first, each preceded by a comma.
pub open spec fn enc_rest(ts: Seq<TaskView>) -> Seq<char>
    decreases ts.len(),
{
    if ts.len() == 0 {
        Seq::empty()
    } else {
        seq![','] + enc_task(ts[0]) + enc_rest(ts.drop_first())
    }
}

/// The whole collection: the records between square brackets.
pub open spec fn enc_tasks(ts: Seq<TaskView>) -> Seq<char> {
    if ts.len() == 0 {
        seq!['[', ']']
    } else {
        seq!['['] + enc_task(ts[0]) + enc_rest(ts.drop_first()) + seq![']']
    }
}

// ---------- decoding ----------

pub open spec fn is_ws(c: char) -> bool {
    c == ' ' || c == '\n' || c == '\r' || c == '\t'
}

/// The first position at or after `i` that does not hold whitespace.
pub open spec fn p_ws(s: Seq<char>, i: int) -> int
    decreases s.len() - i,
{
    if 0 <= i < s.len() && is_ws(s[i]) {
        p_ws(s, i + 1)
    } else {
        i
    }
}

/// The value of a hexadecimal digit, or a negative number for any other
/// character.
pub open spec fn hex_val(c: char) -> int {
    if '0' as int <= c as int && c as int <= '9' as int {
        c as int - '0' as int
    } else if 'a' as int <= c as int && c as int <= 'f' as int {
        c as int - 'a' as int + 10
    } else if 'A' as int <= c as int && c as int <= 'F' as int {
        c as int - 'A' as int + 10
    } else {
        -1
    }
}

/// Whether `lit` stands letter for letter at position `i` of `s`.
pub open spec fn starts_with_at(s: Seq<char>, i: int, lit: Seq<char>) -> bool {
    0 <= i && i + lit.len() <= s.len() && s.subrange(i, i + lit.len() as int) == lit
}

/// A fixed token at position `i`: the position after it, if it is there.
pub open spec fn p_lit(s: Seq<char>, i: int, lit: Seq<char>) -> Option<int> {
    if starts_with_at(s, i, lit) {
        Some(i + lit.len() as int)
    } else {
        None
    }
}

/// The value of four hexadecimal digits at position `i`, or a negative
/// number when they are not there.
pub open spec fn hex4_at(s: Seq<char>, i: int) -> int {
    if 0 <= i && i + 4 <= s.len() && hex_val(s[i]) >= 0 && hex_val(s[i + 1]) >= 0 && hex_val(
        s[i + 2],
    ) >= 0 && hex_val(s[i + 3]) >= 0 {
        hex_val(s[i]) * 4096 + hex_val(s[i + 1]) * 256 + hex_val(s[i + 2]) * 16 + hex_val(s[i + 3])
    } else {
        -1
    }
}

/// One escape, entered just after its backslash: the character it stands
/// for and the position after it. `\uXXXX` covers the whole plane: a high
/// surrogate must be followed by a low one, and a lone surrogate is
/// refused.
pub open spec fn p_escape(s: Seq<char>, i: int) -> Option<(char, int)> {
    if 0 <= i < s.len() {
        let c = s[i];
        if c == '"' {
            Some(('"', i + 1))
        } else if c == '\\' {
            Some(('\\', i + 1))
        } else if c == '/' {
            Some(('/', i + 1))
        } else if c == 'b' {
            Some(('\u{0008}', i + 1))
        } else if c == 'f' {
            Some(('\u{000c}', i + 1))
        } else if c == 'n' {
            Some(('\n', i + 1))
        } else if c == 'r' {
            Some(('\r', i + 1))
        } else if c == 't' {
            Some(('\t', i + 1))
        } else if c == 'u' {
            let v = hex4_at(s, i + 1);
            if v < 0 {
                None
            } else if 0xD800 <= v < 0xDC00 {
                if i + 6 < s.len() && s[i + 5] == '\\' && s[i + 6] == 'u' {
                    let w = hex4_at(s, i + 7);
                    if 0xDC00 <= w < 0xE000 {
                        Some(((0x10000 + (v - 0xD800) * 0x400 + (w - 0xDC00)) as char, i + 11))
                    } else {
                        None
                    }
                } else {
                    None
                }
            } else if 0xDC00 <= v < 0xE000 {
                None
            } else {
                Some((v as char, i + 5))
            }
        } else {
            None
        }
    } else {
        None
    }
}

/// A string body, entered just after its opening quote: the decoded
/// characters and the position after the closing quote. Raw control
/// characters are refused.
pub open spec fn p_strbody(s: Seq<char>, i: int) -> Option<(Seq<char>, int)>
    decreases s.len() - i,
{
    if 0 <= i < s.len() {
        let c = s[i];
        if c == '"' {
            Some((Seq::empty(), i + 1))
        } else if c == '\\' {
            match p_escape(s, i + 1) {
                Some((e, j)) => if i < j <= s.len() {
                    match p_strbody(s, j) {
                        Some((rest, k)) => Some((seq![e] + rest, k)),
                        None => None,
                    }
                } else {
                    None
                },
                None => None,
            }
        } else if (c as u32) < 32 {
            None
        } else {
            match p_strbody(s, i + 1) {
                Some((rest, k)) => Some((seq![c] + rest, k)),
                None => None,
            }
        }
    } else {
        None
    }
}

/// A quoted string value at position `i`.
pub open spec fn p_jstring(s: Seq<char>, i: int) -> Option<(Seq<char>, int)> {
    if 0 <= i < s.len() && s[i] == '"' {
        p_strbody(s, i + 1)
    } else {
        None
    }
}

/// An optional text value at position `i`: `null` or a quoted string.
pub open spec fn p_text(s: Seq<char>, i: int) -> Option<(Option<Seq<char>>, int)> {
    match p_lit(s, i, tok_null()) {
        Some(j) => Some((None, j)),
        None => match p_jstring(s, i) {
            Some((v, j)) => Some((Some(v), j)),
            None => None,
        },
    }
}

// ---------- records, key by key ----------

/// One of a record's four keys.
#[derive(Clone, Copy, Debug, PartialEq, Eq, Structural)]
pub enum Field {
    Name,
    Text,
    Status,
    Created,
}

pub open spec fn qkey_name() -> Seq<char> {
    seq!['"', 'n', 'a', 'm', 'e', '"']
}

pub open spec fn qkey_text() -> Seq<char> {
    seq!['"', 't', 'e', 'x', 't', '"']
}

pub open spec fn qkey_status() -> Seq<char> {
    seq!['"', 's', 't', 'a', 't', 'u', 's', '"']
}

pub open spec fn qkey_created() -> Seq<char> {
    seq!['"', 'c', 'r', 'e', 'a', 't', 'e', 'd', '_', 'a', 't', '"']
}

/// The quoted form of a key.
pub open spec fn qkey_of(f: Field) -> Seq<char> {
    match f {
        Field::Name => qkey_name(),
        Field::Text => qkey_text(),
        Field::Status => qkey_status(),
        Field::Created => qkey_created(),
    }
}

/// One of the four keys at position `i`.
pub open spec fn p_key(s: Seq<char>, i: int) -> Option<(Field, int)> {
    match p_lit(s, i, qkey_name()) {
        Some(j) => Some((Field::Name, j)),
        None => match p_lit(s, i, qkey_text()) {
            Some(j) => Some((Field::Text, j)),
            None => match p_lit(s, i, qkey_status()) {
                Some(j) => Some((Field::Status, j)),
                None => match p_lit(s, i, qkey_created()) {
                    Some(j) => Some((Field::Created, j)),
                    None => None,
                },
            },
        },
    }
}

/// One `key: value` pair at position `i`, whitespace allowed around the
/// colon.
pub open spec fn p_pair(s: Seq<char>, i: int) -> Option<((Field, Option<Seq<char>>), int)> {
    match p_key(s, i) {
        Some((f, j)) => {
            let j2 = p_ws(s, j);
            if 0 <= j2 < s.len() && s[j2] == ':' {
                let j3 = p_ws(s, j2 + 1);
                match p_text(s, j3) {
                    Some((v, j4)) => Some(((f, v), j4)),
                    None => None,
                }
            } else {
                None
            }
        },
        None => None,
    }
}

/// A record under construction: what the pairs read so far have filled in.
pub struct Partial {
    pub name: Option<Seq<char>>,
    pub text: Option<Option<Seq<char>>>,
    pub status: Option<Status>,
    pub created_at: Option<Seq<char>>,
}

/// A record with nothing filled in yet.
pub open spec fn empty_partial() -> Partial {
    Partial { name: None, text: None, status: None, created_at: None }
}

/// The status a quoted word stands for.
pub open spec fn status_of_word(w: Seq<char>) -> Option<Status> {
    if w == status_chars(Status::Pending) {
        Some(Status::Pending)
    } else if w == status_chars(Status::Doing) {
        Some(Status::Doing)
    } else if w == status_chars(Status::Done) {
        Some(Status::Done)
    } else {
        None
    }
}

/// Take one parsed pair into the record: a key may appear once, `name` and
/// `created_at` must be strings, and a status must be one of the three
/// words.
pub open spec fn merge(p: Partial, f: Field, v: Option<Seq<char>>) -> Option<Partial> {
    match f {
        Field::Name => match v {
            Some(w) => if p.name is None {
                Some(Partial { name: Some(w), text: p.text, status: p.status, created_at: p.created_at })
            } else {
                None
            },
            None => None,
        },
        Field::Text => if p.text is None {
            Some(Partial { name: p.name, text: Some(v), status: p.status, created_at: p.created_at })
        } else {
            None
        },
        Field::Status => match v {
            Some(w) => match status_of_word(w) {
                Some(st) => if p.status is None {
                    Some(
                        Partial {
                            name: p.name,
                            text: p.text,
                            status: Some(st),
                            created_at: p.created_at,
                        },
                    )
                } else {
                    None
                },
                None => None,
            },
            None => None,
        },
        Field::Created => match v {
            Some(w) => if p.created_at is None {
                Some(Partial { name: p.name, text: p.text, status: p.status, created_at: Some(w) })
            } else {
                None
            },
            None => None,
        },
    }
}

/// The finished record, if the name, status and creation time were all
/// given; a missing `text` key stands for no text.
pub open spec fn finish(p: Partial, end: int) -> Option<(TaskView, int)> {
    match p.name {
        Some(n) => match p.status {
            Some(st) => match p.created_at {
                Some(ca) => Some(
                    (
                        TaskView {
                            name: n,
                            text: match p.text {
                                Some(t) => t,
                                None => None,
                            },
                            status: st,
                            created_at: ca,
                        },
                        end,
                    ),
                ),
                None => None,
            },
            None => None,
        },
        None => None,
    }
}

/// The pairs of a record from position `i` on, separated by commas and
/// closed by a brace, folded into `acc`.
pub open spec fn p_fields(s: Seq<char>, i: int, acc: Partial) -> Option<(TaskView, int)>
    decreases s.len() - i,
{
    match p_pair(s, i) {
        Some(((f, v), j)) => match merge(acc, f, v) {
            Some(acc2) => {
                let j2 = p_ws(s, j);
                if 0 <= j2 < s.len() && s[j2] == ',' {
                    let j3 = p_ws(s, j2 + 1);
                    if i < j3 <= s.len() {
                        p_fields(s, j3, acc2)
                    } else {
                        None
                    }
                } else if 0 <= j2 < s.len() && s[j2] == '}' {
                    finish(acc2, j2 + 1)
                } else {
                    None
                }
            },
            None => None,
        },
        None => None,
    }
}

/// One record at position `i`: a brace, its keyed pairs in any order, a
/// closing brace.
pub open spec fn p_task(s: Seq<char>, i: int) -> Option<(TaskView, int)> {
    if 0 <= i < s.len() && s[i] == '{' {
        p_fields(s, p_ws(s, i + 1), empty_partial())
    } else {
        None
    }
}

/// The records of a non-empty array from position `i` on, separated by
/// commas and closed by a bracket.
pub open spec fn p_elems(s: Seq<char>, i: int) -> Option<(Seq<TaskView>, int)>
    decreases s.len() - i,
{
    match p_task(s, i) {
        Some((t, j)) => {
            let j2 = p_ws(s, j);
            if 0 <= j2 < s.len() && s[j2] == ',' {
                let j3 = p_ws(s, j2 + 1);
                if i < j3 <= s.len() {
                    match p_elems(s, j3) {
                        Some((ts, k)) => Some((seq![t] + ts, k)),
                        None => None,
                    }
                } else {
                    None
                }
            } else if 0 <= j2 < s.len() && s[j2] == ']' {
                Some((seq![t], j2 + 1))
            } else {
                None
            }
        },
        None => None,
    }
}

/// A whole array at position `i`.
pub open spec fn p_arr(s: Seq<char>, i: int) -> Option<(Seq<TaskView>, int)> {
    if 0 <= i < s.len() && s[i] == '[' {
        let j = p_ws(s, i + 1);
        if 0 <= j < s.len() && s[j] == ']' {
            Some((Seq::empty(), j + 1))
        } else {
            p_elems(s, j)
        }
    } else {
        None
    }
}

/// What a whole text decodes to: blank text is the empty collection, and
/// otherwise an array with nothing but whitespace around it.
pub open spec fn p_top(s: Seq<char>) -> Option<Seq<TaskView>> {
    let i = p_ws(s, 0);
    if i == s.len() {
        Some(Seq::empty())
    } else {
        match p_arr(s, i) {
            Some((ts, j)) => if p_ws(s, j) == s.len() {
                Some(ts)
            } else {
                None
            },
            None => None,
        }
    }
}

} // verus!
