//! Reading a collection back from its persisted text.

use vstd::prelude::*;
use crate::codec::{
    empty_partial, finish, hex4_at, hex_val, merge, p_arr, p_elems, p_escape, p_fields, p_jstring,
    p_key, p_lit, p_pair, p_strbody, p_task, p_text, p_top, p_ws, qkey_created, qkey_name,
    qkey_status, qkey_text, status_of_word, tok_null, Field, Partial,
};
use crate::error::Error;
use crate::strutil::str_chars;
use crate::task::{opt_view, seq_view, status_chars, Status, Task, TaskView};

verus! {

/// The value of a hexadecimal digit, or a negative number.
fn x_hexval(c: char) -> (r: i8)
    ensures
        r as int == hex_val(c),
{
    if c >= '0' && c <= '9' {
        ((c as u32) - ('0' as u32)) as i8
    } else if c >= 'a' && c <= 'f' {
        ((c as u32) - ('a' as u32) + 10) as i8
    } else if c >= 'A' && c <= 'F' {
        ((c as u32) - ('A' as u32) + 10) as i8
    } else {
        -1
    }
}

/// The value of four hexadecimal digits, or a negative number.
fn x_hex4(cs: &Vec<char>, i: usize) -> (r: i32)
    ensures
        r as int == hex4_at(cs@, i as int),
{
    let n = cs.len();
    if n < 4 || i > n - 4 {
        return -1;
    }
    let h0 = x_hexval(cs[i]);
    let h1 = x_hexval(cs[i + 1]);
    let h2 = x_hexval(cs[i + 2]);
    let h3 = x_hexval(cs[i + 3]);
    if h0 < 0 || h1 < 0 || h2 < 0 || h3 < 0 {
        return -1;
    }
    (h0 as i32) * 4096 + (h1 as i32) * 256 + (h2 as i32) * 16 + (h3 as i32)
}

/// Match a fixed token at position `i`.
fn x_lit<const N: usize>(cs: &Vec<char>, i: usize, lit: &[char; N]) -> (r: Option<usize>)
    requires
        N >= 1,
    ensures
        match r {
            Some(j) => p_lit(cs@, i as int, lit@) == Some(j as int) && i < j <= cs@.len(),
            None => p_lit(cs@, i as int, lit@) is None,
        },
{
    let n = cs.len();
    if n < N || i > n - N {
        return None;
    }
    let mut k: usize = 0;
    while k < N
        invariant
            k <= N,
            n == cs@.len(),
            i + N <= n,
            forall|q: int| 0 <= q < k ==> cs@[i + q] == lit@[q],
        decreases N - k,
    {
        if cs[i + k] != lit[k] {
            proof {
                if cs@.subrange(i as int, i + N as int) == lit@ {
                    assert(cs@.subrange(i as int, i + N as int)[k as int] == cs@[i + k]);
                }
            }
            return None;
        }
        k += 1;
    }
    proof {
        assert(cs@.subrange(i as int, i + N as int) =~= lit@);
    }
    Some(i + N)
}

/// One escape, entered just after its backslash.
fn x_escape(cs: &Vec<char>, q: usize) -> (r: Option<(char, usize)>)
    ensures
        match r {
            Some((e, j)) => p_escape(cs@, q as int) == Some((e, j as int)) && q < j <= cs@.len(),
            None => p_escape(cs@, q as int) is None,
        },
{
    if q >= cs.len() {
        return None;
    }
    let c = cs[q];
    if c == '"' {
        Some(('"', q + 1))
    } else if c == '\\' {
        Some(('\\', q + 1))
    } else if c == '/' {
        Some(('/', q + 1))
    } else if c == 'b' {
        Some(('\u{0008}', q + 1))
    } else if c == 'f' {
        Some(('\u{000c}', q + 1))
    } else if c == 'n' {
        Some(('\n', q + 1))
    } else if c == 'r' {
        Some(('\r', q + 1))
    } else if c == 't' {
        Some(('\t', q + 1))
    } else if c == 'u' {
        let v = x_hex4(cs, q + 1);
        if v < 0 {
            None
        } else if v >= 0xD800 && v < 0xDC00 {
            if cs.len() - q >= 7 && cs[q + 5] == '\\' && cs[q + 6] == 'u' {
                let w = x_hex4(cs, q + 7);
                if w >= 0xDC00 && w < 0xE000 {
                    let code: u32 = 0x10000 + ((v as u32) - 0xD800) * 0x400 + ((w as u32)
                        - 0xDC00);
                    match char::from_u32(code) {
                        Some(e) => Some((e, q + 11)),
                        None => None,
                    }
                } else {
                    None
                }
            } else {
                None
            }
        } else if v >= 0xDC00 && v < 0xE000 {
            None
        } else {
            match char::from_u32(v as u32) {
                Some(e) => Some((e, q + 5)),
                None => None,
            }
        }
    } else {
        None
    }
}

/// A string body, entered just after its opening quote.
fn x_strbody(cs: &Vec<char>, start: usize) -> (r: Option<(String, usize)>)
    requires
        start <= cs@.len(),
    ensures
        match r {
            Some((v, j)) => p_strbody(cs@, start as int) == Some((v@, j as int)) && start < j
                <= cs@.len(),
            None => p_strbody(cs@, start as int) is None,
        },
{
    let mut out = String::new();
    let mut i = start;
    proof {
        match p_strbody(cs@, start as int) {
            Some((rest, k)) => {
                assert(Seq::<char>::empty() + rest =~= rest);
            },
            None => {},
        }
    }
    loop
        invariant
            start <= i <= cs@.len(),
            p_strbody(cs@, start as int) == (match p_strbody(cs@, i as int) {
                Some((rest, k)) => Some((out@ + rest, k)),
                None => None::<(Seq<char>, int)>,
            }),
        decreases cs@.len() - i,
    {
        if i >= cs.len() {
            proof {
                reveal_with_fuel(p_strbody, 2);
            }
            return None;
        }
        let c = cs[i];
        if c == '"' {
            proof {
                reveal_with_fuel(p_strbody, 2);
                assert(out@ + Seq::<char>::empty() =~= out@);
            }
            return Some((out, i + 1));
        } else if c == '\\' {
            match x_escape(cs, i + 1) {
                Some((e, j)) => {
                    let ghost pre = out@;
                    out.push(e);
                    proof {
                        reveal_with_fuel(p_strbody, 2);
                        match p_strbody(cs@, j as int) {
                            Some((rest, k)) => {
                                assert(pre + (seq![e] + rest) =~= pre.push(e) + rest);
                            },
                            None => {},
                        }
                        assert(p_strbody(cs@, start as int) == (match p_strbody(cs@, j as int) {
                            Some((rest, k)) => Some((out@ + rest, k)),
                            None => None::<(Seq<char>, int)>,
                        }));
                    }
                    i = j;
                },
                None => {
                    proof {
                        reveal_with_fuel(p_strbody, 2);
                        assert(p_strbody(cs@, i as int) is None);
                    }
                    return None;
                },
            }
        } else if (c as u32) < 32 {
            proof {
                reveal_with_fuel(p_strbody, 2);
                assert(p_strbody(cs@, i as int) is None);
            }
            return None;
        } else {
            let ghost pre = out@;
            out.push(c);
            proof {
                reveal_with_fuel(p_strbody, 2);
                match p_strbody(cs@, (i + 1) as int) {
                    Some((rest, k)) => {
                        assert(pre + (seq![c] + rest) =~= pre.push(c) + rest);
                    },
                    None => {},
                }
                assert(p_strbody(cs@, start as int) == (match p_strbody(cs@, (i + 1) as int) {
                    Some((rest, k)) => Some((out@ + rest, k)),
                    None => None::<(Seq<char>, int)>,
                }));
            }
            i = i + 1;
        }
    }
}

/// A quoted string value at position `i`.
fn x_jstring(cs: &Vec<char>, i: usize) -> (r: Option<(String, usize)>)
    ensures
        match r {
            Some((v, j)) => p_jstring(cs@, i as int) == Some((v@, j as int)) && i < j <= cs@.len(),
            None => p_jstring(cs@, i as int) is None,
        },
{
    if i < cs.len() && cs[i] == '"' {
        x_strbody(cs, i + 1)
    } else {
        None
    }
}

/// An optional text value at position `i`.
fn x_text(cs: &Vec<char>, i: usize) -> (r: Option<(Option<String>, usize)>)
    ensures
        match r {
            Some((v, j)) => p_text(cs@, i as int) == Some((opt_view(v), j as int)) && i < j
                <= cs@.len(),
            None => p_text(cs@, i as int) is None,
        },
{
    let null_tok = ['n', 'u', 'l', 'l'];
    proof {
        assert(null_tok@ =~= tok_null());
    }
    match x_lit(cs, i, &null_tok) {
        Some(j) => Some((None, j)),
        None => match x_jstring(cs, i) {
            Some((v, j)) => Some((Some(v), j)),
            None => None,
        },
    }
}

/// The status a quoted word stands for.
fn word_status(w: &String) -> (r: Option<Status>)
    ensures
        r == status_of_word(w@),
{
    let pending = "Pending".to_owned();
    let doing = "Doing".to_owned();
    let done = "Done".to_owned();
    proof {
        reveal_strlit("Pending");
        reveal_strlit("Doing");
        reveal_strlit("Done");
        assert(pending@ =~= status_chars(Status::Pending));
        assert(doing@ =~= status_chars(Status::Doing));
        assert(done@ =~= status_chars(Status::Done));
    }
    if *w == pending {
        Some(Status::Pending)
    } else if *w == doing {
        Some(Status::Doing)
    } else if *w == done {
        Some(Status::Done)
    } else {
        None
    }
}

/// One `key: value` pair at position `i`.
fn x_pair(cs: &Vec<char>, i: usize) -> (r: Option<((Field, Option<String>), usize)>)
    ensures
        match r {
            Some(((f, v), j)) => p_pair(cs@, i as int) == Some(((f, opt_view(v)), j as int)) && i
                < j <= cs@.len(),
            None => p_pair(cs@, i as int) is None,
        },
{
    let k_name = ['"', 'n', 'a', 'm', 'e', '"'];
    let k_text = ['"', 't', 'e', 'x', 't', '"'];
    let k_status = ['"', 's', 't', 'a', 't', 'u', 's', '"'];
    let k_created = ['"', 'c', 'r', 'e', 'a', 't', 'e', 'd', '_', 'a', 't', '"'];
    proof {
        assert(k_name@ =~= qkey_name());
        assert(k_text@ =~= qkey_text());
        assert(k_status@ =~= qkey_status());
        assert(k_created@ =~= qkey_created());
    }
    let (f, j) = if let Some(j) = x_lit(cs, i, &k_name) {
        (Field::Name, j)
    } else if let Some(j) = x_lit(cs, i, &k_text) {
        (Field::Text, j)
    } else if let Some(j) = x_lit(cs, i, &k_status) {
        (Field::Status, j)
    } else if let Some(j) = x_lit(cs, i, &k_created) {
        (Field::Created, j)
    } else {
        proof {
            assert(p_key(cs@, i as int) is None);
        }
        return None;
    };
    proof {
        assert(p_key(cs@, i as int) == Some((f, j as int)));
    }
    let j2 = skip_ws(cs, j);
    if !(j2 < cs.len() && cs[j2] == ':') {
        return None;
    }
    let j3 = skip_ws(cs, j2 + 1);
    match x_text(cs, j3) {
        Some((v, j4)) => Some(((f, v), j4)),
        None => None,
    }
}

/// What the four option locals of `x_task` have filled in so far.
pub open spec fn partial_of(
    n: Option<String>,
    t: Option<Option<String>>,
    st: Option<Status>,
    c: Option<String>,
) -> Partial {
    Partial {
        name: match n {
            Some(x) => Some(x@),
            None => None,
        },
        text: match t {
            Some(x) => Some(opt_view(x)),
            None => None,
        },
        status: st,
        created_at: match c {
            Some(x) => Some(x@),
            None => None,
        },
    }
}

/// One record at position `i`.
fn x_task(cs: &Vec<char>, i: usize) -> (r: Option<(Task, usize)>)
    ensures
        match r {
            Some((t, j)) => p_task(cs@, i as int) == Some((t@, j as int)) && i < j <= cs@.len(),
            None => p_task(cs@, i as int) is None,
        },
{
    if !(i < cs.len() && cs[i] == '{') {
        return None;
    }
    let k0 = skip_ws(cs, i + 1);
    let mut name: Option<String> = None;
    let mut text_v: Option<Option<String>> = None;
    let mut status: Option<Status> = None;
    let mut created: Option<String> = None;
    let mut k = k0;
    loop
        invariant
            i < k <= cs@.len(),
            0 <= i < cs@.len(),
            cs@[i as int] == '{',
            k0 as int == p_ws(cs@, i as int + 1),
            p_fields(cs@, k0 as int, empty_partial()) == p_fields(
                cs@,
                k as int,
                partial_of(name, text_v, status, created),
            ),
        decreases cs@.len() - k,
    {
        let ghost acc = partial_of(name, text_v, status, created);
        let (fv, j) = match x_pair(cs, k) {
            Some(p) => p,
            None => {
                proof {
                    reveal_with_fuel(p_fields, 2);
                }
                return None;
            },
        };
        let (f, v) = fv;
        let ghost vg = opt_view(v);
        match f {
            Field::Name => {
                match v {
                    Some(w) => {
                        if name.is_some() {
                            proof {
                                reveal_with_fuel(p_fields, 2);
                            }
                            return None;
                        }
                        name = Some(w);
                    },
                    None => {
                        proof {
                            reveal_with_fuel(p_fields, 2);
                        }
                        return None;
                    },
                }
            },
            Field::Text => {
                if text_v.is_some() {
                    proof {
                        reveal_with_fuel(p_fields, 2);
                    }
                    return None;
                }
                text_v = Some(v);
            },
            Field::Status => {
                match v {
                    Some(w) => {
                        if status.is_some() {
                            proof {
                                reveal_with_fuel(p_fields, 2);
                            }
                            return None;
                        }
                        let st = match word_status(&w) {
                            Some(st) => st,
                            None => {
                                proof {
                                    reveal_with_fuel(p_fields, 2);
                                }
                                return None;
                            },
                        };
                        status = Some(st);
                    },
                    None => {
                        proof {
                            reveal_with_fuel(p_fields, 2);
                        }
                        return None;
                    },
                }
            },
            Field::Created => {
                match v {
                    Some(w) => {
                        if created.is_some() {
                            proof {
                                reveal_with_fuel(p_fields, 2);
                            }
                            return None;
                        }
                        created = Some(w);
                    },
                    None => {
                        proof {
                            reveal_with_fuel(p_fields, 2);
                        }
                        return None;
                    },
                }
            },
        }
        let ghost acc2 = partial_of(name, text_v, status, created);
        proof {
            assert(merge(acc, f, vg) == Some(acc2));
        }
        let j2 = skip_ws(cs, j);
        if j2 < cs.len() {
            let c = cs[j2];
            if c == ',' {
                let j3 = skip_ws(cs, j2 + 1);
                proof {
                    reveal_with_fuel(p_fields, 2);
                    assert(p_fields(cs@, k as int, acc) == p_fields(cs@, j3 as int, acc2));
                }
                k = j3;
            } else if c == '}' {
                proof {
                    reveal_with_fuel(p_fields, 2);
                    assert(p_fields(cs@, k as int, acc) == finish(acc2, j2 + 1));
                }
                let nm = match name {
                    Some(x) => x,
                    None => {
                        return None;
                    },
                };
                let st = match status {
                    Some(x) => x,
                    None => {
                        return None;
                    },
                };
                let ca = match created {
                    Some(x) => x,
                    None => {
                        return None;
                    },
                };
                let tx = match text_v {
                    Some(x) => x,
                    None => None,
                };
                let t = Task { name: nm, text: tx, status: st, created_at: ca };
                return Some((t, j2 + 1));
            } else {
                proof {
                    reveal_with_fuel(p_fields, 2);
                }
                return None;
            }
        } else {
            proof {
                reveal_with_fuel(p_fields, 2);
            }
            return None;
        }
    }
}

/// Decode a whole text into the collection it stores. Blank text is the
/// empty collection; any other text that is not a JSON array of task
/// records is malformed.
#[verifier::rlimit(100)]
pub fn decode_tasks(content: &str) -> (r: Result<Vec<Task>, Error>)
    ensures
        match r {
            Ok(ts) => p_top(content@) == Some(seq_view(ts@)),
            Err(e) => e matches Error::MalformedContent && p_top(content@) is None,
        },
        content@.len() == 0 ==> r is Ok,
{
    let cs = str_chars(content);
    let i = skip_ws(&cs, 0);
    if i == cs.len() {
        let ts: Vec<Task> = Vec::new();
        proof {
            assert(seq_view(ts@) =~= Seq::<TaskView>::empty());
        }
        return Ok(ts);
    }
    let ghost i0 = i as int;
    if cs[i] != '[' {
        proof {
            assert(p_arr(cs@, i0) is None);
            assert(p_top(cs@) is None);
        }
        return Err(Error::MalformedContent);
    }
    let j0 = skip_ws(&cs, i + 1);
    let mut tasks: Vec<Task> = Vec::new();
    let mut jend: usize = 0;
    if j0 < cs.len() && cs[j0] == ']' {
        jend = j0 + 1;
        proof {
            assert(seq_view(tasks@) =~= Seq::<TaskView>::empty());
            assert(p_arr(cs@, i0) == Some((seq_view(tasks@), jend as int)));
        }
    } else {
        let mut k = j0;
        proof {
            match p_elems(cs@, j0 as int) {
                Some((rest, m)) => {
                    assert(Seq::<TaskView>::empty() + rest =~= rest);
                },
                None => {},
            }
            assert(seq_view(tasks@) =~= Seq::<TaskView>::empty());
        }
        loop
            invariant_except_break
                (match p_elems(cs@, k as int) {
                    Some((rest, m)) => p_arr(cs@, i0) == Some((seq_view(tasks@) + rest, m)),
                    None => p_arr(cs@, i0) is None,
                }),
            invariant
                cs@ == content@,
                k <= cs@.len(),
                p_ws(cs@, 0) == i0,
                0 <= i0 < cs@.len(),
            ensures
                jend <= cs@.len(),
                p_ws(cs@, 0) == i0,
                0 <= i0 < cs@.len(),
                p_arr(cs@, i0) == Some((seq_view(tasks@), jend as int)),
            decreases cs@.len() - k,
        {
            let (t, j) = match x_task(&cs, k) {
                Some(p) => p,
                None => {
                    proof {
                        reveal_with_fuel(p_elems, 2);
                        assert(p_arr(cs@, i0) is None);
                        assert(p_top(cs@) is None);
                    }
                    return Err(Error::MalformedContent);
                },
            };
            let ghost prev = tasks@;
            tasks.push(t);
            proof {
                assert(seq_view(tasks@) =~= seq_view(prev).push(t@));
            }
            let j2 = skip_ws(&cs, j);
            if j2 < cs.len() && cs[j2] == ',' {
                let j3 = skip_ws(&cs, j2 + 1);
                proof {
                    reveal_with_fuel(p_elems, 2);
                    assert(p_elems(cs@, k as int) == (match p_elems(cs@, j3 as int) {
                        Some((rest, m)) => Some((seq![t@] + rest, m)),
                        None => None::<(Seq<TaskView>, int)>,
                    }));
                    match p_elems(cs@, j3 as int) {
                        Some((rest, m)) => {
                            assert(seq_view(prev) + (seq![t@] + rest) =~= seq_view(prev).push(t@)
                                + rest);
                        },
                        None => {},
                    }
                    assert((match p_elems(cs@, j3 as int) {
                        Some((rest, m)) => p_arr(cs@, i0) == Some((seq_view(tasks@) + rest, m)),
                        None => p_arr(cs@, i0) is None,
                    }));
                }
                k = j3;
            } else if j2 < cs.len() && cs[j2] == ']' {
                jend = j2 + 1;
                proof {
                    reveal_with_fuel(p_elems, 2);
                    assert(seq_view(prev) + seq![t@] =~= seq_view(prev).push(t@));
                    assert(p_elems(cs@, k as int) == Some((seq![t@], jend as int)));
                }
                break;
            } else {
                proof {
                    reveal_with_fuel(p_elems, 2);
                    assert(p_elems(cs@, k as int) is None);
                    assert(p_arr(cs@, i0) is None);
                    assert(p_top(cs@) is None);
                }
                return Err(Error::MalformedContent);
            }
        }
    }
    let m = skip_ws(&cs, jend);
    if m == cs.len() {
        proof {
            assert(p_top(cs@) == Some(seq_view(tasks@)));
        }
        Ok(tasks)
    } else {
        proof {
            assert(p_top(cs@) is None);
        }
        Err(Error::MalformedContent)
    }
}

/// The first position at or after `from` that does not hold whitespace.
fn skip_ws(cs: &Vec<char>, from: usize) -> (r: usize)
    requires
        from <= cs@.len(),
    ensures
        r as int == p_ws(cs@, from as int),
        from <= r <= cs@.len(),
{
    let mut m = from;
    loop
        invariant
            from <= m <= cs@.len(),
            p_ws(cs@, from as int) == p_ws(cs@, m as int),
        ensures
            from <= m <= cs@.len(),
            p_ws(cs@, from as int) == m as int,
        decreases cs@.len() - m,
    {
        if m >= cs.len() {
            break;
        }
        let c = cs[m];
        if c == ' ' || c == '\n' || c == '\r' || c == '\t' {
            m += 1;
        } else {
            break;
        }
    }
    m
}

} // verus!
