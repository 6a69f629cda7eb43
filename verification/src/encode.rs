//! Writing a collection out as its persisted text.

use vstd::prelude::*;
use vstd::string::{StrSliceExecFns, StringExecFns};
use crate::codec::{
    enc_jstring, enc_rest, enc_status, enc_task, enc_tasks, enc_text, esc_char, esc_string,
    hex_digit, tok_created, tok_name, tok_null, tok_status, tok_text,
};
use crate::task::{seq_view, status_chars, Status, Task};

verus! {

/// `esc_string` grows one character at a time from the left.
proof fn lemma_esc_string_snoc(s: Seq<char>, c: char)
    ensures
        esc_string(s.push(c)) == esc_string(s) + esc_char(c),
    decreases s.len(),
{
    if s.len() == 0 {
        assert(s.push(c).drop_first() =~= Seq::empty());
        assert(esc_string(s) + esc_char(c) =~= esc_char(c));
        assert(esc_string(s.push(c)) =~= esc_char(s.push(c)[0]) + esc_string(
            s.push(c).drop_first(),
        ));
        assert(esc_string(Seq::empty()) =~= Seq::<char>::empty());
        assert(esc_char(c) + esc_string(Seq::<char>::empty()) =~= esc_char(c));
    } else {
        assert(s.push(c).drop_first() =~= s.drop_first().push(c));
        lemma_esc_string_snoc(s.drop_first(), c);
        assert(esc_char(s[0]) + (esc_string(s.drop_first()) + esc_char(c)) =~= (esc_char(s[0])
            + esc_string(s.drop_first())) + esc_char(c));
    }
}

/// The lower-case hexadecimal digit for `v`.
fn hex_digit_char(v: u8) -> (r: char)
    requires
        v < 16,
    ensures
        r == hex_digit(v as int),
{
    match v {
        0 => '0',
        1 => '1',
        2 => '2',
        3 => '3',
        4 => '4',
        5 => '5',
        6 => '6',
        7 => '7',
        8 => '8',
        9 => '9',
        10 => 'a',
        11 => 'b',
        12 => 'c',
        13 => 'd',
        14 => 'e',
        _ => 'f',
    }
}

/// Append one character's escaped form.
fn push_escaped(out: &mut String, c: char)
    ensures
        final(out)@ == old(out)@ + esc_char(c),
{
    if c == '"' {
        out.push('\\');
        out.push('"');
    } else if c == '\\' {
        out.push('\\');
        out.push('\\');
    } else if (c as u32) < 32 {
        let v = c as u32;
        out.push('\\');
        out.push('u');
        out.push('0');
        out.push('0');
        out.push(hex_digit_char((v / 16) as u8));
        out.push(hex_digit_char((v % 16) as u8));
    } else {
        out.push(c);
    }
    proof {
        assert(final(out)@ =~= old(out)@ + esc_char(c));
    }
}

/// Append a string value: its escaped characters between double quotes.
fn push_jstring(out: &mut String, s: &str)
    ensures
        final(out)@ == old(out)@ + enc_jstring(s@),
{
    out.push('"');
    let n = s.unicode_len();
    let mut i: usize = 0;
    while i < n
        invariant
            i <= n,
            n == s@.len(),
            out@ == old(out)@.push('"') + esc_string(s@.subrange(0, i as int)),
        decreases n - i,
    {
        let c = s.get_char(i);
        push_escaped(out, c);
        proof {
            assert(s@.subrange(0, i + 1 as int) =~= s@.subrange(0, i as int).push(c));
            lemma_esc_string_snoc(s@.subrange(0, i as int), c);
            assert(out@ =~= old(out)@.push('"') + esc_string(s@.subrange(0, i + 1 as int)));
        }
        i += 1;
    }
    out.push('"');
    proof {
        assert(s@.subrange(0, s@.len() as int) =~= s@);
        assert(final(out)@ =~= old(out)@ + enc_jstring(s@));
    }
}

/// Append a status value: its word between double quotes.
fn push_status(out: &mut String, st: &Status)
    ensures
        final(out)@ == old(out)@ + enc_status(*st),
{
    out.push('"');
    let word = st.to_string();
    out.append(word.as_str());
    out.push('"');
    proof {
        assert(final(out)@ =~= old(out)@ + enc_status(*st));
    }
}

/// Append one record.
fn push_task(out: &mut String, t: &Task)
    ensures
        final(out)@ == old(out)@ + enc_task(t@),
{
    proof {
        reveal_strlit("{\"name\":");
        reveal_strlit(",\"text\":");
        reveal_strlit(",\"status\":");
        reveal_strlit(",\"created_at\":");
        reveal_strlit("null");
        assert("{\"name\":"@ =~= tok_name());
        assert(",\"text\":"@ =~= tok_text());
        assert(",\"status\":"@ =~= tok_status());
        assert(",\"created_at\":"@ =~= tok_created());
        assert("null"@ =~= tok_null());
    }
    out.append("{\"name\":");
    push_jstring(out, t.name.as_str());
    out.append(",\"text\":");
    match &t.text {
        Some(s) => push_jstring(out, s.as_str()),
        None => out.append("null"),
    }
    out.append(",\"status\":");
    push_status(out, &t.status);
    out.append(",\"created_at\":");
    push_jstring(out, t.created_at.as_str());
    out.push('}');
    proof {
        assert(final(out)@ =~= old(out)@ + enc_task(t@));
    }
}

/// The text this library writes for a collection: the records between
/// square brackets, in order, in the compact form `p_top` reads back.
pub fn encode_tasks(tasks: &Vec<Task>) -> (r: String)
    ensures
        r@ == enc_tasks(seq_view(tasks@)),
{
    let mut out = String::new();
    out.push('[');
    let mut i: usize = 0;
    while i < tasks.len()
        invariant
            i <= tasks@.len(),
            i == 0 ==> out@ =~= seq!['['],
            i > 0 ==> out@ =~= seq!['['] + enc_task(tasks@[0]@) + enc_rest(
                seq_view(tasks@.subrange(1, i as int)),
            ),
        decreases tasks@.len() - i,
    {
        if i > 0 {
            out.push(',');
        }
        push_task(&mut out, &tasks[i]);
        proof {
            if i == 0 {
                assert(out@ =~= seq!['['] + enc_task(tasks@[0]@) + enc_rest(
                    seq_view(tasks@.subrange(1, 1)),
                ));
            } else {
                lemma_enc_rest_snoc(seq_view(tasks@.subrange(1, i as int)), tasks@[i as int]@);
                assert(seq_view(tasks@.subrange(1, i + 1 as int)) =~= seq_view(
                    tasks@.subrange(1, i as int),
                ).push(tasks@[i as int]@));
                assert(out@ =~= seq!['['] + enc_task(tasks@[0]@) + enc_rest(
                    seq_view(tasks@.subrange(1, i + 1 as int)),
                ));
            }
        }
        i += 1;
    }
    out.push(']');
    proof {
        let vs = seq_view(tasks@);
        if tasks@.len() == 0 {
            assert(out@ =~= enc_tasks(vs));
        } else {
            assert(seq_view(tasks@.subrange(1, tasks@.len() as int)) =~= vs.drop_first());
            assert(vs[0] == tasks@[0]@);
            assert(out@ =~= enc_tasks(vs));
        }
    }
    out
}

/// `enc_rest` grows one record at a time from the left.
proof fn lemma_enc_rest_snoc(ts: Seq<crate::task::TaskView>, t: crate::task::TaskView)
    ensures
        enc_rest(ts.push(t)) == enc_rest(ts) + (seq![','] + enc_task(t)),
    decreases ts.len(),
{
    if ts.len() == 0 {
        assert(ts.push(t).drop_first() =~= Seq::empty());
        assert(enc_rest(ts.push(t)) =~= seq![','] + enc_task(t) + enc_rest(
            Seq::<crate::task::TaskView>::empty(),
        ));
        assert(enc_rest(ts.push(t)) =~= enc_rest(ts) + (seq![','] + enc_task(t)));
    } else {
        assert(ts.push(t).drop_first() =~= ts.drop_first().push(t));
        lemma_enc_rest_snoc(ts.drop_first(), t);
        assert(enc_rest(ts.push(t)) =~= enc_rest(ts) + (seq![','] + enc_task(t)));
    }
}

} // verus!
