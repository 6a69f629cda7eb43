//! What holds of the format as a whole: decoding the text written for any
//! collection yields that collection unchanged.

use vstd::prelude::*;
use crate::codec::{
    empty_partial, enc_jstring, enc_rest, enc_status, enc_task, enc_tasks, enc_text, esc_char,
    esc_string, finish, hex4_at, hex_digit, hex_val, merge, p_arr, p_elems, p_escape, p_fields,
    p_jstring, p_key, p_lit, p_pair, p_strbody, p_task, p_text, p_top, p_ws, qkey_created,
    qkey_name, qkey_of, qkey_status, qkey_text, starts_with_at, status_of_word, tok_name,
    tok_null, Field, Partial,
};
use crate::task::{status_chars, Status, TaskView};

verus! {

/// A token standing at `i` fixes each character there.
proof fn lemma_starts_index(full: Seq<char>, i: int, a: Seq<char>, k: int)
    requires
        starts_with_at(full, i, a),
        0 <= k < a.len(),
    ensures
        full[i + k] == a[k],
{
    assert(full.subrange(i, i + a.len() as int)[k] == full[i + k]);
}

/// A concatenation standing at `i` is its first part at `i` and its second
/// part just after.
proof fn lemma_starts_split(full: Seq<char>, i: int, a: Seq<char>, b: Seq<char>)
    requires
        starts_with_at(full, i, a + b),
    ensures
        starts_with_at(full, i, a),
        starts_with_at(full, i + a.len(), b),
{
    assert forall|k: int| 0 <= k < a.len() implies full.subrange(i, i + a.len() as int)[k] == a[k] by {
        assert(full.subrange(i, i + (a + b).len() as int)[k] == full[i + k]);
        assert((a + b)[k] == a[k]);
    }
    assert(full.subrange(i, i + a.len() as int) =~= a);
    let ib = i + a.len();
    assert forall|k: int| 0 <= k < b.len() implies full.subrange(ib, ib + b.len() as int)[k]
        == b[k] by {
        assert(full.subrange(i, i + (a + b).len() as int)[a.len() + k] == full[i + a.len() + k]);
        assert((a + b)[a.len() + k] == b[k]);
    }
    assert(full.subrange(ib, ib + b.len() as int) =~= b);
}

/// Reading a hexadecimal digit back gives the value it was written for.
proof fn lemma_hex_digit_val(d: int)
    requires
        0 <= d < 16,
    ensures
        hex_val(hex_digit(d)) == d,
{
    if d == 0 {
        assert(hex_val(hex_digit(0)) == 0);
    } else if d == 1 {
        assert(hex_val(hex_digit(1)) == 1);
    } else if d == 2 {
        assert(hex_val(hex_digit(2)) == 2);
    } else if d == 3 {
        assert(hex_val(hex_digit(3)) == 3);
    } else if d == 4 {
        assert(hex_val(hex_digit(4)) == 4);
    } else if d == 5 {
        assert(hex_val(hex_digit(5)) == 5);
    } else if d == 6 {
        assert(hex_val(hex_digit(6)) == 6);
    } else if d == 7 {
        assert(hex_val(hex_digit(7)) == 7);
    } else if d == 8 {
        assert(hex_val(hex_digit(8)) == 8);
    } else if d == 9 {
        assert(hex_val(hex_digit(9)) == 9);
    } else if d == 10 {
        assert(hex_val(hex_digit(10)) == 10);
    } else if d == 11 {
        assert(hex_val(hex_digit(11)) == 11);
    } else if d == 12 {
        assert(hex_val(hex_digit(12)) == 12);
    } else if d == 13 {
        assert(hex_val(hex_digit(13)) == 13);
    } else if d == 14 {
        assert(hex_val(hex_digit(14)) == 14);
    } else {
        assert(hex_val(hex_digit(15)) == 15);
    }
}

/// An escape written for a character reads back as that character.
proof fn lemma_escape_rt(full: Seq<char>, i: int, c: char)
    requires
        starts_with_at(full, i, esc_char(c)),
        esc_char(c).len() >= 2,
    ensures
        full[i] == '\\',
        p_escape(full, i + 1) == Some((c, i + esc_char(c).len())),
{
    let e = esc_char(c);
    lemma_starts_index(full, i, e, 0);
    lemma_starts_index(full, i, e, 1);
    if c == '"' {
        assert(p_escape(full, i + 1) == Some((c, i + 2)));
    } else if c == '\\' {
        assert(p_escape(full, i + 1) == Some((c, i + 2)));
    } else {
        let v = (c as u32) as int;
        lemma_starts_index(full, i, e, 2);
        lemma_starts_index(full, i, e, 3);
        lemma_starts_index(full, i, e, 4);
        lemma_starts_index(full, i, e, 5);
        assert(full[i + 1] == 'u');
        assert(full[i + 2] == '0');
        assert(full[i + 3] == '0');
        assert(full[i + 4] == hex_digit(v / 16));
        assert(full[i + 5] == hex_digit(v % 16));
        lemma_hex_digit_val(v / 16);
        lemma_hex_digit_val(v % 16);
        assert(hex4_at(full, i + 2) == v);
        assert((v as char) == c);
        assert(p_escape(full, i + 1) == Some((c, i + 6)));
    }
}

/// A string written with its closing quote reads back unchanged.
proof fn lemma_strbody_rt(full: Seq<char>, i: int, t: Seq<char>)
    requires
        starts_with_at(full, i, esc_string(t) + seq!['"']),
    ensures
        p_strbody(full, i) == Some((t, i + esc_string(t).len() + 1)),
    decreases t.len(),
{
    reveal_with_fuel(p_strbody, 2);
    if t.len() == 0 {
        assert(esc_string(t) + seq!['"'] =~= seq!['"']);
        lemma_starts_index(full, i, seq!['"'], 0);
        assert(t =~= Seq::<char>::empty());
        assert(p_strbody(full, i) == Some((Seq::<char>::empty(), i + 1)));
    } else {
        let c = t[0];
        let e = esc_char(c);
        let r = esc_string(t.drop_first());
        assert(esc_string(t) == e + r);
        assert(esc_string(t) + seq!['"'] =~= e + (r + seq!['"']));
        lemma_starts_split(full, i, e, r + seq!['"']);
        lemma_strbody_rt(full, i + e.len(), t.drop_first());
        assert(seq![c] + t.drop_first() =~= t);
        if e.len() == 1 {
            lemma_starts_index(full, i, e, 0);
            assert(full[i] == c);
            assert(c != '"' && c != '\\' && !((c as u32) < 32));
            assert(p_strbody(full, i) == Some((t, i + esc_string(t).len() + 1)));
        } else {
            lemma_escape_rt(full, i, c);
            assert(p_strbody(full, i) == Some((t, i + esc_string(t).len() + 1)));
        }
    }
}

/// A quoted string value reads back unchanged.
proof fn lemma_jstring_rt(full: Seq<char>, i: int, t: Seq<char>)
    requires
        starts_with_at(full, i, enc_jstring(t)),
    ensures
        p_jstring(full, i) == Some((t, i + enc_jstring(t).len())),
{
    assert(enc_jstring(t) =~= seq!['"'] + (esc_string(t) + seq!['"']));
    lemma_starts_split(full, i, seq!['"'], esc_string(t) + seq!['"']);
    lemma_starts_index(full, i, seq!['"'], 0);
    lemma_strbody_rt(full, i + 1, t);
}

/// An optional text value reads back unchanged.
proof fn lemma_text_rt(full: Seq<char>, i: int, o: Option<Seq<char>>)
    requires
        starts_with_at(full, i, enc_text(o)),
    ensures
        p_text(full, i) == Some((o, i + enc_text(o).len())),
{
    match o {
        None => {
            assert(p_lit(full, i, tok_null()) == Some(i + 4));
        },
        Some(t) => {
            lemma_starts_index(full, i, enc_text(o), 0);
            assert(full[i] == '"');
            if starts_with_at(full, i, tok_null()) {
                lemma_starts_index(full, i, tok_null(), 0);
                assert(false);
            }
            assert(p_lit(full, i, tok_null()) is None);
            lemma_jstring_rt(full, i, t);
        },
    }
}

/// A status word is written as itself: none of its letters needs an
/// escape.
proof fn lemma_status_word_plain(st: Status)
    ensures
        enc_status(st) == enc_jstring(status_chars(st)),
{
    reveal_with_fuel(esc_string, 9);
    match st {
        Status::Pending => {
            assert(esc_string(status_chars(st)) =~= status_chars(st));
        },
        Status::Doing => {
            assert(esc_string(status_chars(st)) =~= status_chars(st));
        },
        Status::Done => {
            assert(esc_string(status_chars(st)) =~= status_chars(st));
        },
    }
    assert(enc_status(st) =~= enc_jstring(status_chars(st)));
}

/// A status word stands for its own status and no other.
proof fn lemma_status_of_word(st: Status)
    ensures
        status_of_word(status_chars(st)) == Some(st),
{
    match st {
        Status::Pending => {
        },
        Status::Doing => {
            assert(status_chars(Status::Doing)[0] != status_chars(Status::Pending)[0]);
        },
        Status::Done => {
            assert(status_chars(Status::Done)[0] != status_chars(Status::Pending)[0]);
            assert(status_chars(Status::Done)[2] != status_chars(Status::Doing)[2]);
        },
    }
}

/// A written `key: value` pair reads back as its key and value.
#[verifier::rlimit(100)]
proof fn lemma_pair_rt(full: Seq<char>, i: int, f: Field, v: Option<Seq<char>>)
    requires
        starts_with_at(full, i, qkey_of(f) + (seq![':'] + enc_text(v))),
    ensures
        p_pair(full, i) == Some(((f, v), i + qkey_of(f).len() + 1 + enc_text(v).len())),
{
    let qk = qkey_of(f);
    lemma_starts_split(full, i, qk, seq![':'] + enc_text(v));
    let jq = i + qk.len();
    lemma_starts_split(full, jq, seq![':'], enc_text(v));
    lemma_starts_index(full, jq, seq![':'], 0);
    assert(full[jq] == ':');
    lemma_starts_index(full, i, qk, 1);
    match f {
        Field::Name => {
        },
        Field::Text => {
            if starts_with_at(full, i, qkey_name()) {
                lemma_starts_index(full, i, qkey_name(), 1);
                assert(false);
            }
        },
        Field::Status => {
            if starts_with_at(full, i, qkey_name()) {
                lemma_starts_index(full, i, qkey_name(), 1);
                assert(false);
            }
            if starts_with_at(full, i, qkey_text()) {
                lemma_starts_index(full, i, qkey_text(), 1);
                assert(false);
            }
        },
        Field::Created => {
            if starts_with_at(full, i, qkey_name()) {
                lemma_starts_index(full, i, qkey_name(), 1);
                assert(false);
            }
            if starts_with_at(full, i, qkey_text()) {
                lemma_starts_index(full, i, qkey_text(), 1);
                assert(false);
            }
            if starts_with_at(full, i, qkey_status()) {
                lemma_starts_index(full, i, qkey_status(), 1);
                assert(false);
            }
        },
    }
    assert(p_key(full, i) == Some((f, jq)));
    assert(p_ws(full, jq) == jq);
    lemma_starts_index(full, jq + 1, enc_text(v), 0);
    match v {
        Some(t) => {
            assert(full[jq + 1] == '"');
        },
        None => {
            assert(full[jq + 1] == 'n');
        },
    }
    assert(p_ws(full, jq + 1) == jq + 1);
    lemma_text_rt(full, jq + 1, v);
    assert(p_pair(full, i) == Some(((f, v), jq + 1 + enc_text(v).len())));
}

/// One read pair followed by a comma carries the record under construction
/// one step further.
proof fn lemma_fields_cont(
    full: Seq<char>,
    i: int,
    acc: Partial,
    acc2: Partial,
    f: Field,
    v: Option<Seq<char>>,
    j: int,
)
    requires
        p_pair(full, i) == Some(((f, v), j)),
        merge(acc, f, v) == Some(acc2),
        p_ws(full, j) == j,
        0 <= j < full.len(),
        full[j] == ',',
        p_ws(full, j + 1) == j + 1,
        i < j + 1 <= full.len(),
    ensures
        p_fields(full, i, acc) == p_fields(full, j + 1, acc2),
{
    reveal_with_fuel(p_fields, 2);
}

/// One read pair followed by the closing brace finishes the record.
proof fn lemma_fields_end(
    full: Seq<char>,
    i: int,
    acc: Partial,
    acc2: Partial,
    f: Field,
    v: Option<Seq<char>>,
    j: int,
)
    requires
        p_pair(full, i) == Some(((f, v), j)),
        merge(acc, f, v) == Some(acc2),
        p_ws(full, j) == j,
        0 <= j < full.len(),
        full[j] == '}',
    ensures
        p_fields(full, i, acc) == finish(acc2, j + 1),
{
    reveal_with_fuel(p_fields, 2);
}

/// A record's text opens with a brace.
proof fn lemma_enc_task_head(tv: TaskView)
    ensures
        enc_task(tv)[0] == '{',
        enc_task(tv).len() >= 2,
{
    assert(tok_name()[0] == '{');
    assert(enc_task(tv)[0] == '{');
}

/// One written record reads back unchanged.
#[verifier::rlimit(100)]
proof fn lemma_task_rt(full: Seq<char>, i: int, tv: TaskView)
    requires
        starts_with_at(full, i, enc_task(tv)),
    ensures
        p_task(full, i) == Some((tv, i + enc_task(tv).len())),
{
    lemma_status_word_plain(tv.status);
    let a1 = seq!['{'];
    let pr1 = qkey_name() + (seq![':'] + enc_text(Some(tv.name)));
    let sp = seq![','];
    let pr2 = qkey_text() + (seq![':'] + enc_text(tv.text));
    let pr3 = qkey_status() + (seq![':'] + enc_text(Some(status_chars(tv.status))));
    let pr4 = qkey_created() + (seq![':'] + enc_text(Some(tv.created_at)));
    let cl = seq!['}'];
    assert(enc_task(tv) =~= a1 + (pr1 + (sp + (pr2 + (sp + (pr3 + (sp + (pr4 + cl))))))));
    lemma_starts_split(full, i, a1, pr1 + (sp + (pr2 + (sp + (pr3 + (sp + (pr4 + cl)))))));
    lemma_starts_index(full, i, a1, 0);
    assert(full[i] == '{');
    let i1 = i + 1;
    lemma_starts_split(full, i1, pr1, sp + (pr2 + (sp + (pr3 + (sp + (pr4 + cl))))));
    let i2 = i1 + pr1.len();
    lemma_starts_split(full, i2, sp, pr2 + (sp + (pr3 + (sp + (pr4 + cl)))));
    lemma_starts_index(full, i2, sp, 0);
    let i3 = i2 + 1;
    lemma_starts_split(full, i3, pr2, sp + (pr3 + (sp + (pr4 + cl))));
    let i4 = i3 + pr2.len();
    lemma_starts_split(full, i4, sp, pr3 + (sp + (pr4 + cl)));
    lemma_starts_index(full, i4, sp, 0);
    let i5 = i4 + 1;
    lemma_starts_split(full, i5, pr3, sp + (pr4 + cl));
    let i6 = i5 + pr3.len();
    lemma_starts_split(full, i6, sp, pr4 + cl);
    lemma_starts_index(full, i6, sp, 0);
    let i7 = i6 + 1;
    lemma_starts_split(full, i7, pr4, cl);
    let i8 = i7 + pr4.len();
    lemma_starts_index(full, i8, cl, 0);
    lemma_pair_rt(full, i1, Field::Name, Some(tv.name));
    lemma_pair_rt(full, i3, Field::Text, tv.text);
    lemma_pair_rt(full, i5, Field::Status, Some(status_chars(tv.status)));
    lemma_pair_rt(full, i7, Field::Created, Some(tv.created_at));
    lemma_status_of_word(tv.status);
    let acc0 = empty_partial();
    let acc1 = merge(acc0, Field::Name, Some(tv.name)).unwrap();
    let acc2 = merge(acc1, Field::Text, tv.text).unwrap();
    let acc3 = merge(acc2, Field::Status, Some(status_chars(tv.status))).unwrap();
    let acc4 = merge(acc3, Field::Created, Some(tv.created_at)).unwrap();
    lemma_starts_index(full, i1, pr1, 0);
    assert(full[i1] == '"');
    assert(p_ws(full, i1) == i1);
    assert(p_ws(full, i2) == i2);
    lemma_starts_index(full, i3, pr2, 0);
    assert(p_ws(full, i3) == i3);
    assert(p_ws(full, i4) == i4);
    lemma_starts_index(full, i5, pr3, 0);
    assert(p_ws(full, i5) == i5);
    assert(p_ws(full, i6) == i6);
    lemma_starts_index(full, i7, pr4, 0);
    assert(p_ws(full, i7) == i7);
    assert(p_ws(full, i8) == i8);
    lemma_fields_cont(full, i1, acc0, acc1, Field::Name, Some(tv.name), i2);
    lemma_fields_cont(full, i3, acc1, acc2, Field::Text, tv.text, i4);
    lemma_fields_cont(full, i5, acc2, acc3, Field::Status, Some(status_chars(tv.status)), i6);
    lemma_fields_end(full, i7, acc3, acc4, Field::Created, Some(tv.created_at), i8);
    assert(finish(acc4, i8 + 1) == Some((tv, i8 + 1)));
    assert(p_task(full, i) == Some((tv, i + enc_task(tv).len())));
}

/// The written records of a non-empty collection, with their closing
/// bracket, read back unchanged.
#[verifier::rlimit(100)]
proof fn lemma_elems_rt(full: Seq<char>, i: int, ts: Seq<TaskView>)
    requires
        ts.len() > 0,
        starts_with_at(full, i, enc_task(ts[0]) + (enc_rest(ts.drop_first()) + seq![']'])),
    ensures
        p_elems(full, i) == Some(
            (ts, i + enc_task(ts[0]).len() + enc_rest(ts.drop_first()).len() + 1),
        ),
    decreases ts.len(),
{
    reveal_with_fuel(p_elems, 2);
    let e = enc_task(ts[0]);
    let r = enc_rest(ts.drop_first());
    lemma_starts_split(full, i, e, r + seq![']']);
    lemma_task_rt(full, i, ts[0]);
    let j = i + e.len();
    if ts.len() == 1 {
        assert(ts.drop_first() =~= Seq::<TaskView>::empty());
        assert(r + seq![']'] =~= seq![']']);
        lemma_starts_index(full, j, seq![']'], 0);
        assert(full[j] == ']');
        assert(p_ws(full, j) == j);
        assert(seq![ts[0]] =~= ts);
        assert(p_elems(full, i) == Some((ts, j + 1)));
    } else {
        let ts2 = ts.drop_first();
        let e2 = enc_task(ts2[0]);
        let r2 = enc_rest(ts2.drop_first());
        assert(r == seq![','] + e2 + r2);
        assert(r + seq![']'] =~= seq![','] + (e2 + (r2 + seq![']'])));
        lemma_starts_split(full, j, seq![','], e2 + (r2 + seq![']']));
        lemma_starts_index(full, j, seq![','], 0);
        assert(full[j] == ',');
        assert(p_ws(full, j) == j);
        lemma_starts_split(full, j + 1, e2, r2 + seq![']']);
        lemma_enc_task_head(ts2[0]);
        lemma_starts_index(full, j + 1, e2, 0);
        assert(full[j + 1] == '{');
        assert(p_ws(full, j + 1) == j + 1);
        lemma_elems_rt(full, j + 1, ts2);
        assert(seq![ts[0]] + ts2 =~= ts);
        assert(p_elems(full, i) == Some(
            (ts, i + enc_task(ts[0]).len() + enc_rest(ts.drop_first()).len() + 1),
        ));
    }
}

/// The written form of a non-empty collection, as nested concatenations.
proof fn lemma_enc_tasks_shape(ts: Seq<TaskView>)
    requires
        ts.len() > 0,
    ensures
        enc_tasks(ts) == seq!['['] + (enc_task(ts[0]) + (enc_rest(ts.drop_first())
            + seq![']'])),
{
    assert(enc_tasks(ts) =~= seq!['['] + (enc_task(ts[0]) + (enc_rest(ts.drop_first())
        + seq![']'])));
}

/// A written non-empty collection reads back as a whole array.
#[verifier::rlimit(100)]
proof fn lemma_arr_rt(full: Seq<char>, ts: Seq<TaskView>)
    requires
        ts.len() > 0,
        full == enc_tasks(ts),
    ensures
        p_arr(full, 0) == Some((ts, full.len() as int)),
        full[0] == '[',
{
    let e = enc_task(ts[0]);
    let r = enc_rest(ts.drop_first());
    lemma_enc_tasks_shape(ts);
    assert(starts_with_at(full, 0, seq!['['] + (e + (r + seq![']'])))) by {
        assert(full.subrange(0, full.len() as int) =~= full);
    }
    lemma_starts_split(full, 0, seq!['['], e + (r + seq![']']));
    lemma_starts_index(full, 0, seq!['['], 0);
    assert(full[0] == '[');
    lemma_starts_split(full, 1, e, r + seq![']']);
    lemma_enc_task_head(ts[0]);
    lemma_starts_index(full, 1, e, 0);
    assert(full[1] == '{');
    assert(p_ws(full, 1) == 1);
    lemma_elems_rt(full, 1, ts);
    assert(p_arr(full, 0) == Some((ts, full.len() as int)));
}

/// Round trip: the text written for any collection decodes to that
/// collection, record for record and field for field.
#[verifier::rlimit(100)]
pub proof fn lemma_round_trip(ts: Seq<TaskView>)
    ensures
        p_top(enc_tasks(ts)) == Some(ts),
{
    reveal_with_fuel(p_ws, 2);
    let full = enc_tasks(ts);
    if ts.len() == 0 {
        assert(ts =~= Seq::<TaskView>::empty());
        assert(full[0] == '[');
        assert(full[1] == ']');
        assert(p_ws(full, 0) == 0);
        assert(p_ws(full, 1) == 1);
        assert(p_arr(full, 0) == Some((Seq::<TaskView>::empty(), 2int)));
        assert(p_ws(full, 2) == 2);
        assert(p_top(full) == Some(ts));
    } else {
        lemma_arr_rt(full, ts);
        assert(p_ws(full, 0) == 0);
        assert(p_ws(full, full.len() as int) == full.len());
        assert(p_top(full) == Some(ts));
    }
}

} // verus!
