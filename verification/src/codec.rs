//! The persisted form of the board: structured text with a `name` field and
//! a `tasks` field per column, quote-delimited texts with backslash escapes.
//! The encoder and the strict decoder below are proved to round-trip every
//! board exactly.

use vstd::prelude::*;
use crate::board::{AbsList, TaskList, cols_of, texts_of};

verus! {

// ----- the encoding, as a function on character sequences -----

/// A text character as it appears inside quotes: quotes and backslashes are
/// preceded by a backslash, every other character stands for itself.
pub open spec fn esc_char(c: char) -> Seq<char> {
    if c == '"' || c == '\\' {
        seq!['\\', c]
    } else {
        seq![c]
    }
}

/// A text with every character escaped, without the surrounding quotes.
pub open spec fn enc_text(t: Seq<char>) -> Seq<char>
    decreases t.len(),
{
    if t.len() == 0 {
        Seq::empty()
    } else {
        esc_char(t[0]) + enc_text(t.drop_first())
    }
}

/// A quoted, escaped text.
pub open spec fn enc_string(t: Seq<char>) -> Seq<char> {
    seq!['"'] + enc_text(t) + seq!['"']
}

/// Quoted texts separated by commas.
pub open spec fn enc_texts(ts: Seq<Seq<char>>) -> Seq<char>
    decreases ts.len(),
{
    if ts.len() == 0 {
        Seq::empty()
    } else if ts.len() == 1 {
        enc_string(ts[0])
    } else {
        enc_string(ts[0]) + seq![','] + enc_texts(ts.drop_first())
    }
}

/// A bracketed array of quoted texts.
pub open spec fn enc_tasks(ts: Seq<Seq<char>>) -> Seq<char> {
    seq!['['] + enc_texts(ts) + seq![']']
}

/// The opening of a column record up to its name value.
pub open spec fn name_tok() -> Seq<char> {
    seq!['{', '"', 'n', 'a', 'm', 'e', '"', ':']
}

/// The separator between the name value and the task array.
pub open spec fn tasks_tok() -> Seq<char> {
    seq![',', '"', 't', 'a', 's', 'k', 's', '"', ':']
}

/// One column record: its name and its task array, in braces.
pub open spec fn enc_list(l: AbsList) -> Seq<char> {
    name_tok() + enc_string(l.name) + tasks_tok() + enc_tasks(l.tasks) + seq!['}']
}

/// Column records separated by commas.
pub open spec fn enc_lists(ls: Seq<AbsList>) -> Seq<char>
    decreases ls.len(),
{
    if ls.len() == 0 {
        Seq::empty()
    } else if ls.len() == 1 {
        enc_list(ls[0])
    } else {
        enc_list(ls[0]) + seq![','] + enc_lists(ls.drop_first())
    }
}

/// The whole board: a bracketed array of column records.
pub open spec fn enc_board(ls: Seq<AbsList>) -> Seq<char> {
    seq!['['] + enc_lists(ls) + seq![']']
}

// ----- the strict parser, each step returning the value and the rest -----

/// The inside of a quoted text, up to and over the closing quote.
pub open spec fn p_text(s: Seq<char>) -> Option<(Seq<char>, Seq<char>)>
    decreases s.len(),
{
    if s.len() == 0 {
        None
    } else if s[0] == '"' {
        Some((Seq::empty(), s.drop_first()))
    } else if s[0] == '\\' {
        if s.len() >= 2 && (s[1] == '"' || s[1] == '\\') {
            match p_text(s.subrange(2, s.len() as int)) {
                Some(p) => Some((seq![s[1]] + p.0, p.1)),
                None => None,
            }
        } else {
            None
        }
    } else {
        match p_text(s.drop_first()) {
            Some(p) => Some((seq![s[0]] + p.0, p.1)),
            None => None,
        }
    }
}

/// A quoted text, opening quote included.
pub open spec fn p_string(s: Seq<char>) -> Option<(Seq<char>, Seq<char>)> {
    if s.len() > 0 && s[0] == '"' {
        p_text(s.drop_first())
    } else {
        None
    }
}

/// A parsed text lies strictly inside what was given.
pub proof fn lemma_p_text_shrinks(s: Seq<char>)
    ensures
        p_text(s) matches Some(p) ==> p.1.len() < s.len(),
    decreases s.len(),
{
    if s.len() == 0 {
    } else if s[0] == '"' {
    } else if s[0] == '\\' {
        if s.len() >= 2 && (s[1] == '"' || s[1] == '\\') {
            lemma_p_text_shrinks(s.subrange(2, s.len() as int));
        }
    } else {
        lemma_p_text_shrinks(s.drop_first());
    }
}

/// A parsed quoted text consumes at least its two quotes.
pub proof fn lemma_p_string_shrinks(s: Seq<char>)
    ensures
        p_string(s) matches Some(p) ==> p.1.len() + 2 <= s.len(),
{
    if s.len() > 0 && s[0] == '"' {
        lemma_p_text_shrinks(s.drop_first());
    }
}

/// One or more quoted texts separated by commas.
pub open spec fn p_texts(s: Seq<char>) -> Option<(Seq<Seq<char>>, Seq<char>)>
    decreases s.len(),
    via p_texts_dec
{
    match p_string(s) {
        Some(p) => if p.1.len() > 0 && p.1[0] == ',' {
            match p_texts(p.1.drop_first()) {
                Some(q) => Some((seq![p.0] + q.0, q.1)),
                None => None,
            }
        } else {
            Some((seq![p.0], p.1))
        },
        None => None,
    }
}

#[via_fn]
proof fn p_texts_dec(s: Seq<char>) {
    lemma_p_string_shrinks(s);
}

/// A parsed text array element list lies strictly inside what was given.
pub proof fn lemma_p_texts_shrinks(s: Seq<char>)
    ensures
        p_texts(s) matches Some(p) ==> p.1.len() < s.len(),
    decreases s.len(),
{
    lemma_p_string_shrinks(s);
    match p_string(s) {
        Some(p) => {
            if p.1.len() > 0 && p.1[0] == ',' {
                lemma_p_texts_shrinks(p.1.drop_first());
            }
        },
        None => {},
    }
}

/// A fixed token at the front; the rest follows it.
pub open spec fn p_lit(s: Seq<char>, tok: Seq<char>) -> Option<Seq<char>> {
    if tok.len() <= s.len() && s.subrange(0, tok.len() as int) == tok {
        Some(s.subrange(tok.len() as int, s.len() as int))
    } else {
        None
    }
}

/// A bracketed array of quoted texts, possibly empty.
pub open spec fn p_tasks(s: Seq<char>) -> Option<(Seq<Seq<char>>, Seq<char>)> {
    if s.len() >= 2 && s[0] == '[' && s[1] == ']' {
        Some((Seq::empty(), s.subrange(2, s.len() as int)))
    } else if s.len() >= 1 && s[0] == '[' {
        match p_texts(s.drop_first()) {
            Some(p) => if p.1.len() > 0 && p.1[0] == ']' {
                Some((p.0, p.1.drop_first()))
            } else {
                None
            },
            None => None,
        }
    } else {
        None
    }
}

/// A parsed task array lies strictly inside what was given.
pub proof fn lemma_p_tasks_shrinks(s: Seq<char>)
    ensures
        p_tasks(s) matches Some(p) ==> p.1.len() < s.len(),
{
    if s.len() >= 2 && s[0] == '[' && s[1] == ']' {
    } else if s.len() >= 1 && s[0] == '[' {
        lemma_p_texts_shrinks(s.drop_first());
    }
}

/// One column record.
pub open spec fn p_list(s: Seq<char>) -> Option<(AbsList, Seq<char>)> {
    match p_lit(s, name_tok()) {
        Some(r1) => match p_string(r1) {
            Some(p2) => match p_lit(p2.1, tasks_tok()) {
                Some(r3) => match p_tasks(r3) {
                    Some(p4) => if p4.1.len() > 0 && p4.1[0] == '}' {
                        Some((AbsList { name: p2.0, tasks: p4.0 }, p4.1.drop_first()))
                    } else {
                        None
                    },
                    None => None,
                },
                None => None,
            },
            None => None,
        },
        None => None,
    }
}

/// A parsed column record lies strictly inside what was given.
pub proof fn lemma_p_list_shrinks(s: Seq<char>)
    ensures
        p_list(s) matches Some(p) ==> p.1.len() < s.len(),
{
    match p_lit(s, name_tok()) {
        Some(r1) => {
            lemma_p_string_shrinks(r1);
            match p_string(r1) {
                Some(p2) => {
                    match p_lit(p2.1, tasks_tok()) {
                        Some(r3) => {
                            lemma_p_tasks_shrinks(r3);
                        },
                        None => {},
                    }
                },
                None => {},
            }
        },
        None => {},
    }
}

/// One or more column records separated by commas.
pub open spec fn p_lists(s: Seq<char>) -> Option<(Seq<AbsList>, Seq<char>)>
    decreases s.len(),
    via p_lists_dec
{
    match p_list(s) {
        Some(p) => if p.1.len() > 0 && p.1[0] == ',' {
            match p_lists(p.1.drop_first()) {
                Some(q) => Some((seq![p.0] + q.0, q.1)),
                None => None,
            }
        } else {
            Some((seq![p.0], p.1))
        },
        None => None,
    }
}

#[via_fn]
proof fn p_lists_dec(s: Seq<char>) {
    lemma_p_list_shrinks(s);
}

/// The whole persisted form: an array of column records and nothing after.
pub open spec fn spec_decode(s: Seq<char>) -> Option<Seq<AbsList>> {
    if s.len() == 2 && s[0] == '[' && s[1] == ']' {
        Some(Seq::empty())
    } else if s.len() > 0 && s[0] == '[' {
        match p_lists(s.drop_first()) {
            Some(p) => if p.1.len() == 1 && p.1[0] == ']' {
                Some(p.0)
            } else {
                None
            },
            None => None,
        }
    } else {
        None
    }
}

// ----- the round trip: the parser inverts the encoder -----

/// The parser reads an escaped text back, leaving exactly what followed the
/// closing quote.
pub proof fn lemma_rt_text(t: Seq<char>, rest: Seq<char>)
    ensures
        p_text(enc_text(t) + seq!['"'] + rest) == Some((t, rest)),
    decreases t.len(),
{
    let s = enc_text(t) + seq!['"'] + rest;
    if t.len() == 0 {
        assert(s =~= seq!['"'] + rest);
        assert(s[0] == '"');
        assert(s.drop_first() =~= rest);
    } else {
        let c = t[0];
        let t2 = t.drop_first();
        lemma_rt_text(t2, rest);
        if c == '"' || c == '\\' {
            assert(s =~= seq!['\\', c] + (enc_text(t2) + seq!['"'] + rest));
            assert(s[0] == '\\');
            assert(s[1] == c);
            assert(s.subrange(2, s.len() as int) =~= enc_text(t2) + seq!['"'] + rest);
            assert(seq![s[1]] + t2 =~= t);
        } else {
            assert(s =~= seq![c] + (enc_text(t2) + seq!['"'] + rest));
            assert(s[0] == c);
            assert(s.drop_first() =~= enc_text(t2) + seq!['"'] + rest);
            assert(seq![s[0]] + t2 =~= t);
        }
    }
}

/// The parser reads a quoted text back.
pub proof fn lemma_rt_string(t: Seq<char>, rest: Seq<char>)
    ensures
        p_string(enc_string(t) + rest) == Some((t, rest)),
{
    let s = enc_string(t) + rest;
    assert(s[0] == '"');
    assert(s.drop_first() =~= enc_text(t) + seq!['"'] + rest);
    lemma_rt_text(t, rest);
}

/// The parser consumes a fixed token it was built for.
pub proof fn lemma_rt_lit(tok: Seq<char>, rest: Seq<char>)
    ensures
        p_lit(tok + rest, tok) == Some(rest),
{
    let s = tok + rest;
    assert(s.subrange(0, tok.len() as int) =~= tok);
    assert(s.subrange(tok.len() as int, s.len() as int) =~= rest);
}

/// The parser reads comma-separated quoted texts back, as long as what
/// follows them does not begin with another comma.
pub proof fn lemma_rt_texts(ts: Seq<Seq<char>>, rest: Seq<char>)
    requires
        ts.len() > 0,
        rest.len() == 0 || rest[0] != ',',
    ensures
        p_texts(enc_texts(ts) + rest) == Some((ts, rest)),
    decreases ts.len(),
{
    let s = enc_texts(ts) + rest;
    if ts.len() == 1 {
        assert(s =~= enc_string(ts[0]) + rest);
        lemma_rt_string(ts[0], rest);
        assert(seq![ts[0]] =~= ts);
    } else {
        let ts2 = ts.drop_first();
        let mid = seq![','] + enc_texts(ts2) + rest;
        assert(s =~= enc_string(ts[0]) + mid);
        lemma_rt_string(ts[0], mid);
        assert(mid[0] == ',');
        assert(mid.drop_first() =~= enc_texts(ts2) + rest);
        lemma_rt_texts(ts2, rest);
        assert(seq![ts[0]] + ts2 =~= ts);
    }
}

/// The parser reads a task array back.
pub proof fn lemma_rt_tasks(ts: Seq<Seq<char>>, rest: Seq<char>)
    requires
        rest.len() == 0 || rest[0] != ',',
    ensures
        p_tasks(enc_tasks(ts) + rest) == Some((ts, rest)),
{
    let s = enc_tasks(ts) + rest;
    assert(s[0] == '[');
    if ts.len() == 0 {
        assert(s =~= seq!['[', ']'] + rest);
        assert(s[1] == ']');
        assert(s.subrange(2, s.len() as int) =~= rest);
        assert(Seq::<Seq<char>>::empty() =~= ts);
    } else {
        let close = seq![']'] + rest;
        assert(s.drop_first() =~= enc_texts(ts) + close);
        lemma_rt_texts(ts, close);
        assert(enc_texts(ts)[0] == '"') by {
            assert(enc_string(ts[0])[0] == '"');
        }
        assert(s[1] == '"');
        assert(close.drop_first() =~= rest);
    }
}

/// The parser reads one column record back.
pub proof fn lemma_rt_list(l: AbsList, rest: Seq<char>)
    ensures
        p_list(enc_list(l) + rest) == Some((l, rest)),
{
    let s = enc_list(l) + rest;
    let r1 = enc_string(l.name) + tasks_tok() + enc_tasks(l.tasks) + seq!['}'] + rest;
    assert(s =~= name_tok() + r1);
    lemma_rt_lit(name_tok(), r1);
    let r2 = tasks_tok() + enc_tasks(l.tasks) + seq!['}'] + rest;
    assert(r1 =~= enc_string(l.name) + r2);
    lemma_rt_string(l.name, r2);
    let r3 = enc_tasks(l.tasks) + seq!['}'] + rest;
    assert(r2 =~= tasks_tok() + r3);
    lemma_rt_lit(tasks_tok(), r3);
    let r4 = seq!['}'] + rest;
    assert(r3 =~= enc_tasks(l.tasks) + r4);
    lemma_rt_tasks(l.tasks, r4);
    assert(r4[0] == '}');
    assert(r4.drop_first() =~= rest);
}

/// The parser reads comma-separated column records back, as long as what
/// follows them does not begin with another comma.
#[verifier::rlimit(30)]
pub proof fn lemma_rt_lists(ls: Seq<AbsList>, rest: Seq<char>)
    requires
        ls.len() > 0,
        rest.len() == 0 || rest[0] != ',',
    ensures
        p_lists(enc_lists(ls) + rest) == Some((ls, rest)),
    decreases ls.len(),
{
    let s = enc_lists(ls) + rest;
    if ls.len() == 1 {
        assert(s =~= enc_list(ls[0]) + rest);
        lemma_rt_list(ls[0], rest);
        assert(seq![ls[0]] =~= ls);
    } else {
        let ls2 = ls.drop_first();
        let mid = seq![','] + enc_lists(ls2) + rest;
        assert(s =~= enc_list(ls[0]) + mid);
        lemma_rt_list(ls[0], mid);
        assert(mid[0] == ',');
        assert(mid.drop_first() =~= enc_lists(ls2) + rest);
        lemma_rt_lists(ls2, rest);
        assert(seq![ls[0]] + ls2 =~= ls);
    }
}

/// Law: the round trip — decoding an encoded board restores it exactly,
/// every column name, task order and task text, including empty texts and
/// empty columns.
pub proof fn lemma_round_trip(ls: Seq<AbsList>)
    ensures
        spec_decode(enc_board(ls)) == Some(ls),
{
    let s = enc_board(ls);
    assert(s[0] == '[');
    if ls.len() == 0 {
        assert(s =~= seq!['[', ']']);
        assert(Seq::<AbsList>::empty() =~= ls);
    } else {
        let close = seq![']'];
        assert(s.drop_first() =~= enc_lists(ls) + close);
        lemma_rt_lists(ls, close);
        assert(enc_lists(ls)[0] == '{') by {
            assert(enc_list(ls[0])[0] == '{');
        }
        assert(s[1] == '{');
        assert(s.len() != 2 || s[1] != ']');
        assert(close.len() == 1 && close[0] == ']');
    }
}

// ----- the executable decoder, each function mirroring its parser -----

/// The inside of a quoted text, starting at `i`.
fn d_text(s: &Vec<char>, i: usize) -> (r: Option<(Vec<char>, usize)>)
    requires
        i <= s@.len(),
    ensures
        r is Some <==> p_text(s@.skip(i as int)) is Some,
        r matches Some(rv) ==> ({
            let sp = p_text(s@.skip(i as int)).unwrap();
            &&& rv.0@ == sp.0
            &&& i < rv.1 <= s@.len()
            &&& s@.skip(rv.1 as int) == sp.1
        }),
    decreases s@.len() - i,
{
    if i == s.len() {
        return None;
    }
    let c = s[i];
    proof {
        assert(s@.skip(i as int)[0] == s@[i as int]);
    }
    if c == '"' {
        let v: Vec<char> = Vec::new();
        proof {
            assert(s@.skip(i as int).drop_first() =~= s@.skip(i + 1));
        }
        return Some((v, i + 1));
    }
    if c == '\\' {
        if i + 1 < s.len() {
            let c2 = s[i + 1];
            proof {
                assert(s@.skip(i as int)[1] == s@[i + 1]);
            }
            if c2 == '"' || c2 == '\\' {
                proof {
                    assert(s@.skip(i as int).subrange(2, s@.skip(i as int).len() as int) =~= s@.skip(
                        i + 2,
                    ));
                }
                match d_text(s, i + 2) {
                    Some((mut v, j)) => {
                        v.insert(0, c2);
                        proof {
                            assert(v@ =~= seq![s@.skip(i as int)[1]] + p_text(
                                s@.skip(i + 2),
                            ).unwrap().0);
                        }
                        return Some((v, j));
                    },
                    None => {
                        return None;
                    },
                }
            }
        }
        return None;
    }
    proof {
        assert(s@.skip(i as int).drop_first() =~= s@.skip(i + 1));
    }
    match d_text(s, i + 1) {
        Some((mut v, j)) => {
            v.insert(0, c);
            proof {
                assert(v@ =~= seq![s@.skip(i as int)[0]] + p_text(s@.skip(i + 1)).unwrap().0);
            }
            Some((v, j))
        },
        None => None,
    }
}

/// A quoted text, starting at `i`.
fn d_string(s: &Vec<char>, i: usize) -> (r: Option<(String, usize)>)
    requires
        i <= s@.len(),
    ensures
        r is Some <==> p_string(s@.skip(i as int)) is Some,
        r matches Some(rv) ==> ({
            let sp = p_string(s@.skip(i as int)).unwrap();
            &&& rv.0@ == sp.0
            &&& i < rv.1 <= s@.len()
            &&& s@.skip(rv.1 as int) == sp.1
        }),
{
    if i < s.len() && s[i] == '"' {
        proof {
            assert(s@.skip(i as int)[0] == s@[i as int]);
            assert(s@.skip(i as int).drop_first() =~= s@.skip(i + 1));
        }
        match d_text(s, i + 1) {
            Some((v, j)) => Some((crate::text::chars_to_string(&v), j)),
            None => None,
        }
    } else {
        proof {
            if i < s@.len() {
                assert(s@.skip(i as int)[0] == s@[i as int]);
            }
        }
        None
    }
}

/// The opening token of a column record, starting at `i`.
fn d_name_tok(s: &Vec<char>, i: usize) -> (r: Option<usize>)
    requires
        i <= s@.len(),
    ensures
        r is Some <==> p_lit(s@.skip(i as int), name_tok()) is Some,
        r matches Some(j) ==> ({
            &&& i < j <= s@.len()
            &&& s@.skip(j as int) == p_lit(s@.skip(i as int), name_tok()).unwrap()
        }),
{
    proof {
        if i + 8 <= s@.len() {
            assert(forall|k: int| 0 <= k < 8 ==> s@.skip(i as int).subrange(0, 8)[k] == s@[i + k]);
        }
    }
    if s.len() - i >= 8 && s[i] == '{' && s[i + 1] == '"' && s[i + 2] == 'n' && s[i + 3] == 'a'
        && s[i + 4] == 'm' && s[i + 5] == 'e' && s[i + 6] == '"' && s[i + 7] == ':' {
        proof {
            assert(s@.skip(i as int).subrange(0, 8) =~= name_tok());
            assert(s@.skip(i as int).subrange(8, s@.skip(i as int).len() as int) =~= s@.skip(i + 8));
        }
        Some(i + 8)
    } else {
        proof {
            if i + 8 <= s@.len() && s@.skip(i as int).subrange(0, 8) == name_tok() {
                assert(forall|k: int|
                    0 <= k < 8 ==> s@.skip(i as int).subrange(0, 8)[k] == name_tok()[k]);
                assert(false);
            }
        }
        None
    }
}

/// The separator token before a task array, starting at `i`.
fn d_tasks_tok(s: &Vec<char>, i: usize) -> (r: Option<usize>)
    requires
        i <= s@.len(),
    ensures
        r is Some <==> p_lit(s@.skip(i as int), tasks_tok()) is Some,
        r matches Some(j) ==> ({
            &&& i < j <= s@.len()
            &&& s@.skip(j as int) == p_lit(s@.skip(i as int), tasks_tok()).unwrap()
        }),
{
    proof {
        if i + 9 <= s@.len() {
            assert(forall|k: int| 0 <= k < 9 ==> s@.skip(i as int).subrange(0, 9)[k] == s@[i + k]);
        }
    }
    if s.len() - i >= 9 && s[i] == ',' && s[i + 1] == '"' && s[i + 2] == 't' && s[i + 3] == 'a'
        && s[i + 4] == 's' && s[i + 5] == 'k' && s[i + 6] == 's' && s[i + 7] == '"' && s[i + 8]
        == ':' {
        proof {
            assert(s@.skip(i as int).subrange(0, 9) =~= tasks_tok());
            assert(s@.skip(i as int).subrange(9, s@.skip(i as int).len() as int) =~= s@.skip(i + 9));
        }
        Some(i + 9)
    } else {
        proof {
            if i + 9 <= s@.len() && s@.skip(i as int).subrange(0, 9) == tasks_tok() {
                assert(forall|k: int|
                    0 <= k < 9 ==> s@.skip(i as int).subrange(0, 9)[k] == tasks_tok()[k]);
                assert(false);
            }
        }
        None
    }
}

/// Comma-separated quoted texts, starting at `i`.
fn d_texts(s: &Vec<char>, i: usize) -> (r: Option<(Vec<String>, usize)>)
    requires
        i <= s@.len(),
    ensures
        r is Some <==> p_texts(s@.skip(i as int)) is Some,
        r matches Some(rv) ==> ({
            let sp = p_texts(s@.skip(i as int)).unwrap();
            &&& texts_of(rv.0@) == sp.0
            &&& i < rv.1 <= s@.len()
            &&& s@.skip(rv.1 as int) == sp.1
        }),
    decreases s@.len() - i,
{
    match d_string(s, i) {
        Some((t, j)) => {
            if j < s.len() && s[j] == ',' {
                proof {
                    assert(s@.skip(j as int)[0] == s@[j as int]);
                    assert(s@.skip(j as int).drop_first() =~= s@.skip(j + 1));
                }
                match d_texts(s, j + 1) {
                    Some((mut ts, k)) => {
                        ts.insert(0, t);
                        proof {
                            let sp = p_string(s@.skip(i as int)).unwrap();
                            let q = p_texts(s@.skip(j + 1)).unwrap();
                            assert(texts_of(ts@) =~= seq![sp.0] + q.0);
                        }
                        Some((ts, k))
                    },
                    None => None,
                }
            } else {
                proof {
                    if j < s@.len() {
                        assert(s@.skip(j as int)[0] == s@[j as int]);
                    }
                }
                let mut ts: Vec<String> = Vec::new();
                ts.push(t);
                proof {
                    let sp = p_string(s@.skip(i as int)).unwrap();
                    assert(texts_of(ts@) =~= seq![sp.0]);
                }
                Some((ts, j))
            }
        },
        None => None,
    }
}

/// A bracketed task array, starting at `i`.
fn d_tasks(s: &Vec<char>, i: usize) -> (r: Option<(Vec<String>, usize)>)
    requires
        i <= s@.len(),
    ensures
        r is Some <==> p_tasks(s@.skip(i as int)) is Some,
        r matches Some(rv) ==> ({
            let sp = p_tasks(s@.skip(i as int)).unwrap();
            &&& texts_of(rv.0@) == sp.0
            &&& i < rv.1 <= s@.len()
            &&& s@.skip(rv.1 as int) == sp.1
        }),
{
    proof {
        if i < s@.len() {
            assert(s@.skip(i as int)[0] == s@[i as int]);
        }
        if i + 1 < s@.len() {
            assert(s@.skip(i as int)[1] == s@[i + 1]);
        }
    }
    if s.len() - i >= 2 && s[i] == '[' && s[i + 1] == ']' {
        let ts: Vec<String> = Vec::new();
        proof {
            assert(s@.skip(i as int).subrange(2, s@.skip(i as int).len() as int) =~= s@.skip(i + 2));
            assert(texts_of(ts@) =~= Seq::<Seq<char>>::empty());
        }
        return Some((ts, i + 2));
    }
    if i < s.len() && s[i] == '[' {
        proof {
            assert(s@.skip(i as int).drop_first() =~= s@.skip(i + 1));
        }
        match d_texts(s, i + 1) {
            Some((ts, j)) => {
                proof {
                    if j < s@.len() {
                        assert(s@.skip(j as int)[0] == s@[j as int]);
                    }
                }
                if j < s.len() && s[j] == ']' {
                    proof {
                        assert(s@.skip(j as int).drop_first() =~= s@.skip(j + 1));
                    }
                    Some((ts, j + 1))
                } else {
                    None
                }
            },
            None => None,
        }
    } else {
        None
    }
}

/// One column record, starting at `i`.
fn d_list(s: &Vec<char>, i: usize) -> (r: Option<(TaskList, usize)>)
    requires
        i <= s@.len(),
    ensures
        r is Some <==> p_list(s@.skip(i as int)) is Some,
        r matches Some(rv) ==> ({
            let sp = p_list(s@.skip(i as int)).unwrap();
            &&& rv.0@ == sp.0
            &&& i < rv.1 <= s@.len()
            &&& s@.skip(rv.1 as int) == sp.1
        }),
{
    match d_name_tok(s, i) {
        Some(j1) => match d_string(s, j1) {
            Some((name, j2)) => match d_tasks_tok(s, j2) {
                Some(j3) => match d_tasks(s, j3) {
                    Some((tasks, j4)) => {
                        proof {
                            if j4 < s@.len() {
                                assert(s@.skip(j4 as int)[0] == s@[j4 as int]);
                            }
                        }
                        if j4 < s.len() && s[j4] == '}' {
                            let l = TaskList { name, tasks };
                            proof {
                                assert(s@.skip(j4 as int).drop_first() =~= s@.skip(j4 + 1));
                                assert(l@ =~~= p_list(s@.skip(i as int)).unwrap().0);
                            }
                            Some((l, j4 + 1))
                        } else {
                            None
                        }
                    },
                    None => None,
                },
                None => None,
            },
            None => None,
        },
        None => None,
    }
}

/// Comma-separated column records, starting at `i`.
fn d_lists(s: &Vec<char>, i: usize) -> (r: Option<(Vec<TaskList>, usize)>)
    requires
        i <= s@.len(),
    ensures
        r is Some <==> p_lists(s@.skip(i as int)) is Some,
        r matches Some(rv) ==> ({
            let sp = p_lists(s@.skip(i as int)).unwrap();
            &&& cols_of(rv.0@) == sp.0
            &&& i < rv.1 <= s@.len()
            &&& s@.skip(rv.1 as int) == sp.1
        }),
    decreases s@.len() - i,
{
    match d_list(s, i) {
        Some((l, j)) => {
            if j < s.len() && s[j] == ',' {
                proof {
                    assert(s@.skip(j as int)[0] == s@[j as int]);
                    assert(s@.skip(j as int).drop_first() =~= s@.skip(j + 1));
                }
                match d_lists(s, j + 1) {
                    Some((mut ls, k)) => {
                        ls.insert(0, l);
                        proof {
                            let sp = p_list(s@.skip(i as int)).unwrap();
                            let q = p_lists(s@.skip(j + 1)).unwrap();
                            assert(cols_of(ls@) =~= seq![sp.0] + q.0);
                        }
                        Some((ls, k))
                    },
                    None => None,
                }
            } else {
                proof {
                    if j < s@.len() {
                        assert(s@.skip(j as int)[0] == s@[j as int]);
                    }
                }
                let mut ls: Vec<TaskList> = Vec::new();
                ls.push(l);
                proof {
                    let sp = p_list(s@.skip(i as int)).unwrap();
                    assert(cols_of(ls@) =~= seq![sp.0]);
                }
                Some((ls, j))
            }
        },
        None => None,
    }
}

/// Decode a whole persisted board. Returns the columns exactly when the text
/// is a complete well-formed encoding, as `spec_decode` describes.
pub fn decode_lists(s: &str) -> (r: Option<Vec<TaskList>>)
    ensures
        r is Some <==> spec_decode(s@) is Some,
        r matches Some(v) ==> cols_of(v@) == spec_decode(s@).unwrap(),
{
    let cs = crate::text::str_to_chars(s);
    if cs.len() == 2 {
        let a = cs[0];
        let b = cs[1];
        if a == '[' && b == ']' {
            let v: Vec<TaskList> = Vec::new();
            proof {
                assert(cols_of(v@) =~= Seq::<AbsList>::empty());
            }
            return Some(v);
        }
    }
    if cs.len() > 0 && cs[0] == '[' {
        proof {
            assert(cs@.skip(1) =~= cs@.drop_first());
        }
        match d_lists(&cs, 1) {
            Some((ls, j)) => {
                proof {
                    if j < cs@.len() {
                        assert(cs@.skip(j as int)[0] == cs@[j as int]);
                    }
                    assert(cs@.skip(j as int).len() == cs@.len() - j);
                }
                if j == cs.len() - 1 && cs[j] == ']' {
                    Some(ls)
                } else {
                    None
                }
            },
            None => None,
        }
    } else {
        None
    }
}

// ----- the executable encoder, each function mirroring its spec -----

/// Append the escaped characters of `cs` from position `k` on.
fn e_text(out: &mut Vec<char>, cs: &Vec<char>, k: usize)
    requires
        k <= cs@.len(),
    ensures
        final(out)@ == old(out)@ + enc_text(cs@.skip(k as int)),
    decreases cs@.len() - k,
{
    if k == cs.len() {
        proof {
            assert(out@ =~= old(out)@ + enc_text(cs@.skip(k as int)));
        }
        return;
    }
    let c = cs[k];
    if c == '"' || c == '\\' {
        out.push('\\');
        out.push(c);
    } else {
        out.push(c);
    }
    e_text(out, cs, k + 1);
    proof {
        assert(cs@.skip(k as int)[0] == cs@[k as int]);
        assert(cs@.skip(k as int).drop_first() =~= cs@.skip(k + 1));
        assert(out@ =~= old(out)@ + enc_text(cs@.skip(k as int)));
    }
}

/// Append a quoted, escaped text.
fn e_string(out: &mut Vec<char>, t: &String)
    ensures
        final(out)@ == old(out)@ + enc_string(t@),
{
    let cs = crate::text::str_to_chars(t.as_str());
    out.push('"');
    proof {
        assert(cs@.skip(0) =~= t@);
    }
    e_text(out, &cs, 0);
    out.push('"');
    proof {
        assert(out@ =~= old(out)@ + enc_string(t@));
    }
}

/// Append the comma-separated quoted texts of `ts` from position `k` on.
fn e_texts(out: &mut Vec<char>, ts: &Vec<String>, k: usize)
    requires
        k <= ts@.len(),
    ensures
        final(out)@ == old(out)@ + enc_texts(texts_of(ts@).skip(k as int)),
    decreases ts@.len() - k,
{
    if k == ts.len() {
        proof {
            assert(out@ =~= old(out)@ + enc_texts(texts_of(ts@).skip(k as int)));
        }
        return;
    }
    e_string(out, &ts[k]);
    if k + 1 < ts.len() {
        out.push(',');
        e_texts(out, ts, k + 1);
    }
    proof {
        assert(texts_of(ts@).skip(k as int)[0] == ts@[k as int]@);
        assert(texts_of(ts@).skip(k as int).drop_first() =~= texts_of(ts@).skip(k + 1));
        assert(out@ =~= old(out)@ + enc_texts(texts_of(ts@).skip(k as int)));
    }
}

/// Append a bracketed task array.
fn e_tasks(out: &mut Vec<char>, ts: &Vec<String>)
    ensures
        final(out)@ == old(out)@ + enc_tasks(texts_of(ts@)),
{
    out.push('[');
    proof {
        assert(texts_of(ts@).skip(0) =~= texts_of(ts@));
    }
    e_texts(out, ts, 0);
    out.push(']');
    proof {
        assert(out@ =~= old(out)@ + enc_tasks(texts_of(ts@)));
    }
}

/// Append one column record.
fn e_list(out: &mut Vec<char>, l: &TaskList)
    ensures
        final(out)@ == old(out)@ + enc_list(l@),
{
    out.push('{');
    out.push('"');
    out.push('n');
    out.push('a');
    out.push('m');
    out.push('e');
    out.push('"');
    out.push(':');
    proof {
        assert(out@ =~= old(out)@ + name_tok());
    }
    e_string(out, &l.name);
    out.push(',');
    out.push('"');
    out.push('t');
    out.push('a');
    out.push('s');
    out.push('k');
    out.push('s');
    out.push('"');
    out.push(':');
    e_tasks(out, &l.tasks);
    out.push('}');
    proof {
        assert(out@ =~= old(out)@ + enc_list(l@));
    }
}

/// Append the comma-separated column records of `ls` from position `k` on.
fn e_lists(out: &mut Vec<char>, ls: &Vec<TaskList>, k: usize)
    requires
        k <= ls@.len(),
    ensures
        final(out)@ == old(out)@ + enc_lists(cols_of(ls@).skip(k as int)),
    decreases ls@.len() - k,
{
    if k == ls.len() {
        proof {
            assert(out@ =~= old(out)@ + enc_lists(cols_of(ls@).skip(k as int)));
        }
        return;
    }
    e_list(out, &ls[k]);
    if k + 1 < ls.len() {
        out.push(',');
        e_lists(out, ls, k + 1);
    }
    proof {
        assert(cols_of(ls@).skip(k as int)[0] == ls@[k as int]@);
        assert(cols_of(ls@).skip(k as int).drop_first() =~= cols_of(ls@).skip(k + 1));
        assert(out@ =~= old(out)@ + enc_lists(cols_of(ls@).skip(k as int)));
    }
}

/// Encode a whole board into its persisted form.
pub fn encode_lists(lists: &Vec<TaskList>) -> (r: String)
    ensures
        r@ == enc_board(cols_of(lists@)),
{
    let mut out: Vec<char> = Vec::new();
    out.push('[');
    proof {
        assert(cols_of(lists@).skip(0) =~= cols_of(lists@));
    }
    e_lists(&mut out, lists, 0);
    out.push(']');
    proof {
        assert(out@ =~= enc_board(cols_of(lists@)));
    }
    crate::text::chars_to_string(&out)
}

} // verus!
