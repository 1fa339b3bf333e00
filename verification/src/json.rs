//! The wire format: a JSON document model with a verified printer and parser.
//!
//! Payloads on the broker are JSON texts. `Json` is the executable document
//! tree; `GJson` is its mathematical image, over which the printing and
//! parsing functions are specified. The printer emits canonical text (no
//! inter-token spacing); the parser accepts arbitrary inter-token whitespace
//! and any member order, and keeps number tokens verbatim as lexemes.
use vstd::prelude::*;

use crate::text::{all_digits, dec_digits, digit_char, digit_val, int_digits, is_digit};

verus! {

broadcast use {vstd::seq::group_seq_axioms, vstd::std_specs::vec::group_vec_axioms};

/// An executable JSON document. Numbers are kept as their wire lexeme, so
/// non-integral values pass through without a floating-point representation.
#[derive(Debug)]
pub enum Json {
    Null,
    Bool(bool),
    Num(String),
    Str(String),
    Arr(Vec<Json>),
    Obj(Vec<(String, Json)>),
}

/// The mathematical image of a document: what contracts speak about.
pub enum GJson {
    Null,
    Bool(bool),
    Num(Seq<char>),
    Str(Seq<char>),
    Arr(Seq<GJson>),
    Obj(Seq<(Seq<char>, GJson)>),
}

pub open spec fn jview(j: Json) -> GJson
    decreases j, 0int,
{
    match j {
        Json::Null => GJson::Null,
        Json::Bool(b) => GJson::Bool(b),
        Json::Num(s) => GJson::Num(s@),
        Json::Str(s) => GJson::Str(s@),
        Json::Arr(v) => GJson::Arr(jview_arr(v, 0)),
        Json::Obj(v) => GJson::Obj(jview_obj(v, 0)),
    }
}

pub open spec fn jview_arr(v: Vec<Json>, i: int) -> Seq<GJson>
    decreases v, v@.len() - i,
{
    if i < 0 || i >= v@.len() {
        Seq::empty()
    } else {
        seq![jview(v@[i])] + jview_arr(v, i + 1)
    }
}

pub open spec fn jview_obj(v: Vec<(String, Json)>, i: int) -> Seq<(Seq<char>, GJson)>
    decreases v, v@.len() - i,
{
    if i < 0 || i >= v@.len() {
        Seq::empty()
    } else {
        seq![(v@[i].0@, jview(v@[i].1))] + jview_obj(v, i + 1)
    }
}

pub proof fn lemma_jview_arr(v: Vec<Json>, i: int)
    requires
        0 <= i <= v@.len(),
    ensures
        jview_arr(v, i).len() == v@.len() - i,
        forall|k: int| 0 <= k < v@.len() - i ==> jview_arr(v, i)[k] == jview(v@[i + k]),
    decreases v@.len() - i,
{
    if i < v@.len() {
        lemma_jview_arr(v, i + 1);
    }
}

pub proof fn lemma_jview_obj(v: Vec<(String, Json)>, i: int)
    requires
        0 <= i <= v@.len(),
    ensures
        jview_obj(v, i).len() == v@.len() - i,
        forall|k: int|
            0 <= k < v@.len() - i ==> jview_obj(v, i)[k] == (v@[i + k].0@, jview(v@[i + k].1)),
    decreases v@.len() - i,
{
    if i < v@.len() {
        lemma_jview_obj(v, i + 1);
    }
}

impl View for Json {
    type V = GJson;

    open spec fn view(&self) -> GJson {
        jview(*self)
    }
}

// ------------------------------------------------------------------
// Escaping of string contents.
// ------------------------------------------------------------------
pub open spec fn hex_char(d: nat) -> char
    recommends
        d < 16,
{
    if d < 10 {
        digit_char(d)
    } else {
        (((d - 10 + 'a' as nat) as u8) as char)
    }
}

pub open spec fn is_hex(c: char) -> bool {
    is_digit(c) || ('a' <= c && c <= 'f') || ('A' <= c && c <= 'F')
}

pub open spec fn hex_val(c: char) -> nat {
    if is_digit(c) {
        digit_val(c)
    } else if 'a' <= c && c <= 'f' {
        (c as nat - 'a' as nat + 10) as nat
    } else {
        (c as nat - 'A' as nat + 10) as nat
    }
}

/// How one character appears inside a printed JSON string.
pub open spec fn esc_char(c: char) -> Seq<char> {
    if c == '"' {
        seq!['\\', '"']
    } else if c == '\\' {
        seq!['\\', '\\']
    } else if c == '\n' {
        seq!['\\', 'n']
    } else if c == '\r' {
        seq!['\\', 'r']
    } else if c == '\t' {
        seq!['\\', 't']
    } else if (c as u32) < 0x20 {
        seq!['\\', 'u', '0', '0', hex_char(((c as u32) / 16) as nat), hex_char(((c as u32) % 16) as nat)]
    } else {
        seq![c]
    }
}

pub open spec fn esc(s: Seq<char>) -> Seq<char>
    decreases s.len(),
{
    if s.len() == 0 {
        Seq::empty()
    } else {
        esc(s.drop_last()) + esc_char(s.last())
    }
}

/// Front unfolding of `esc`, for proofs that walk the text left to right.
pub proof fn lemma_esc_first(s: Seq<char>)
    requires
        s.len() >= 1,
    ensures
        esc(s) == esc_char(s[0]) + esc(s.skip(1)),
    decreases s.len(),
{
    if s.len() == 1 {
        assert(s.last() == s[0]);
        assert(s.drop_last().len() == 0);
        assert(s.skip(1).len() == 0);
        assert(esc(s.drop_last()) =~= Seq::<char>::empty());
        assert(esc(s.skip(1)) =~= Seq::<char>::empty());
        assert(esc(s) == esc(s.drop_last()) + esc_char(s.last()));
        assert(esc(s) =~= esc_char(s[0]) + esc(s.skip(1)));
    } else {
        lemma_esc_first(s.drop_last());
        assert(s.drop_last()[0] == s[0]);
        assert(s.skip(1).drop_last() =~= s.drop_last().skip(1));
        assert(s.skip(1).last() == s.last());
        assert(esc(s.skip(1)) == esc(s.skip(1).drop_last()) + esc_char(s.skip(1).last()));
        assert(esc(s) =~= esc_char(s[0]) + esc(s.skip(1)));
    }
}

// ------------------------------------------------------------------
// Printing.
// ------------------------------------------------------------------
/// The canonical text of a document.
pub open spec fn spec_print(g: GJson) -> Seq<char>
    decreases g,
{
    match g {
        GJson::Null => seq!['n', 'u', 'l', 'l'],
        GJson::Bool(b) => if b {
            seq!['t', 'r', 'u', 'e']
        } else {
            seq!['f', 'a', 'l', 's', 'e']
        },
        GJson::Num(s) => s,
        GJson::Str(s) => seq!['"'] + esc(s) + seq!['"'],
        GJson::Arr(elems) => seq!['['] + spec_print_elems(elems) + seq![']'],
        GJson::Obj(fields) => seq!['{'] + spec_print_members(fields) + seq!['}'],
    }
}

pub open spec fn spec_print_elems(elems: Seq<GJson>) -> Seq<char>
    decreases elems,
{
    if elems.len() == 0 {
        Seq::empty()
    } else if elems.len() == 1 {
        spec_print(elems[0])
    } else {
        spec_print(elems[0]) + seq![','] + spec_print_elems(elems.skip(1))
    }
}

pub open spec fn spec_print_members(fields: Seq<(Seq<char>, GJson)>) -> Seq<char>
    decreases fields,
{
    if fields.len() == 0 {
        Seq::empty()
    } else {
        let head = seq!['"'] + esc(fields[0].0) + seq!['"', ':'] + spec_print(fields[0].1);
        if fields.len() == 1 {
            head
        } else {
            head + seq![','] + spec_print_members(fields.skip(1))
        }
    }
}

// ------------------------------------------------------------------
// Well-formedness: what the printer may be fed so that parsing it back
// returns the same document.
// ------------------------------------------------------------------
/// Characters a number token may contain.
pub open spec fn num_char(c: char) -> bool {
    is_digit(c) || c == '-' || c == '+' || c == '.' || c == 'e' || c == 'E'
}

/// A printable number lexeme: nonempty, starts like a number, made of
/// number characters only.
pub open spec fn wf_num(s: Seq<char>) -> bool {
    s.len() >= 1 && (is_digit(s[0]) || s[0] == '-') && (forall|i: int|
        0 <= i < s.len() ==> num_char(#[trigger] s[i]))
}

pub open spec fn wf(g: GJson) -> bool
    decreases g,
{
    match g {
        GJson::Null => true,
        GJson::Bool(_) => true,
        GJson::Num(s) => wf_num(s),
        GJson::Str(_) => true,
        GJson::Arr(elems) => forall|i: int| 0 <= i < elems.len() ==> wf(#[trigger] elems[i]),
        GJson::Obj(fields) => forall|i: int|
            0 <= i < fields.len() ==> wf(#[trigger] fields[i].1),
    }
}

// ------------------------------------------------------------------
// Parsing.
// ------------------------------------------------------------------
pub open spec fn is_ws(c: char) -> bool {
    c == ' ' || c == '\n' || c == '\t' || c == '\r'
}

pub open spec fn skip_ws(s: Seq<char>) -> Seq<char>
    decreases s.len(),
{
    if s.len() > 0 && is_ws(s[0]) {
        skip_ws(s.skip(1))
    } else {
        s
    }
}

/// The longest prefix of number characters, and what follows it.
pub open spec fn lex_num(s: Seq<char>) -> (Seq<char>, Seq<char>)
    decreases s.len(),
{
    if s.len() > 0 && num_char(s[0]) {
        let (l, r) = lex_num(s.skip(1));
        (seq![s[0]] + l, r)
    } else {
        (Seq::empty(), s)
    }
}

/// The body of a string token: everything up to the closing quote,
/// unescaped; fails on malformed escapes and raw control characters.
pub open spec fn spec_parse_str(s: Seq<char>) -> Option<(Seq<char>, Seq<char>)>
    decreases s.len(),
{
    if s.len() == 0 {
        None
    } else if s[0] == '"' {
        Some((Seq::empty(), s.skip(1)))
    } else if s[0] == '\\' {
        if s.len() < 2 {
            None
        } else if s[1] == 'u' {
            if s.len() < 6 {
                None
            } else if is_hex(s[2]) && is_hex(s[3]) && is_hex(s[4]) && is_hex(s[5]) {
                let n = hex_val(s[2]) * 0x1000 + hex_val(s[3]) * 0x100 + hex_val(s[4]) * 0x10
                    + hex_val(s[5]);
                if n < 0xD800 {
                    match spec_parse_str(s.skip(6)) {
                        Some((t, r)) => Some((seq![((n as u32) as char)] + t, r)),
                        None => None,
                    }
                } else {
                    None
                }
            } else {
                None
            }
        } else {
            let c1 = s[1];
            let u = if c1 == '"' {
                Some('"')
            } else if c1 == '\\' {
                Some('\\')
            } else if c1 == '/' {
                Some('/')
            } else if c1 == 'n' {
                Some('\n')
            } else if c1 == 'r' {
                Some('\r')
            } else if c1 == 't' {
                Some('\t')
            } else if c1 == 'b' {
                Some('\u{8}')
            } else if c1 == 'f' {
                Some('\u{c}')
            } else {
                None
            };
            match u {
                Some(c) => match spec_parse_str(s.skip(2)) {
                    Some((t, r)) => Some((seq![c] + t, r)),
                    None => None,
                },
                None => None,
            }
        }
    } else if (s[0] as u32) < 0x20 {
        None
    } else {
        match spec_parse_str(s.skip(1)) {
            Some((t, r)) => Some((seq![s[0]] + t, r)),
            None => None,
        }
    }
}

/// One JSON value and what follows it. Leading whitespace is skipped;
/// trailing text is handed back verbatim.
pub open spec fn spec_parse_value(s: Seq<char>) -> Option<(GJson, Seq<char>)>
    decreases s.len(), 0int,
{
    let t = skip_ws(s);
    if t.len() > s.len() || t.len() == 0 {
        None
    } else if t[0] == 'n' {
        if t.len() >= 4 && t.subrange(0, 4) == seq!['n', 'u', 'l', 'l'] {
            Some((GJson::Null, t.skip(4)))
        } else {
            None
        }
    } else if t[0] == 't' {
        if t.len() >= 4 && t.subrange(0, 4) == seq!['t', 'r', 'u', 'e'] {
            Some((GJson::Bool(true), t.skip(4)))
        } else {
            None
        }
    } else if t[0] == 'f' {
        if t.len() >= 5 && t.subrange(0, 5) == seq!['f', 'a', 'l', 's', 'e'] {
            Some((GJson::Bool(false), t.skip(5)))
        } else {
            None
        }
    } else if t[0] == '"' {
        match spec_parse_str(t.skip(1)) {
            Some((content, r)) => Some((GJson::Str(content), r)),
            None => None,
        }
    } else if t[0] == '[' {
        let u = skip_ws(t.skip(1));
        if u.len() >= t.len() {
            None
        } else if u.len() >= 1 && u[0] == ']' {
            Some((GJson::Arr(Seq::empty()), u.skip(1)))
        } else {
            match spec_parse_elems(u) {
                Some((elems, r)) => Some((GJson::Arr(elems), r)),
                None => None,
            }
        }
    } else if t[0] == '{' {
        let u = skip_ws(t.skip(1));
        if u.len() >= t.len() {
            None
        } else if u.len() >= 1 && u[0] == '}' {
            Some((GJson::Obj(Seq::empty()), u.skip(1)))
        } else {
            match spec_parse_members(u) {
                Some((fields, r)) => Some((GJson::Obj(fields), r)),
                None => None,
            }
        }
    } else if is_digit(t[0]) || t[0] == '-' {
        let (lexeme, r) = lex_num(t);
        if lexeme.len() >= 1 {
            Some((GJson::Num(lexeme), r))
        } else {
            None
        }
    } else {
        None
    }
}

/// The elements of an array after `[`, up to and past the closing `]`.
pub open spec fn spec_parse_elems(s: Seq<char>) -> Option<(Seq<GJson>, Seq<char>)>
    decreases s.len(), 1int,
{
    match spec_parse_value(s) {
        Some((v, rest)) => {
            let r2 = skip_ws(rest);
            if r2.len() == 0 || r2.len() > s.len() {
                None
            } else if r2[0] == ']' {
                Some((seq![v], r2.skip(1)))
            } else if r2[0] == ',' {
                match spec_parse_elems(r2.skip(1)) {
                    Some((vs, r3)) => Some((seq![v] + vs, r3)),
                    None => None,
                }
            } else {
                None
            }
        },
        None => None,
    }
}

/// The members of an object after `{` and any whitespace, up to and past
/// the closing `}`.
pub open spec fn spec_parse_members(s: Seq<char>) -> Option<
    (Seq<(Seq<char>, GJson)>, Seq<char>),
>
    decreases s.len(), 1int,
{
    if s.len() == 0 || s[0] != '"' {
        None
    } else {
        match spec_parse_str(s.skip(1)) {
            Some((key, r1)) => {
                let r2 = skip_ws(r1);
                if r2.len() == 0 || r2[0] != ':' || r2.len() > s.len() {
                    None
                } else {
                    match spec_parse_value(r2.skip(1)) {
                        Some((v, r4)) => {
                            let r5 = skip_ws(r4);
                            if r5.len() == 0 || r5.len() > s.len() {
                                None
                            } else if r5[0] == '}' {
                                Some((seq![(key, v)], r5.skip(1)))
                            } else if r5[0] == ',' {
                                let r6 = skip_ws(r5.skip(1));
                                if r6.len() < s.len() {
                                    match spec_parse_members(r6) {
                                        Some((fs, r7)) => Some((seq![(key, v)] + fs, r7)),
                                        None => None,
                                    }
                                } else {
                                    None
                                }
                            } else {
                                None
                            }
                        },
                        None => None,
                    }
                }
            },
            None => None,
        }
    }
}

/// A whole payload: one value and nothing but whitespace after it.
pub open spec fn spec_parse_json(s: Seq<char>) -> Option<GJson> {
    match spec_parse_value(s) {
        Some((g, rest)) => if skip_ws(rest).len() == 0 {
            Some(g)
        } else {
            None
        },
        None => None,
    }
}


// ------------------------------------------------------------------
// Executable printing.
// ------------------------------------------------------------------
/// Append every character of `s`.
pub fn push_str_chars(out: &mut Vec<char>, s: &str)
    ensures
        final(out)@ == old(out)@ + s@,
{
    let cs = crate::text::str_chars(s);
    let mut i: usize = 0;
    while i < cs.len()
        invariant
            cs@ == s@,
            0 <= i <= cs@.len(),
            out@ == old(out)@ + cs@.take(i as int),
        decreases cs@.len() - i,
    {
        out.push(cs[i]);
        proof {
            assert(cs@.take(i + 1) =~= cs@.take(i as int).push(cs@[i as int]));
            assert(out@ =~= old(out)@ + cs@.take(i + 1));
        }
        i = i + 1;
    }
    proof {
        assert(cs@.take(i as int) =~= s@);
    }
}

fn hex_char_exec(d: u32) -> (r: char)
    requires
        d < 16,
    ensures
        r == hex_char(d as nat),
{
    if d < 10 {
        let c: u8 = (d as u8) + ('0' as u8);
        proof {
            crate::text::lemma_digit_char(d as nat);
        }
        c as char
    } else {
        let c: u8 = ((d - 10) as u8) + ('a' as u8);
        proof {
            assert(c as char as nat == d - 10 + 97);
        }
        c as char
    }
}

/// Append the escaped form of `s`, as it stands inside a string token.
pub fn push_escaped(out: &mut Vec<char>, s: &str)
    ensures
        final(out)@ == old(out)@ + esc(s@),
{
    let cs = crate::text::str_chars(s);
    let mut i: usize = 0;
    while i < cs.len()
        invariant
            cs@ == s@,
            0 <= i <= cs@.len(),
            out@ == old(out)@ + esc(cs@.take(i as int)),
        decreases cs@.len() - i,
    {
        let c = cs[i];
        let cu = c as u32;
        proof {
            assert(cs@.take(i + 1).drop_last() =~= cs@.take(i as int));
            assert(cs@.take(i + 1).last() == cs@[i as int]);
        }
        if c == '"' {
            out.push('\\');
            out.push('"');
            proof {
                assert(esc_char(c) =~= seq!['\\', '"']);
            }
        } else if c == '\\' {
            out.push('\\');
            out.push('\\');
            proof {
                assert(esc_char(c) =~= seq!['\\', '\\']);
            }
        } else if c == '\n' {
            out.push('\\');
            out.push('n');
            proof {
                assert(esc_char(c) =~= seq!['\\', 'n']);
            }
        } else if c == '\r' {
            out.push('\\');
            out.push('r');
            proof {
                assert(esc_char(c) =~= seq!['\\', 'r']);
            }
        } else if c == '\t' {
            out.push('\\');
            out.push('t');
            proof {
                assert(esc_char(c) =~= seq!['\\', 't']);
            }
        } else if cu < 0x20 {
            out.push('\\');
            out.push('u');
            out.push('0');
            out.push('0');
            out.push(hex_char_exec(cu / 16));
            out.push(hex_char_exec(cu % 16));
            proof {
                assert(esc_char(c) =~= seq![
                    '\\',
                    'u',
                    '0',
                    '0',
                    hex_char(((c as u32) / 16) as nat),
                    hex_char(((c as u32) % 16) as nat),
                ]);
            }
        } else {
            out.push(c);
            proof {
                assert(esc_char(c) =~= seq![c]);
            }
        }
        proof {
            assert(esc(cs@.take(i + 1)) == esc(cs@.take(i as int)) + esc_char(cs@[i as int]));
            assert(out@ =~= old(out)@ + esc(cs@.take(i + 1)));
        }
        i = i + 1;
    }
    proof {
        assert(cs@.take(i as int) =~= s@);
    }
}

/// Append the canonical text of `j`.
pub fn push_json(out: &mut Vec<char>, j: &Json)
    ensures
        final(out)@ == old(out)@ + spec_print(j@),
    decreases j, 0int,
{
    match j {
        Json::Null => {
            push_str_chars(out, "null");
            proof {
                reveal_strlit("null");
                assert("null"@ =~= seq!['n', 'u', 'l', 'l']);
            }
        },
        Json::Bool(b) => {
            if *b {
                push_str_chars(out, "true");
                proof {
                    reveal_strlit("true");
                    assert("true"@ =~= seq!['t', 'r', 'u', 'e']);
                }
            } else {
                push_str_chars(out, "false");
                proof {
                    reveal_strlit("false");
                    assert("false"@ =~= seq!['f', 'a', 'l', 's', 'e']);
                }
            }
        },
        Json::Num(s) => {
            push_str_chars(out, s.as_str());
        },
        Json::Str(s) => {
            out.push('"');
            push_escaped(out, s.as_str());
            out.push('"');
            proof {
                assert(out@ =~= old(out)@ + spec_print(j@));
            }
        },
        Json::Arr(v) => {
            out.push('[');
            if v.len() > 0 {
                push_elems(out, v, 0);
            }
            out.push(']');
            proof {
                if v@.len() == 0 {
                    assert(jview_arr(*v, 0) =~= Seq::<GJson>::empty());
                    assert(spec_print_elems(jview_arr(*v, 0)) =~= Seq::<char>::empty());
                }
                assert(out@ =~= old(out)@ + spec_print(j@));
            }
        },
        Json::Obj(v) => {
            out.push('{');
            if v.len() > 0 {
                push_members(out, v, 0);
            }
            out.push('}');
            proof {
                if v@.len() == 0 {
                    assert(jview_obj(*v, 0) =~= Seq::<(Seq<char>, GJson)>::empty());
                    assert(spec_print_members(jview_obj(*v, 0)) =~= Seq::<char>::empty());
                }
                assert(out@ =~= old(out)@ + spec_print(j@));
            }
        },
    }
}

fn push_elems(out: &mut Vec<char>, v: &Vec<Json>, i: usize)
    requires
        i < v@.len(),
    ensures
        final(out)@ == old(out)@ + spec_print_elems(jview_arr(*v, i as int)),
    decreases *v, v@.len() - i,
{
    proof {
        lemma_jview_arr(*v, i as int);
    }
    push_json(out, &v[i]);
    if i < v.len() - 1 {
        out.push(',');
        push_elems(out, v, i + 1);
        proof {
            let elems = jview_arr(*v, i as int);
            assert(elems.len() >= 2);
            assert(elems[0] == jview(v@[i as int]));
            assert(elems.skip(1) =~= jview_arr(*v, i + 1));
            assert(out@ =~= old(out)@ + spec_print_elems(elems));
        }
    } else {
        proof {
            let elems = jview_arr(*v, i as int);
            assert(elems.len() == 1);
            assert(elems[0] == jview(v@[i as int]));
        }
    }
}

fn push_members(out: &mut Vec<char>, v: &Vec<(String, Json)>, i: usize)
    requires
        i < v@.len(),
    ensures
        final(out)@ == old(out)@ + spec_print_members(jview_obj(*v, i as int)),
    decreases *v, v@.len() - i,
{
    proof {
        lemma_jview_obj(*v, i as int);
    }
    out.push('"');
    push_escaped(out, v[i].0.as_str());
    out.push('"');
    out.push(':');
    push_json(out, &v[i].1);
    if i < v.len() - 1 {
        out.push(',');
        push_members(out, v, i + 1);
        proof {
            let fields = jview_obj(*v, i as int);
            assert(fields.len() >= 2);
            assert(fields[0] == (v@[i as int].0@, jview(v@[i as int].1)));
            assert(fields.skip(1) =~= jview_obj(*v, i + 1));
            assert(out@ =~= old(out)@ + spec_print_members(fields));
        }
    } else {
        proof {
            let fields = jview_obj(*v, i as int);
            assert(fields.len() == 1);
            assert(fields[0] == (v@[i as int].0@, jview(v@[i as int].1)));
            assert(out@ =~= old(out)@ + spec_print_members(fields));
        }
    }
}

/// The canonical text of a document, as a `String`.
pub fn json_to_string(j: &Json) -> (r: String)
    ensures
        r@ == spec_print(j@),
{
    let mut out: Vec<char> = Vec::new();
    push_json(&mut out, j);
    crate::text::string_from_chars(&out)
}


// ------------------------------------------------------------------
// Executable parsing.
// ------------------------------------------------------------------
/// Relies on `char::from_u32`: every value below the surrogate range is a
/// Unicode scalar value.
#[verifier::external_body]
fn char_from_u32(n: u32) -> (r: char)
    requires
        n < 0xD800,
    ensures
        r == (n as char),
{
    char::from_u32(n).unwrap()
}

fn hex_val_exec(c: char) -> (r: u32)
    requires
        is_hex(c),
    ensures
        r as nat == hex_val(c),
        r < 16,
{
    let cu = c as u32;
    if '0' <= c && c <= '9' {
        cu - 48
    } else if 'a' <= c && c <= 'f' {
        cu - 97 + 10
    } else {
        cu - 65 + 10
    }
}

fn is_hex_exec(c: char) -> (r: bool)
    ensures
        r == is_hex(c),
{
    ('0' <= c && c <= '9') || ('a' <= c && c <= 'f') || ('A' <= c && c <= 'F')
}

fn num_char_exec(c: char) -> (r: bool)
    ensures
        r == num_char(c),
{
    ('0' <= c && c <= '9') || c == '-' || c == '+' || c == '.' || c == 'e' || c == 'E'
}

/// Advance past whitespace.
pub fn ws_to(v: &Vec<char>, pos: usize) -> (r: usize)
    requires
        pos <= v@.len(),
    ensures
        pos <= r <= v@.len(),
        skip_ws(v@.skip(pos as int)) == v@.skip(r as int),
    decreases v@.len() - pos,
{
    let mut cur = pos;
    while cur < v.len() && (v[cur] == ' ' || v[cur] == '\n' || v[cur] == '\t' || v[cur] == '\r')
        invariant
            pos <= cur <= v@.len(),
            skip_ws(v@.skip(pos as int)) == skip_ws(v@.skip(cur as int)),
        decreases v@.len() - cur,
    {
        proof {
            assert(v@.skip(cur as int)[0] == v@[cur as int]);
            assert(v@.skip(cur as int).skip(1) =~= v@.skip(cur + 1));
        }
        cur = cur + 1;
    }
    proof {
        if cur < v@.len() {
            assert(v@.skip(cur as int)[0] == v@[cur as int]);
        }
        assert(skip_ws(v@.skip(cur as int)) == v@.skip(cur as int));
    }
    cur
}

/// Continuation relation for string-body parsing: what the whole token
/// parses to, given what the rest parses to and what is already read.
spec fn str_step(
    orig: Option<(Seq<char>, Seq<char>)>,
    acc: Seq<char>,
    sub: Option<(Seq<char>, Seq<char>)>,
) -> bool {
    match sub {
        Some(p) => orig == Some((acc + p.0, p.1)),
        None => orig is None,
    }
}

/// The body of a string token, after the opening quote.
fn p_str(v: &Vec<char>, pos: usize) -> (r: Option<(Vec<char>, usize)>)
    requires
        pos <= v@.len(),
    ensures
        match r {
            Some(p) => pos <= p.1 <= v@.len() && spec_parse_str(v@.skip(pos as int)) == Some(
                (p.0@, v@.skip(p.1 as int)),
            ),
            None => spec_parse_str(v@.skip(pos as int)) is None,
        },
{
    let mut cur = pos;
    let mut acc: Vec<char> = Vec::new();
    loop
        invariant
            pos <= cur <= v@.len(),
            str_step(
                spec_parse_str(v@.skip(pos as int)),
                acc@,
                spec_parse_str(v@.skip(cur as int)),
            ),
        decreases v@.len() - cur,
    {
        proof {
            assert(v@.skip(cur as int).len() == v@.len() - cur);
        }
        if cur == v.len() {
            return None;
        }
        let c = v[cur];
        proof {
            assert(v@.skip(cur as int)[0] == v@[cur as int]);
        }
        if c == '"' {
            proof {
                assert(v@.skip(cur as int).skip(1) =~= v@.skip(cur + 1));
                assert(acc@ + Seq::<char>::empty() =~= acc@);
            }
            return Some((acc, cur + 1));
        } else if c == '\\' {
            if cur + 1 >= v.len() {
                return None;
            }
            let c1 = v[cur + 1];
            proof {
                assert(v@.skip(cur as int)[1] == v@[cur + 1]);
            }
            if c1 == 'u' {
                if v.len() - cur < 6 {
                    return None;
                }
                let (h2, h3, h4, h5) = (v[cur + 2], v[cur + 3], v[cur + 4], v[cur + 5]);
                proof {
                    assert(v@.skip(cur as int)[2] == v@[cur + 2]);
                    assert(v@.skip(cur as int)[3] == v@[cur + 3]);
                    assert(v@.skip(cur as int)[4] == v@[cur + 4]);
                    assert(v@.skip(cur as int)[5] == v@[cur + 5]);
                }
                if !(is_hex_exec(h2) && is_hex_exec(h3) && is_hex_exec(h4) && is_hex_exec(h5)) {
                    return None;
                }
                let n: u32 = hex_val_exec(h2) * 0x1000 + hex_val_exec(h3) * 0x100 + hex_val_exec(
                    h4,
                ) * 0x10 + hex_val_exec(h5);
                if n >= 0xD800 {
                    return None;
                }
                let ch = char_from_u32(n);
                let ghost acc0 = acc@;
                proof {
                    assert(v@.skip(cur as int).skip(6) =~= v@.skip(cur + 6));
                    let s0 = v@.skip(cur as int);
                    let m = hex_val(s0[2]) * 0x1000 + hex_val(s0[3]) * 0x100 + hex_val(s0[4])
                        * 0x10 + hex_val(s0[5]);
                    assert(m == n as nat);
                    assert(ch == ((m as u32) as char));
                    assert(spec_parse_str(s0) == (match spec_parse_str(v@.skip(cur + 6)) {
                        Some(p) => Some((seq![ch] + p.0, p.1)),
                        None => None,
                    }));
                    match spec_parse_str(v@.skip(cur + 6)) {
                        Some(p) => {
                            assert(acc0 + (seq![ch] + p.0) =~= (acc0 + seq![ch]) + p.0);
                        }
                        None => {}
                    }
                }
                acc.push(ch);
                proof {
                    assert(acc@ =~= acc0 + seq![ch]);
                }
                cur = cur + 6;
            } else {
                let u: Option<char> = if c1 == '"' {
                    Some('"')
                } else if c1 == '\\' {
                    Some('\\')
                } else if c1 == '/' {
                    Some('/')
                } else if c1 == 'n' {
                    Some('\n')
                } else if c1 == 'r' {
                    Some('\r')
                } else if c1 == 't' {
                    Some('\t')
                } else if c1 == 'b' {
                    Some('\u{8}')
                } else if c1 == 'f' {
                    Some('\u{c}')
                } else {
                    None
                };
                match u {
                    Some(ch) => {
                        let ghost acc0 = acc@;
                        proof {
                            assert(v@.skip(cur as int).skip(2) =~= v@.skip(cur + 2));
                            match spec_parse_str(v@.skip(cur + 2)) {
                                Some(p) => {
                                    assert(acc0 + (seq![ch] + p.0) =~= (acc0 + seq![ch]) + p.0);
                                }
                                None => {}
                            }
                        }
                        acc.push(ch);
                        proof {
                            assert(acc@ =~= acc0 + seq![ch]);
                        }
                        cur = cur + 2;
                    }
                    None => {
                        return None;
                    }
                }
            }
        } else if (c as u32) < 0x20 {
            return None;
        } else {
            let ghost acc0 = acc@;
            proof {
                assert(v@.skip(cur as int).skip(1) =~= v@.skip(cur + 1));
                match spec_parse_str(v@.skip(cur + 1)) {
                    Some(p) => {
                        assert(acc0 + (seq![c] + p.0) =~= (acc0 + seq![c]) + p.0);
                    }
                    None => {}
                }
            }
            acc.push(c);
            proof {
                assert(acc@ =~= acc0 + seq![c]);
            }
            cur = cur + 1;
        }
    }
}

/// One value, starting at `pos`; leading whitespace allowed.
#[verifier::rlimit(100)]
#[verifier::spinoff_prover]
pub fn p_value(v: &Vec<char>, pos: usize) -> (r: Option<(Json, usize)>)
    requires
        pos <= v@.len(),
    ensures
        match r {
            Some(p) => pos <= p.1 <= v@.len() && spec_parse_value(v@.skip(pos as int)) == Some(
                (p.0@, v@.skip(p.1 as int)),
            ),
            None => spec_parse_value(v@.skip(pos as int)) is None,
        },
    decreases v@.len() - pos, 0int,
{
    let t0 = ws_to(v, pos);
    proof {
        assert(v@.skip(t0 as int).len() == v@.len() - t0);
    }
    if t0 == v.len() {
        return None;
    }
    let ghost t = v@.skip(t0 as int);
    let c = v[t0];
    proof {
        assert(t[0] == v@[t0 as int]);
    }
    if c == 'n' {
        if v.len() - t0 >= 4 && v[t0 + 1] == 'u' && v[t0 + 2] == 'l' && v[t0 + 3] == 'l' {
            proof {
                assert(t.subrange(0, 4) =~= seq!['n', 'u', 'l', 'l']);
                assert(t.skip(4) =~= v@.skip(t0 + 4));
            }
            Some((Json::Null, t0 + 4))
        } else {
            proof {
                if t.len() >= 4 {
                    assert(t.subrange(0, 4)[1] == v@[t0 + 1]);
                    assert(t.subrange(0, 4)[2] == v@[t0 + 2]);
                    assert(t.subrange(0, 4)[3] == v@[t0 + 3]);
                }
            }
            None
        }
    } else if c == 't' {
        if v.len() - t0 >= 4 && v[t0 + 1] == 'r' && v[t0 + 2] == 'u' && v[t0 + 3] == 'e' {
            proof {
                assert(t.subrange(0, 4) =~= seq!['t', 'r', 'u', 'e']);
                assert(t.skip(4) =~= v@.skip(t0 + 4));
            }
            Some((Json::Bool(true), t0 + 4))
        } else {
            proof {
                if t.len() >= 4 {
                    assert(t.subrange(0, 4)[1] == v@[t0 + 1]);
                    assert(t.subrange(0, 4)[2] == v@[t0 + 2]);
                    assert(t.subrange(0, 4)[3] == v@[t0 + 3]);
                }
            }
            None
        }
    } else if c == 'f' {
        if v.len() - t0 >= 5 && v[t0 + 1] == 'a' && v[t0 + 2] == 'l' && v[t0 + 3] == 's' && v[t0
            + 4] == 'e' {
            proof {
                assert(t.subrange(0, 5) =~= seq!['f', 'a', 'l', 's', 'e']);
                assert(t.skip(5) =~= v@.skip(t0 + 5));
            }
            Some((Json::Bool(false), t0 + 5))
        } else {
            proof {
                if t.len() >= 5 {
                    assert(t.subrange(0, 5)[1] == v@[t0 + 1]);
                    assert(t.subrange(0, 5)[2] == v@[t0 + 2]);
                    assert(t.subrange(0, 5)[3] == v@[t0 + 3]);
                    assert(t.subrange(0, 5)[4] == v@[t0 + 4]);
                }
            }
            None
        }
    } else if c == '"' {
        proof {
            assert(t.skip(1) =~= v@.skip(t0 + 1));
        }
        match p_str(v, t0 + 1) {
            Some((content, np)) => {
                let cs = crate::text::string_from_chars(&content);
                Some((Json::Str(cs), np))
            }
            None => None,
        }
    } else if c == '[' {
        proof {
            assert(t.skip(1) =~= v@.skip(t0 + 1));
        }
        let u0 = ws_to(v, t0 + 1);
        proof {
            assert(v@.skip(u0 as int).len() == v@.len() - u0);
        }
        if u0 < v.len() && v[u0] == ']' {
            let empty: Vec<Json> = Vec::new();
            proof {
                assert(v@.skip(u0 as int)[0] == v@[u0 as int]);
                assert(v@.skip(u0 as int).skip(1) =~= v@.skip(u0 + 1));
                assert(jview_arr(empty, 0) =~= Seq::<GJson>::empty());
            }
            Some((Json::Arr(empty), u0 + 1))
        } else {
            proof {
                if u0 < v@.len() {
                    assert(v@.skip(u0 as int)[0] == v@[u0 as int]);
                }
            }
            match p_elems(v, u0) {
                Some((elems, np)) => Some((Json::Arr(elems), np)),
                None => None,
            }
        }
    } else if c == '{' {
        proof {
            assert(t.skip(1) =~= v@.skip(t0 + 1));
        }
        let u0 = ws_to(v, t0 + 1);
        proof {
            assert(v@.skip(u0 as int).len() == v@.len() - u0);
        }
        if u0 < v.len() && v[u0] == '}' {
            let empty: Vec<(String, Json)> = Vec::new();
            proof {
                assert(v@.skip(u0 as int)[0] == v@[u0 as int]);
                assert(v@.skip(u0 as int).skip(1) =~= v@.skip(u0 + 1));
                assert(jview_obj(empty, 0) =~= Seq::<(Seq<char>, GJson)>::empty());
            }
            Some((Json::Obj(empty), u0 + 1))
        } else {
            proof {
                if u0 < v@.len() {
                    assert(v@.skip(u0 as int)[0] == v@[u0 as int]);
                }
            }
            match p_members(v, u0) {
                Some((fields, np)) => Some((Json::Obj(fields), np)),
                None => None,
            }
        }
    } else if ('0' <= c && c <= '9') || c == '-' {
        let mut end = t0;
        let mut lexv: Vec<char> = Vec::new();
        while end < v.len() && num_char_exec(v[end])
            invariant
                t0 <= end <= v@.len(),
                lex_num(v@.skip(t0 as int)).0 == lexv@ + lex_num(v@.skip(end as int)).0,
                lex_num(v@.skip(t0 as int)).1 == lex_num(v@.skip(end as int)).1,
            decreases v@.len() - end,
        {
            proof {
                assert(v@.skip(end as int)[0] == v@[end as int]);
                assert(v@.skip(end as int).skip(1) =~= v@.skip(end + 1));
                assert(lexv@ + (seq![v@[end as int]] + lex_num(v@.skip(end + 1)).0) =~= (lexv@
                    + seq![v@[end as int]]) + lex_num(v@.skip(end + 1)).0);
            }
            lexv.push(v[end]);
            end = end + 1;
        }
        proof {
            assert(v@.skip(end as int).len() == v@.len() - end);
            if end < v@.len() {
                assert(v@.skip(end as int)[0] == v@[end as int]);
            }
            assert(lex_num(v@.skip(end as int)).0 =~= Seq::<char>::empty());
            assert(lexv@ + Seq::<char>::empty() =~= lexv@);
            assert(lex_num(t).0 == lexv@);
            assert(lex_num(t).1 == v@.skip(end as int));
            assert(lexv@.len() >= 1);
        }
        let lex = crate::text::string_from_chars(&lexv);
        Some((Json::Num(lex), end))
    } else {
        None
    }
}

/// Array elements after `[` and any whitespace, through the closing `]`.
fn p_elems(v: &Vec<char>, pos: usize) -> (r: Option<(Vec<Json>, usize)>)
    requires
        pos <= v@.len(),
    ensures
        match r {
            Some(p) => pos <= p.1 <= v@.len() && spec_parse_elems(v@.skip(pos as int)) == Some(
                (jview_arr(p.0, 0), v@.skip(p.1 as int)),
            ),
            None => spec_parse_elems(v@.skip(pos as int)) is None,
        },
    decreases v@.len() - pos, 1int,
{
    match p_value(v, pos) {
        Some((j, np)) => {
            let r2 = ws_to(v, np);
            proof {
                assert(v@.skip(r2 as int).len() == v@.len() - r2);
            }
            if r2 == v.len() {
                return None;
            }
            let c = v[r2];
            proof {
                assert(v@.skip(r2 as int)[0] == v@[r2 as int]);
            }
            if c == ']' {
                let mut one: Vec<Json> = Vec::new();
                one.push(j);
                proof {
                    lemma_jview_arr(one, 0);
                    assert(jview_arr(one, 0) =~= seq![jview(j)]);
                    assert(v@.skip(r2 as int).skip(1) =~= v@.skip(r2 + 1));
                }
                Some((one, r2 + 1))
            } else if c == ',' {
                proof {
                    assert(v@.skip(r2 as int).skip(1) =~= v@.skip(r2 + 1));
                }
                match p_elems(v, r2 + 1) {
                    Some((tail, np2)) => {
                        let ghost tailg = tail;
                        let mut res: Vec<Json> = Vec::new();
                        res.push(j);
                        let mut tail = tail;
                        res.append(&mut tail);
                        proof {
                            let old_tail = jview_arr(tailg, 0);
                            lemma_jview_arr(res, 0);
                            lemma_jview_arr(tailg, 0);
                            assert(res@ =~= seq![j] + tailg@);
                            let whole = jview_arr(res, 0);
                            let want = seq![jview(j)] + old_tail;
                            assert(whole.len() == want.len());
                            assert forall|k: int| 0 <= k < whole.len() implies whole[k]
                                == want[k] by {
                                if k == 0 {
                                    assert(res@[0] == j);
                                } else {
                                    assert(res@[k] == tailg@[k - 1]);
                                }
                            }
                            assert(jview_arr(res, 0) =~= seq![jview(j)] + old_tail);
                        }
                        Some((res, np2))
                    }
                    None => None,
                }
            } else {
                None
            }
        }
        None => None,
    }
}

/// Object members after `{` and any whitespace, through the closing `}`.
fn p_members(v: &Vec<char>, pos: usize) -> (r: Option<(Vec<(String, Json)>, usize)>)
    requires
        pos <= v@.len(),
    ensures
        match r {
            Some(p) => pos <= p.1 <= v@.len() && spec_parse_members(v@.skip(pos as int)) == Some(
                (jview_obj(p.0, 0), v@.skip(p.1 as int)),
            ),
            None => spec_parse_members(v@.skip(pos as int)) is None,
        },
    decreases v@.len() - pos, 1int,
{
    proof {
        assert(v@.skip(pos as int).len() == v@.len() - pos);
    }
    if pos == v.len() {
        return None;
    }
    proof {
        assert(v@.skip(pos as int)[0] == v@[pos as int]);
    }
    if v[pos] != '"' {
        return None;
    }
    proof {
        assert(v@.skip(pos as int).skip(1) =~= v@.skip(pos + 1));
    }
    match p_str(v, pos + 1) {
        Some((keyv, np)) => {
            let key = crate::text::string_from_chars(&keyv);
            let r2 = ws_to(v, np);
            proof {
                assert(v@.skip(r2 as int).len() == v@.len() - r2);
            }
            if r2 == v.len() {
                return None;
            }
            proof {
                assert(v@.skip(r2 as int)[0] == v@[r2 as int]);
            }
            if v[r2] != ':' {
                return None;
            }
            proof {
                assert(v@.skip(r2 as int).skip(1) =~= v@.skip(r2 + 1));
            }
            match p_value(v, r2 + 1) {
                Some((j, np2)) => {
                    let r5 = ws_to(v, np2);
                    proof {
                        assert(v@.skip(r5 as int).len() == v@.len() - r5);
                    }
                    if r5 == v.len() {
                        return None;
                    }
                    let c5 = v[r5];
                    proof {
                        assert(v@.skip(r5 as int)[0] == v@[r5 as int]);
                    }
                    if c5 == '}' {
                        let mut one: Vec<(String, Json)> = Vec::new();
                        one.push((key, j));
                        proof {
                            lemma_jview_obj(one, 0);
                            assert(jview_obj(one, 0) =~= seq![(keyv@, jview(j))]);
                            assert(v@.skip(r5 as int).skip(1) =~= v@.skip(r5 + 1));
                        }
                        Some((one, r5 + 1))
                    } else if c5 == ',' {
                        proof {
                            assert(v@.skip(r5 as int).skip(1) =~= v@.skip(r5 + 1));
                        }
                        let r6 = ws_to(v, r5 + 1);
                        proof {
                            assert(v@.skip(r6 as int).len() == v@.len() - r6);
                        }
                        match p_members(v, r6) {
                            Some((tail, np3)) => {
                                let ghost tailg = tail;
                                let mut res: Vec<(String, Json)> = Vec::new();
                                res.push((key, j));
                                let mut tail = tail;
                                res.append(&mut tail);
                                proof {
                                    let old_tail = jview_obj(tailg, 0);
                                    lemma_jview_obj(res, 0);
                                    lemma_jview_obj(tailg, 0);
                                    assert(res@ =~= seq![(key, j)] + tailg@);
                                    let whole = jview_obj(res, 0);
                                    let want = seq![(keyv@, jview(j))] + old_tail;
                                    assert(whole.len() == want.len());
                                    assert forall|k: int| 0 <= k < whole.len() implies
                                        whole[k] == want[k] by {
                                        if k == 0 {
                                            assert(res@[0] == (key, j));
                                        } else {
                                            assert(res@[k] == tailg@[k - 1]);
                                        }
                                    }
                                    assert(jview_obj(res, 0) =~= seq![(keyv@, jview(j))]
                                        + old_tail);
                                }
                                Some((res, np3))
                            }
                            None => None,
                        }
                    } else {
                        None
                    }
                }
                None => None,
            }
        }
        None => None,
    }
}

/// A whole payload text: one value with nothing but whitespace around it.
pub fn parse_json_str(s: &str) -> (r: Option<Json>)
    ensures
        match r {
            Some(j) => spec_parse_json(s@) == Some(j@),
            None => spec_parse_json(s@) is None,
        },
{
    let v = crate::text::str_chars(s);
    proof {
        assert(v@.skip(0) =~= s@);
    }
    match p_value(&v, 0) {
        Some((j, np)) => {
            let e = ws_to(&v, np);
            proof {
                assert(v@.skip(e as int).len() == v@.len() - e);
            }
            if e == v.len() {
                Some(j)
            } else {
                None
            }
        }
        None => None,
    }
}


// ------------------------------------------------------------------
// Round trip: parsing canonical text returns the printed document.
// ------------------------------------------------------------------
proof fn lemma_hex_char(d: nat)
    requires
        d < 16,
    ensures
        is_hex(hex_char(d)),
        hex_val(hex_char(d)) == d,
{
    if d < 10 {
        crate::text::lemma_digit_char(d);
    } else {
        let c = (((d - 10 + 'a' as nat) as u8) as char);
        assert(c as nat == d - 10 + 97);
    }
}

/// Canonical text is nonempty and starts with a value's head character:
/// never whitespace nor a delimiter.
proof fn lemma_print_head(g: GJson)
    requires
        wf(g),
    ensures
        spec_print(g).len() >= 1,
        !is_ws(spec_print(g)[0]),
        spec_print(g)[0] != ']',
        spec_print(g)[0] != '}',
        spec_print(g)[0] != ',',
        spec_print(g)[0] != ':',
        spec_print(g)[0] != '"' || g is Str,
{
    match g {
        GJson::Null => {}
        GJson::Bool(b) => {}
        GJson::Num(s) => {
            assert(spec_print(g)[0] == s[0]);
        }
        GJson::Str(s) => {
            assert(spec_print(g)[0] == '"');
        }
        GJson::Arr(elems) => {
            assert(spec_print(g)[0] == '[');
        }
        GJson::Obj(fields) => {
            assert(spec_print(g)[0] == '{');
        }
    }
}

/// Reading an escaped body: the escape of `sv`, a closing quote, and
/// anything after parse back to exactly `sv`.
proof fn lemma_parse_str_esc(sv: Seq<char>, rest: Seq<char>)
    ensures
        spec_parse_str(esc(sv) + seq!['"'] + rest) == Some((sv, rest)),
    decreases sv.len(),
{
    let s = esc(sv) + seq!['"'] + rest;
    if sv.len() == 0 {
        assert(esc(sv).len() == 0);
        assert(s[0] == '"');
        assert(s.skip(1) =~= rest);
        assert(Seq::<char>::empty() =~= sv);
    } else {
        lemma_esc_first(sv);
        let c = sv[0];
        let e = esc_char(c);
        let tail = esc(sv.skip(1)) + seq!['"'] + rest;
        assert(s =~= e + tail);
        lemma_parse_str_esc(sv.skip(1), rest);
        assert(seq![c] + sv.skip(1) =~= sv);
        if c == '"' {
            assert(e =~= seq!['\\', '"']);
            assert(s[0] == '\\' && s[1] == '"');
            assert(s.len() >= 2);
            assert(s.skip(2) =~= tail);
        } else if c == '\\' {
            assert(e =~= seq!['\\', '\\']);
            assert(s[0] == '\\' && s[1] == '\\');
            assert(s.skip(2) =~= tail);
        } else if c == '\n' {
            assert(e =~= seq!['\\', 'n']);
            assert(s[0] == '\\' && s[1] == 'n');
            assert(s.skip(2) =~= tail);
        } else if c == '\r' {
            assert(e =~= seq!['\\', 'r']);
            assert(s[0] == '\\' && s[1] == 'r');
            assert(s.skip(2) =~= tail);
        } else if c == '\t' {
            assert(e =~= seq!['\\', 't']);
            assert(s[0] == '\\' && s[1] == 't');
            assert(s.skip(2) =~= tail);
        } else if (c as u32) < 0x20 {
            let hi = ((c as u32) / 16) as nat;
            let lo = ((c as u32) % 16) as nat;
            assert(e =~= seq!['\\', 'u', '0', '0', hex_char(hi), hex_char(lo)]);
            assert(s[0] == '\\' && s[1] == 'u');
            assert(s[2] == '0' && s[3] == '0');
            assert(s[4] == hex_char(hi) && s[5] == hex_char(lo));
            assert(s.len() >= 6);
            crate::text::lemma_digit_char(0);
            assert(is_hex('0') && hex_val('0') == 0);
            lemma_hex_char(hi);
            lemma_hex_char(lo);
            let n = hex_val(s[2]) * 0x1000 + hex_val(s[3]) * 0x100 + hex_val(s[4]) * 0x10
                + hex_val(s[5]);
            assert(n == hi * 16 + lo);
            assert(n == c as u32) by {
                assert(hi * 16 + lo == c as u32);
            }
            assert(n < 0xD800);
            vstd::utf8::char_u32_cast(c, c as u32);
            assert(((n as u32) as char) == c);
            assert(s.skip(6) =~= tail);
        } else {
            assert(e =~= seq![c]);
            assert(s[0] == c);
            assert(s.skip(1) =~= tail);
        }
    }
}

/// Reading a number: its lexeme followed by a non-number character (or
/// nothing) lexes back to exactly the lexeme.
proof fn lemma_lex_num(lexeme: Seq<char>, rest: Seq<char>)
    requires
        forall|i: int| 0 <= i < lexeme.len() ==> num_char(#[trigger] lexeme[i]),
        rest.len() == 0 || !num_char(rest[0]),
    ensures
        lex_num(lexeme + rest) == (lexeme, rest),
    decreases lexeme.len(),
{
    let s = lexeme + rest;
    if lexeme.len() == 0 {
        assert(s =~= rest);
        assert(lex_num(rest) == (Seq::<char>::empty(), rest));
        assert(Seq::<char>::empty() =~= lexeme);
    } else {
        assert(s[0] == lexeme[0]);
        assert(num_char(s[0]));
        assert(s.skip(1) =~= lexeme.skip(1) + rest);
        lemma_lex_num(lexeme.skip(1), rest);
        assert(seq![s[0]] + lexeme.skip(1) =~= lexeme);
    }
}

/// Round trip for one value: canonical text followed by a delimiter (or
/// nothing) parses back to the same document with the trailer untouched.
proof fn lemma_pp_scalar(g: GJson, rest: Seq<char>)
    requires
        wf(g),
        rest.len() == 0 || !num_char(rest[0]),
        g is Null || g is Bool || g is Num || g is Str,
    ensures
        spec_parse_value(spec_print(g) + rest) == Some((g, rest)),
{
    let s = spec_print(g) + rest;
    lemma_print_head(g);
    assert(s[0] == spec_print(g)[0]);
    assert(!is_ws(s[0]));
    assert(skip_ws(s) == s);
    match g {
        GJson::Null => {
            assert(s.len() >= 4);
            assert(s[0] == 'n' && s[1] == 'u' && s[2] == 'l' && s[3] == 'l');
            assert(s.subrange(0, 4) =~= seq!['n', 'u', 'l', 'l']);
            assert(s.skip(4) =~= rest);
        }
        GJson::Bool(b) => {
            if b {
                assert(s[0] == 't' && s[1] == 'r' && s[2] == 'u' && s[3] == 'e');
                assert(s.subrange(0, 4) =~= seq!['t', 'r', 'u', 'e']);
                assert(s.skip(4) =~= rest);
            } else {
                assert(s[0] == 'f' && s[1] == 'a' && s[2] == 'l' && s[3] == 's' && s[4] == 'e');
                assert(s.subrange(0, 5) =~= seq!['f', 'a', 'l', 's', 'e']);
                assert(s.skip(5) =~= rest);
            }
        }
        GJson::Num(lx) => {
            assert(is_digit(s[0]) || s[0] == '-');
            assert(s[0] != 'n' && s[0] != 't' && s[0] != 'f' && s[0] != '"' && s[0] != '['
                && s[0] != '{');
            lemma_lex_num(lx, rest);
            assert(lx.len() >= 1);
        }
        GJson::Str(sv) => {
            assert(s[0] == '"');
            assert(s.skip(1) =~= esc(sv) + seq!['"'] + rest);
            lemma_parse_str_esc(sv, rest);
        }
        GJson::Arr(_) => {}
        GJson::Obj(_) => {}
    }
}

#[verifier::rlimit(100)]
pub proof fn lemma_parse_print(g: GJson, rest: Seq<char>)
    requires
        wf(g),
        rest.len() == 0 || !num_char(rest[0]),
    ensures
        spec_parse_value(spec_print(g) + rest) == Some((g, rest)),
    decreases g, 1int,
{
    let s = spec_print(g) + rest;
    lemma_print_head(g);
    assert(s[0] == spec_print(g)[0]);
    assert(!is_ws(s[0]));
    assert(skip_ws(s) == s);
    match g {
        GJson::Null => {
            lemma_pp_scalar(g, rest);
        }
        GJson::Bool(b) => {
            lemma_pp_scalar(g, rest);
        }
        GJson::Num(lx) => {
            lemma_pp_scalar(g, rest);
        }
        GJson::Str(sv) => {
            lemma_pp_scalar(g, rest);
        }
        GJson::Arr(elems) => {
            assert(spec_print(g)[0] == '[');
            assert(s[0] == '[');
            let body = spec_print_elems(elems);
            assert(s.skip(1) =~= body + seq![']'] + rest);
            if elems.len() == 0 {
                assert(body.len() == 0);
                assert(s.skip(1) =~= seq![']'] + rest);
                assert(s.skip(1)[0] == ']');
                assert(!is_ws(']'));
                assert(skip_ws(s.skip(1)) == s.skip(1));
                assert(s.skip(1).skip(1) =~= rest);
                assert(elems =~= Seq::<GJson>::empty());
                assert(spec_parse_value(s) == Some((g, rest)));
            } else {
                lemma_print_head(elems[0]);
                assert(body[0] == spec_print(elems[0])[0]) by {
                    if elems.len() == 1 {
                    } else {
                    }
                }
                assert(!is_ws(s.skip(1)[0]));
                assert(skip_ws(s.skip(1)) == s.skip(1));
                let u = s.skip(1);
                assert(u[0] != ']');
                lemma_parse_print_elems(elems, rest);
                assert(u =~= body + seq![']'] + rest);
                assert(spec_parse_elems(u) == Some((elems, rest)));
                assert(spec_parse_value(s) == Some((g, rest)));
            }
        }
        GJson::Obj(fields) => {
            assert(spec_print(g)[0] == '{');
            assert(s[0] == '{');
            let body = spec_print_members(fields);
            assert(s.skip(1) =~= body + seq!['}'] + rest);
            if fields.len() == 0 {
                assert(body.len() == 0);
                assert(s.skip(1) =~= seq!['}'] + rest);
                assert(s.skip(1)[0] == '}');
                assert(skip_ws(s.skip(1)) == s.skip(1));
                assert(s.skip(1).skip(1) =~= rest);
                assert(fields =~= Seq::<(Seq<char>, GJson)>::empty());
                assert(spec_parse_value(s) == Some((g, rest)));
            } else {
                assert(body[0] == '"');
                assert(!is_ws(s.skip(1)[0]));
                assert(skip_ws(s.skip(1)) == s.skip(1));
                let u = s.skip(1);
                assert(u[0] != '}');
                lemma_parse_print_members(fields, rest);
                assert(u =~= body + seq!['}'] + rest);
                assert(spec_parse_members(u) == Some((fields, rest)));
                assert(spec_parse_value(s) == Some((g, rest)));
            }
        }
    }
}

#[verifier::rlimit(100)]
#[verifier::spinoff_prover]
proof fn lemma_parse_print_elems(elems: Seq<GJson>, rest: Seq<char>)
    requires
        elems.len() >= 1,
        forall|i: int| 0 <= i < elems.len() ==> wf(#[trigger] elems[i]),
        rest.len() == 0 || !num_char(rest[0]),
    ensures
        spec_parse_elems(spec_print_elems(elems) + seq![']'] + rest) == Some((elems, rest)),
    decreases elems, 0int,
{
    let s = spec_print_elems(elems) + seq![']'] + rest;
    let e0 = elems[0];
    assert(wf(e0));
    lemma_print_head(e0);
    if elems.len() == 1 {
        let tail = seq![']'] + rest;
        assert(s =~= spec_print(e0) + tail);
        assert(!num_char(']'));
        lemma_parse_print(e0, tail);
        assert(spec_parse_value(s) == Some((e0, tail)));
        assert(!is_ws(tail[0]));
        assert(skip_ws(tail) == tail);
        assert(tail.len() <= s.len()) by {
            assert(spec_print(e0).len() >= 1);
        }
        assert(tail[0] == ']');
        assert(tail.skip(1) =~= rest);
        assert(seq![e0] =~= elems);
    } else {
        let body_tail = spec_print_elems(elems.skip(1));
        let tail = seq![','] + body_tail + seq![']'] + rest;
        assert(spec_print_elems(elems) =~= spec_print(e0) + seq![','] + body_tail);
        assert(s =~= spec_print(e0) + tail);
        assert(!num_char(','));
        lemma_parse_print(e0, tail);
        assert(spec_parse_value(s) == Some((e0, tail)));
        assert(!is_ws(tail[0]));
        assert(skip_ws(tail) == tail);
        assert(tail.len() <= s.len()) by {
            assert(spec_print(e0).len() >= 1);
        }
        assert(tail[0] == ',');
        assert(tail[0] != ']');
        assert(tail.skip(1) =~= body_tail + seq![']'] + rest);
        lemma_parse_print_elems(elems.skip(1), rest);
        assert(spec_parse_elems(tail.skip(1)) == Some((elems.skip(1), rest)));
        assert(seq![e0] + elems.skip(1) =~= elems);
    }
}

proof fn lemma_pp_one_member(k0: Seq<char>, v0: GJson, after: Seq<char>)
    requires
        wf(v0),
        after.len() >= 1,
        after[0] == ',' || after[0] == '}',
    ensures
        ({
            let s = seq!['"'] + esc(k0) + (seq!['"', ':'] + spec_print(v0) + after);
            let r1 = seq![':'] + spec_print(v0) + after;
            s.len() > after.len() && s[0] == '"' && spec_parse_str(s.skip(1)) == Some((k0, r1))
                && skip_ws(r1) == r1 && r1[0] == ':' && r1.len() < s.len()
                && spec_parse_value(r1.skip(1)) == Some((v0, after)) && skip_ws(after) == after
        }),
    decreases v0, 2int,
{
    let s = seq!['"'] + esc(k0) + (seq!['"', ':'] + spec_print(v0) + after);
    let r1 = seq![':'] + spec_print(v0) + after;
    lemma_print_head(v0);
    assert(s[0] == '"');
    assert(s.skip(1) =~= esc(k0) + seq!['"'] + r1);
    lemma_parse_str_esc(k0, r1);
    assert(!is_ws(r1[0]));
    assert(skip_ws(r1) == r1);
    assert(r1[0] == ':');
    assert(r1.skip(1) =~= spec_print(v0) + after);
    assert(!num_char(after[0]));
    lemma_parse_print(v0, after);
    assert(spec_parse_value(r1.skip(1)) == Some((v0, after)));
    assert(!is_ws(after[0]));
    assert(skip_ws(after) == after);
}

#[verifier::rlimit(100)]
#[verifier::spinoff_prover]
proof fn lemma_parse_print_members(fields: Seq<(Seq<char>, GJson)>, rest: Seq<char>)
    requires
        fields.len() >= 1,
        forall|i: int| 0 <= i < fields.len() ==> wf(#[trigger] fields[i].1),
        rest.len() == 0 || !num_char(rest[0]),
    ensures
        spec_parse_members(spec_print_members(fields) + seq!['}'] + rest) == Some(
            (fields, rest),
        ),
    decreases fields, 0int,
{
    let s = spec_print_members(fields) + seq!['}'] + rest;
    let k0 = fields[0].0;
    let v0 = fields[0].1;
    let head = seq!['"'] + esc(k0) + seq!['"', ':'] + spec_print(v0);
    if fields.len() == 1 {
        let after = seq!['}'] + rest;
        assert(s =~= seq!['"'] + esc(k0) + (seq!['"', ':'] + spec_print(v0) + after));
        lemma_pp_one_member(k0, v0, after);
        let r1 = seq![':'] + spec_print(v0) + after;
        assert(r1.len() <= s.len());
        assert(after.len() <= s.len());
        assert(after[0] == '}');
        assert(after.skip(1) =~= rest);
        assert(seq![(k0, v0)] =~= fields);
        assert(spec_parse_members(s) == Some((fields, rest)));
    } else {
        let body_tail = spec_print_members(fields.skip(1));
        let after = seq![','] + body_tail + seq!['}'] + rest;
        assert(spec_print_members(fields) =~= head + seq![','] + body_tail);
        assert(s =~= seq!['"'] + esc(k0) + (seq!['"', ':'] + spec_print(v0) + after));
        lemma_pp_one_member(k0, v0, after);
        let r1 = seq![':'] + spec_print(v0) + after;
        assert(r1.len() <= s.len());
        assert(after.len() <= s.len());
        assert(after[0] == ',');
        assert(after[0] != '}');
        let r6 = after.skip(1);
        assert(r6 =~= body_tail + seq!['}'] + rest);
        assert(body_tail[0] == '"') by {
            assert(spec_print_members(fields.skip(1))[0] == '"');
        }
        assert(!is_ws(r6[0]));
        assert(skip_ws(r6) == r6);
        assert(r6.len() < s.len());
        lemma_parse_print_members(fields.skip(1), rest);
        assert(spec_parse_members(r6) == Some((fields.skip(1), rest)));
        assert(seq![(k0, v0)] + fields.skip(1) =~= fields);
        assert(spec_parse_members(s) == Some((fields, rest)));
    }
}

/// The round trip for a whole payload: printing and then parsing any
/// well-formed document is the identity.
pub proof fn lemma_json_round_trip(g: GJson)
    requires
        wf(g),
    ensures
        spec_parse_json(spec_print(g)) == Some(g),
{
    lemma_parse_print(g, Seq::empty());
    assert(spec_print(g) + Seq::<char>::empty() =~= spec_print(g));
    assert(skip_ws(Seq::<char>::empty()).len() == 0);
}


impl Json {
    /// A structurally equal copy of this document.
    pub fn deep_clone(&self) -> (r: Json)
        ensures
            r@ == self@,
        decreases self, 1int,
    {
        match self {
            Json::Null => Json::Null,
            Json::Bool(b) => Json::Bool(*b),
            Json::Num(s) => Json::Num(s.clone()),
            Json::Str(s) => Json::Str(s.clone()),
            Json::Arr(v) => Json::Arr(clone_arr(v)),
            Json::Obj(v) => Json::Obj(clone_obj(v)),
        }
    }
}

fn clone_arr(v: &Vec<Json>) -> (r: Vec<Json>)
    ensures
        jview_arr(r, 0) =~= jview_arr(*v, 0),
    decreases *v, 0int,
{
    let mut out: Vec<Json> = Vec::new();
    let mut i: usize = 0;
    proof {
        lemma_jview_arr(*v, 0);
    }
    while i < v.len()
        invariant
            0 <= i <= v@.len(),
            jview_arr(*v, 0).len() == v@.len(),
            forall|k: int| 0 <= k < v@.len() ==> #[trigger] jview_arr(*v, 0)[k] == jview(v@[k]),
            jview_arr(out, 0) =~= jview_arr(*v, 0).take(i as int),
        decreases v@.len() - i,
    {
        let ghost o0 = out;
        let item = v[i].deep_clone();
        let ghost ig = item;
        out.push(item);
        proof {
            crate::codec::lemma_jview_arr_push(o0, out, ig);
            assert(jview_arr(out, 0) =~= jview_arr(*v, 0).take(i + 1));
        }
        i = i + 1;
    }
    proof {
        assert(jview_arr(*v, 0).take(v@.len() as int) =~= jview_arr(*v, 0));
    }
    out
}

fn clone_obj(v: &Vec<(String, Json)>) -> (r: Vec<(String, Json)>)
    ensures
        jview_obj(r, 0) =~= jview_obj(*v, 0),
    decreases *v, 0int,
{
    let mut out: Vec<(String, Json)> = Vec::new();
    let mut i: usize = 0;
    proof {
        lemma_jview_obj(*v, 0);
    }
    while i < v.len()
        invariant
            0 <= i <= v@.len(),
            jview_obj(*v, 0).len() == v@.len(),
            forall|k: int|
                0 <= k < v@.len() ==> #[trigger] jview_obj(*v, 0)[k] == (v@[k].0@, jview(v@[k].1)),
            jview_obj(out, 0) =~= jview_obj(*v, 0).take(i as int),
        decreases v@.len() - i,
    {
        proof {
            assert(decreases_to!(*v => v@[i as int]));
            assert(decreases_to!(v@[i as int] => v@[i as int].1));
        }
        let ghost o0 = out;
        let key = v[i].0.clone();
        let val = v[i].1.deep_clone();
        let ghost kg = key;
        let ghost vg = val;
        out.push((key, val));
        proof {
            crate::codec::lemma_jview_obj_push(o0, out, (kg, vg));
            assert(jview_obj(out, 0) =~= jview_obj(*v, 0).take(i + 1));
        }
        i = i + 1;
    }
    proof {
        assert(jview_obj(*v, 0).take(v@.len() as int) =~= jview_obj(*v, 0));
    }
    out
}

} // verus!
