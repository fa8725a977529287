//! The JSON values that gateway payloads and REST bodies carry, with a
//! verified serializer and parser. Values are modelled with plain data:
//! integers that fit `u64` or `i64` keep their numeric value, every other
//! number keeps its literal text.

use vstd::prelude::*;
use crate::text::{spec_dec_text, spec_is_digit, push_dec_u64, chars_to_string, chars_of};

verus! {

/// A JSON value.
#[derive(Debug, PartialEq)]
pub enum Json {
    Null,
    Bool(bool),
    /// A non-negative integer.
    U64(u64),
    /// A negative integer.
    I64(i64),
    /// Any other number, kept as its literal text.
    Num(String),
    Str(String),
    Arr(Vec<Json>),
    Obj(Vec<(String, Json)>),
}

/// Shape of the literal text kept for a `Json::Num`: the characters a JSON
/// number may contain, starting with a digit or a minus sign.
pub open spec fn spec_num_shape(s: Seq<char>) -> bool {
    &&& s.len() > 0
    &&& (spec_is_digit(s[0]) || s[0] == '-')
    &&& forall|i: int|
        0 <= i < s.len() ==> (spec_is_digit(#[trigger] s[i]) || s[i] == '-' || s[i] == '+'
            || s[i] == '.' || s[i] == 'e' || s[i] == 'E')
}

/// Well-formedness: `I64` holds only negative integers (other integers use
/// `U64`), and `Num` holds number-shaped text.
pub open spec fn wf_json(j: Json) -> bool
    decreases j,
{
    match j {
        Json::Null => true,
        Json::Bool(_) => true,
        Json::U64(_) => true,
        Json::I64(n) => n < 0,
        Json::Num(s) => spec_num_shape(s@),
        Json::Str(_) => true,
        Json::Arr(v) => forall|i: int| 0 <= i < v@.len() ==> wf_json(#[trigger] v@[i]),
        Json::Obj(m) => forall|i: int| 0 <= i < m@.len() ==> wf_json(#[trigger] m@[i].1),
    }
}

/// The view of a JSON value: the same shape with mathematical leaves,
/// used by the parser's specification.
pub enum JsonV {
    Null,
    Bool(bool),
    U64(u64),
    I64(i64),
    Num(Seq<char>),
    Str(Seq<char>),
    Arr(Seq<JsonV>),
    Obj(Seq<(Seq<char>, JsonV)>),
}

/// The view of a JSON value.
pub open spec fn jview(j: Json) -> JsonV
    decreases j, 1int,
{
    match j {
        Json::Null => JsonV::Null,
        Json::Bool(b) => JsonV::Bool(b),
        Json::U64(n) => JsonV::U64(n),
        Json::I64(n) => JsonV::I64(n),
        Json::Num(s) => JsonV::Num(s@),
        Json::Str(s) => JsonV::Str(s@),
        Json::Arr(v) => JsonV::Arr(jview_arr(v@)),
        Json::Obj(m) => JsonV::Obj(jview_obj(m@)),
    }
}

/// The views of an array's elements.
pub open spec fn jview_arr(v: Seq<Json>) -> Seq<JsonV>
    decreases v, 0int,
{
    if v.len() == 0 {
        Seq::empty()
    } else {
        jview_arr(v.drop_last()).push(jview(v.last()))
    }
}

/// The views of an object's entries.
pub open spec fn jview_obj(m: Seq<(String, Json)>) -> Seq<(Seq<char>, JsonV)>
    decreases m, 0int,
{
    if m.len() == 0 {
        Seq::empty()
    } else {
        jview_obj(m.drop_last()).push((m.last().0@, jview(m.last().1)))
    }
}

/// The element views line up index by index.
pub proof fn lemma_jview_arr_index(v: Seq<Json>)
    ensures
        jview_arr(v).len() == v.len(),
        forall|q: int| 0 <= q < v.len() ==> jview_arr(v)[q] == jview(#[trigger] v[q]),
    decreases v.len(),
{
    if v.len() > 0 {
        lemma_jview_arr_index(v.drop_last());
        assert forall|q: int| 0 <= q < v.len() implies jview_arr(v)[q] == jview(#[trigger] v[q]) by {
            if q < v.len() - 1 {
                assert(jview_arr(v)[q] == jview_arr(v.drop_last())[q]);
                assert(v.drop_last()[q] == v[q]);
            } else {
                assert(jview_arr(v)[q] == jview(v.last()));
            }
        }
    }
}

/// The entry views line up index by index.
pub proof fn lemma_jview_obj_index(m: Seq<(String, Json)>)
    ensures
        jview_obj(m).len() == m.len(),
        forall|q: int|
            0 <= q < m.len() ==> jview_obj(m)[q] == ((#[trigger] m[q]).0@, jview(m[q].1)),
    decreases m.len(),
{
    if m.len() > 0 {
        lemma_jview_obj_index(m.drop_last());
        assert forall|q: int|
            0 <= q < m.len() implies jview_obj(m)[q] == ((#[trigger] m[q]).0@, jview(m[q].1)) by {
            if q < m.len() - 1 {
                assert(jview_obj(m)[q] == jview_obj(m.drop_last())[q]);
                assert(m.drop_last()[q] == m[q]);
            } else {
                assert(jview_obj(m)[q] == (m.last().0@, jview(m.last().1)));
            }
        }
    }
}

/// A character's scalar value.
pub open spec fn spec_char_code(c: char) -> u32 {
    c as u32
}

/// The character with a given scalar value.
pub open spec fn spec_char_of(n: u32) -> char {
    choose|c: char| spec_char_code(c) == n
}

/// How one character is written inside a JSON string literal.
pub open spec fn spec_esc_char(c: char) -> Seq<char> {
    if c == '"' {
        seq!['\\', '"']
    } else if c == '\\' {
        seq!['\\', '\\']
    } else if c == '\n' {
        seq!['\\', 'n']
    } else if c == '\r' {
        seq!['\\', 'r']
    } else if c == '\t' {
        seq!['\\', 't']
    } else if (c as int) < 32 {
        seq!['\\', 'u', '0', '0', spec_hex_char(c as int / 16), spec_hex_char(c as int % 16)]
    } else {
        seq![c]
    }
}

/// The character for one hexadecimal digit.
pub open spec fn spec_hex_char(n: int) -> char {
    if n < 10 {
        crate::text::spec_digit_char(n)
    } else if n == 10 { 'a' }
    else if n == 11 { 'b' }
    else if n == 12 { 'c' }
    else if n == 13 { 'd' }
    else if n == 14 { 'e' }
    else { 'f' }
}

/// A string's characters written inside a JSON string literal.
pub open spec fn spec_esc_text(s: Seq<char>) -> Seq<char>
    decreases s.len(),
{
    if s.len() == 0 {
        Seq::empty()
    } else {
        spec_esc_text(s.drop_last()) + spec_esc_char(s.last())
    }
}

/// A string written as a JSON string literal, quotes included.
pub open spec fn spec_str_text(s: Seq<char>) -> Seq<char> {
    seq!['"'] + spec_esc_text(s) + seq!['"']
}

/// The decimal text of an `i64`.
pub open spec fn spec_i64_text(n: i64) -> Seq<char> {
    if n < 0 {
        seq!['-'] + spec_dec_text((-(n as int)) as nat)
    } else {
        spec_dec_text(n as nat)
    }
}

/// The text this library writes for a JSON value.
pub open spec fn json_text(j: Json) -> Seq<char>
    decreases j, 1int,
{
    match j {
        Json::Null => seq!['n', 'u', 'l', 'l'],
        Json::Bool(b) => if b {
            seq!['t', 'r', 'u', 'e']
        } else {
            seq!['f', 'a', 'l', 's', 'e']
        },
        Json::U64(n) => spec_dec_text(n as nat),
        Json::I64(n) => spec_i64_text(n),
        Json::Num(s) => s@,
        Json::Str(s) => spec_str_text(s@),
        Json::Arr(v) => seq!['['] + arr_body_text(v@) + seq![']'],
        Json::Obj(m) => seq!['{'] + obj_body_text(m@) + seq!['}'],
    }
}

/// The comma-separated elements of an array.
pub open spec fn arr_body_text(v: Seq<Json>) -> Seq<char>
    decreases v, 0int,
{
    if v.len() == 0 {
        Seq::empty()
    } else if v.len() == 1 {
        json_text(v[0])
    } else {
        arr_body_text(v.drop_last()) + seq![','] + json_text(v.last())
    }
}

/// The comma-separated `"key":value` entries of an object.
pub open spec fn obj_body_text(m: Seq<(String, Json)>) -> Seq<char>
    decreases m, 0int,
{
    if m.len() == 0 {
        Seq::empty()
    } else if m.len() == 1 {
        entry_text(m[0])
    } else {
        obj_body_text(m.drop_last()) + seq![','] + entry_text(m.last())
    }
}

/// One `"key":value` entry of an object.
pub open spec fn entry_text(e: (String, Json)) -> Seq<char>
    decreases e, 1int,
{
    spec_str_text(e.0@) + seq![':'] + json_text(e.1)
}

fn hex_char(n: u32) -> (c: char)
    requires
        n < 16,
    ensures
        c == spec_hex_char(n as int),
{
    match n {
        0 => '0',
        1 => '1',
        2 => '2',
        3 => '3',
        4 => '4',
        5 => '5',
        6 => '6',
        7 => '7',
        8 => '8',
        9 => '9',
        10 => 'a',
        11 => 'b',
        12 => 'c',
        13 => 'd',
        14 => 'e',
        _ => 'f',
    }
}

/// Appends one string character in its escaped form.
fn push_escaped_char(out: &mut Vec<char>, c: char)
    ensures
        final(out)@ == old(out)@ + spec_esc_char(c),
{
    if c == '"' {
        out.push('\\');
        out.push('"');
    } else if c == '\\' {
        out.push('\\');
        out.push('\\');
    } else if c == '\n' {
        out.push('\\');
        out.push('n');
    } else if c == '\r' {
        out.push('\\');
        out.push('r');
    } else if c == '\t' {
        out.push('\\');
        out.push('t');
    } else if (c as u32) < 32 {
        let n: u32 = c as u32;
        out.push('\\');
        out.push('u');
        out.push('0');
        out.push('0');
        out.push(hex_char(n / 16));
        out.push(hex_char(n % 16));
    } else {
        out.push(c);
    }
}

/// Appends a string as a JSON string literal, quotes included.
pub fn push_str_literal(out: &mut Vec<char>, s: &str)
    ensures
        final(out)@ == old(out)@ + spec_str_text(s@),
{
    let cs: Vec<char> = chars_of(s);
    out.push('"');
    let mut i: usize = 0;
    while i < cs.len()
        invariant
            i <= cs.len(),
            cs@ == s@,
            out@ == old(out)@ + seq!['"'] + spec_esc_text(s@.take(i as int)),
        decreases cs.len() - i,
    {
        proof {
            assert(s@.take(i + 1 as int).drop_last() =~= s@.take(i as int));
            assert(s@.take(i + 1 as int).last() == s@[i as int]);
        }
        push_escaped_char(out, cs[i]);
        i = i + 1;
    }
    out.push('"');
    proof {
        assert(s@.take(s@.len() as int) =~= s@);
    }
}

/// Appends the text of a JSON value.
#[verifier::loop_isolation(false)]
#[verifier::rlimit(50)]
pub fn push_json(out: &mut Vec<char>, j: &Json)
    ensures
        final(out)@ == old(out)@ + json_text(*j),
    decreases *j,
{
    match j {
        Json::Null => {
            out.push('n');
            out.push('u');
            out.push('l');
            out.push('l');
            proof {
                assert(out@ =~= old(out)@ + json_text(*j));
            }
        }
        Json::Bool(b) => {
            if *b {
                out.push('t');
                out.push('r');
                out.push('u');
                out.push('e');
            } else {
                out.push('f');
                out.push('a');
                out.push('l');
                out.push('s');
                out.push('e');
            }
            proof {
                assert(out@ =~= old(out)@ + json_text(*j));
            }
        }
        Json::U64(n) => {
            push_dec_u64(out, *n);
        }
        Json::I64(n) => {
            if *n < 0 {
                out.push('-');
                let mag: u64 = if *n == i64::MIN {
                    9223372036854775808u64
                } else {
                    (-*n) as u64
                };
                push_dec_u64(out, mag);
            } else {
                push_dec_u64(out, *n as u64);
            }
            proof {
                assert(out@ =~= old(out)@ + spec_i64_text(*n));
            }
        }
        Json::Num(s) => {
            let cs: Vec<char> = chars_of(s.as_str());
            let mut i: usize = 0;
            while i < cs.len()
                invariant
                    i <= cs.len(),
                    cs@ == s@,
                    out@ == old(out)@ + s@.take(i as int),
                decreases cs.len() - i,
            {
                out.push(cs[i]);
                proof {
                    assert(out@ =~= old(out)@ + s@.take(i + 1 as int));
                }
                i = i + 1;
            }
            proof {
                assert(s@.take(s@.len() as int) =~= s@);
            }
        }
        Json::Str(s) => {
            push_str_literal(out, s.as_str());
        }
        Json::Arr(v) => {
            out.push('[');
            let mut i: usize = 0;
            while i < v.len()
                invariant
                    i <= v.len(),
                    out@ == old(out)@ + seq!['['] + arr_body_text(v@.take(i as int)),
                decreases v.len() - i,
            {
                if i > 0 {
                    out.push(',');
                }
                proof {
                    assert(v@.take(i + 1 as int).drop_last() =~= v@.take(i as int));
                    assert(v@.take(i + 1 as int).last() == v@[i as int]);
                    assert(decreases_to!(*j => j->Arr_0));
                    assert(decreases_to!(j->Arr_0 => j->Arr_0@));
                    assert(j->Arr_0@ == v@);
                    assert(decreases_to!(v@ => v@[i as int]));
                }
                push_json(out, &v[i]);
                proof {
                    assert(out@ =~= old(out)@ + seq!['['] + arr_body_text(v@.take(i + 1 as int)));
                }
                i = i + 1;
            }
            out.push(']');
            proof {
                assert(v@.take(v@.len() as int) =~= v@);
                assert(out@ =~= old(out)@ + json_text(*j));
            }
        }
        Json::Obj(m) => {
            out.push('{');
            let mut i: usize = 0;
            while i < m.len()
                invariant
                    i <= m.len(),
                    out@ == old(out)@ + seq!['{'] + obj_body_text(m@.take(i as int)),
                decreases m.len() - i,
            {
                if i > 0 {
                    out.push(',');
                }
                proof {
                    assert(m@.take(i + 1 as int).drop_last() =~= m@.take(i as int));
                    assert(m@.take(i + 1 as int).last() == m@[i as int]);
                    assert(decreases_to!(*j => j->Obj_0));
                    assert(decreases_to!(j->Obj_0 => j->Obj_0@));
                    assert(j->Obj_0@ == m@);
                    assert(decreases_to!(m@ => m@[i as int]));
                    assert(decreases_to!(m@[i as int] => m@[i as int].1));
                }
                push_str_literal(out, m[i].0.as_str());
                out.push(':');
                push_json(out, &m[i].1);
                proof {
                    assert(entry_text(m@[i as int]) == spec_str_text(m@[i as int].0@) + seq![':']
                        + json_text(m@[i as int].1));
                    if i == 0 {
                        assert(m@.take(1int)[0] == m@[0]);
                        assert(obj_body_text(m@.take(1int)) == entry_text(m@[0]));
                    } else {
                        assert(obj_body_text(m@.take(i + 1 as int)) == obj_body_text(
                            m@.take(i as int),
                        ) + seq![','] + entry_text(m@[i as int]));
                    }
                    assert(out@ =~= old(out)@ + seq!['{'] + obj_body_text(m@.take(i + 1 as int)));
                }
                i = i + 1;
            }
            out.push('}');
            proof {
                assert(m@.take(m@.len() as int) =~= m@);
                assert(out@ =~= old(out)@ + json_text(*j));
            }
        }
    }
}

impl Json {
    /// The serialized text of this value.
    pub fn to_text(&self) -> (r: String)
        ensures
            r@ == json_text(*self),
    {
        let mut out: Vec<char> = Vec::new();
        push_json(&mut out, self);
        chars_to_string(&out)
    }

    /// Builds an object value from its entries.
    pub fn obj(entries: Vec<(String, Json)>) -> (r: Json)
        ensures
            r == Json::Obj(entries),
    {
        Json::Obj(entries)
    }

    /// The value of the last entry named `key`, if any; later entries shadow
    /// earlier ones, as they do when a JSON text is read left to right.
    pub fn get<'a>(&'a self, key: &str) -> (r: Option<&'a Json>)
        ensures
            r matches Some(v) ==> spec_get(*self, key@) == Some(*v),
            r is None ==> spec_get(*self, key@) is None,
    {
        match self {
            Json::Obj(m) => {
                let mut found: Option<&Json> = None;
                let mut i: usize = 0;
                while i < m.len()
                    invariant
                        i <= m.len(),
                        found matches Some(v) ==> spec_get_prefix(m@, key@, i as int) == Some(*v),
                        found is None ==> spec_get_prefix(m@, key@, i as int) is None,
                    decreases m.len() - i,
                {
                    if crate::text::str_eq(m[i].0.as_str(), key) {
                        found = Some(&m[i].1);
                    }
                    proof {
                        assert(spec_get_prefix(m@, key@, i + 1 as int) == if m@[i as int].0@
                            == key@ {
                            Some(m@[i as int].1)
                        } else {
                            spec_get_prefix(m@, key@, i as int)
                        });
                    }
                    i = i + 1;
                }
                found
            }
            _ => None,
        }
    }

    /// The `u64` this value holds, if it is a non-negative integer.
    pub fn as_u64(&self) -> (r: Option<u64>)
        ensures
            r == spec_as_u64(*self),
    {
        match self {
            Json::U64(n) => Some(*n),
            _ => None,
        }
    }

    /// The string this value holds, if it is a string.
    pub fn as_str<'a>(&'a self) -> (r: Option<&'a String>)
        ensures
            r matches Some(s) ==> *self matches Json::Str(t) && t == s,
            r is None ==> !(*self matches Json::Str(_)),
    {
        match self {
            Json::Str(s) => Some(s),
            _ => None,
        }
    }
}

/// Where the parser stands after skipping whitespace from `i`.
pub open spec fn sp_skip(s: Seq<char>, i: int) -> int
    decreases s.len() - i,
{
    if 0 <= i < s.len() && crate::text::spec_is_ws(s[i]) {
        sp_skip(s, i + 1)
    } else {
        i
    }
}

/// The numeric value of a hexadecimal digit character, if it is one.
pub open spec fn spec_hex_val(c: char) -> Option<u32> {
    if '0' <= c && c <= '9' {
        Some((c as u32 - 48) as u32)
    } else if 'a' <= c && c <= 'f' {
        Some((c as u32 - 87) as u32)
    } else if 'A' <= c && c <= 'F' {
        Some((c as u32 - 55) as u32)
    } else {
        None
    }
}

/// What reading four hexadecimal digits at `i` yields.
pub open spec fn sp_hex4(s: Seq<char>, i: int) -> Option<(u32, int)> {
    if 0 <= i && i + 4 <= s.len() {
        match (spec_hex_val(s[i]), spec_hex_val(s[i + 1]), spec_hex_val(s[i + 2]), spec_hex_val(
            s[i + 3],
        )) {
            (Some(a), Some(b), Some(c), Some(d)) => Some(
                ((a * 4096 + b * 256 + c * 16 + d) as u32, i + 4),
            ),
            _ => None,
        }
    } else {
        None
    }
}

/// Advances past JSON whitespace.
fn skip_ws(s: &Vec<char>, i: usize) -> (r: usize)
    requires
        i <= s@.len(),
    ensures
        i <= r <= s@.len(),
        r == sp_skip(s@, i as int),
{
    let mut k: usize = i;
    while k < s.len() && (s[k] == ' ' || s[k] == '\t' || s[k] == '\n' || s[k] == '\r')
        invariant
            i <= k <= s@.len(),
            sp_skip(s@, i as int) == sp_skip(s@, k as int),
        decreases s@.len() - k,
    {
        k = k + 1;
    }
    k
}

fn is_digit(c: char) -> (r: bool)
    ensures
        r == spec_is_digit(c),
{
    '0' <= c && c <= '9'
}

/// The numeric value of one hexadecimal digit character.
fn hex_val(c: char) -> (r: Option<u32>)
    ensures
        r == spec_hex_val(c),
        r matches Some(v) ==> v < 16,
{
    if '0' <= c && c <= '9' {
        Some(c as u32 - 48)
    } else if 'a' <= c && c <= 'f' {
        Some(c as u32 - 87)
    } else if 'A' <= c && c <= 'F' {
        Some(c as u32 - 55)
    } else {
        None
    }
}

/// Reads four hexadecimal digits starting at `i`.
fn parse_hex4(s: &Vec<char>, i: usize) -> (r: Option<(u32, usize)>)
    requires
        i <= s@.len(),
    ensures
        r matches Some(p) ==> i < p.1 <= s@.len() && p.0 < 0x10000,
        (match r {
            Some(p) => sp_hex4(s@, i as int) == Some((p.0, p.1 as int)),
            None => sp_hex4(s@, i as int) is None,
        }),
{
    let n: usize = s.len();
    if n - i < 4 {
        return None;
    }
    let a: u32 = match hex_val(s[i]) {
        Some(v) => v,
        None => {
            return None;
        }
    };
    let b: u32 = match hex_val(s[i + 1]) {
        Some(v) => v,
        None => {
            return None;
        }
    };
    let c: u32 = match hex_val(s[i + 2]) {
        Some(v) => v,
        None => {
            return None;
        }
    };
    let d: u32 = match hex_val(s[i + 3]) {
        Some(v) => v,
        None => {
            return None;
        }
    };
    Some((a * 4096 + b * 256 + c * 16 + d, i + 4))
}

/// What reading string-literal content from `k` (past the opening
/// quote), with `acc` already read, yields: the string's characters and
/// the position past the closing quote.
pub open spec fn sp_string_tail(s: Seq<char>, k: int, acc: Seq<char>) -> Option<(Seq<char>, int)>
    decreases s.len() - k,
{
    if !(0 <= k < s.len()) {
        None
    } else {
        let c = s[k];
        if c == '"' {
            Some((acc, k + 1))
        } else if c == '\\' {
            if s.len() - k < 2 {
                None
            } else {
                let e = s[k + 1];
                if e == '"' || e == '\\' || e == '/' {
                    sp_string_tail(s, k + 2, acc.push(e))
                } else if e == 'b' {
                    sp_string_tail(s, k + 2, acc.push('\u{0008}'))
                } else if e == 'f' {
                    sp_string_tail(s, k + 2, acc.push('\u{000C}'))
                } else if e == 'n' {
                    sp_string_tail(s, k + 2, acc.push('\n'))
                } else if e == 'r' {
                    sp_string_tail(s, k + 2, acc.push('\r'))
                } else if e == 't' {
                    sp_string_tail(s, k + 2, acc.push('\t'))
                } else if e == 'u' {
                    match sp_hex4(s, k + 2) {
                        Some((hi, k2)) => if 0xD800 <= hi && hi < 0xDC00 {
                            if s.len() - k2 < 2 {
                                None
                            } else if !(s[k2] == '\\' && s[k2 + 1] == 'u') {
                                None
                            } else {
                                match sp_hex4(s, k2 + 2) {
                                    Some((lo, k3)) => if 0xDC00 <= lo && lo < 0xE000 {
                                        sp_string_tail(
                                            s,
                                            k3,
                                            acc.push(
                                                spec_char_of(
                                                    (0x10000 + (hi - 0xD800) * 0x400 + (lo
                                                        - 0xDC00)) as u32,
                                                ),
                                            ),
                                        )
                                    } else {
                                        None
                                    },
                                    None => None,
                                }
                            }
                        } else if 0xDC00 <= hi && hi < 0xE000 {
                            None
                        } else {
                            sp_string_tail(s, k2, acc.push(spec_char_of(hi)))
                        },
                        None => None,
                    }
                } else {
                    None
                }
            }
        } else if (c as u32) < 32 {
            None
        } else {
            sp_string_tail(s, k + 1, acc.push(c))
        }
    }
}

/// What reading a string literal at its opening quote yields.
pub open spec fn sp_string(s: Seq<char>, i: int) -> Option<(Seq<char>, int)> {
    sp_string_tail(s, i + 1, Seq::empty())
}

/// The chosen character for a scalar value is the character itself.
proof fn lemma_char_of(c: char)
    ensures
        spec_char_of(c as u32) == c,
{
    assert(spec_char_code(c) == c as u32);
    assert(spec_char_code(spec_char_of(c as u32)) == c as u32);
}

/// Reads a JSON string literal starting at the opening quote.
#[verifier::rlimit(100)]
fn parse_string(s: &Vec<char>, i: usize) -> (r: Option<(String, usize)>)
    requires
        i < s@.len(),
        s@[i as int] == '"',
    ensures
        r matches Some(p) ==> i < p.1 <= s@.len(),
        (match r {
            Some(p) => sp_string(s@, i as int) matches Some(sp) && sp.0 == p.0@ && sp.1 == (
            p.1 as int),
            None => sp_string(s@, i as int) is None,
        }),
{
    let n: usize = s.len();
    let mut buf: Vec<char> = Vec::new();
    let mut k: usize = i + 1;
    loop
        invariant
            n == s@.len(),
            i < k <= s@.len(),
            sp_string(s@, i as int) == sp_string_tail(s@, k as int, buf@),
        decreases s@.len() - k,
    {
        let ghost kpre = k as int;
        let ghost bufpre = buf@;
        proof {
            reveal_with_fuel(sp_string_tail, 1);
        }
        if k >= n {
            return None;
        }
        let c: char = s[k];
        if c == '"' {
            proof {
                assert(sp_string_tail(s@, kpre, bufpre) == Some((bufpre, kpre + 1)));
            }
            return Some((crate::text::chars_to_string(&buf), k + 1));
        }
        if c == '\\' {
            if n - k < 2 {
                proof {
                    assert(sp_string_tail(s@, kpre, bufpre) is None);
                }
                return None;
            }
            let e: char = s[k + 1];
            if e == '"' || e == '\\' || e == '/' {
                buf.push(e);
                k = k + 2;
            } else if e == 'b' {
                buf.push('\u{0008}');
                k = k + 2;
            } else if e == 'f' {
                buf.push('\u{000C}');
                k = k + 2;
            } else if e == 'n' {
                buf.push('\n');
                k = k + 2;
            } else if e == 'r' {
                buf.push('\r');
                k = k + 2;
            } else if e == 't' {
                buf.push('\t');
                k = k + 2;
            } else if e == 'u' {
                let (hi, k2): (u32, usize) = match parse_hex4(s, k + 2) {
                    Some(p) => p,
                    None => {
                        return None;
                    }
                };
                if 0xD800 <= hi && hi < 0xDC00 {
                    // A high surrogate must be followed by an escaped low
                    // surrogate; the pair names one supplementary character.
                    if n - k2 < 2 {
                        return None;
                    }
                    if !(s[k2] == '\\' && s[k2 + 1] == 'u') {
                        return None;
                    }
                    let (lo, k3): (u32, usize) = match parse_hex4(s, k2 + 2) {
                        Some(p) => p,
                        None => {
                            return None;
                        }
                    };
                    if !(0xDC00 <= lo && lo < 0xE000) {
                        return None;
                    }
                    let code: u32 = 0x10000 + (hi - 0xD800) * 0x400 + (lo - 0xDC00);
                    match crate::text::char_from_u32(code) {
                        Some(ch) => {
                            proof {
                                lemma_char_of(ch);
                            }
                            buf.push(ch);
                            k = k3;
                        }
                        None => {
                            return None;
                        }
                    }
                } else if 0xDC00 <= hi && hi < 0xE000 {
                    return None;
                } else {
                    match crate::text::char_from_u32(hi) {
                        Some(ch) => {
                            proof {
                                lemma_char_of(ch);
                            }
                            buf.push(ch);
                            k = k2;
                        }
                        None => {
                            return None;
                        }
                    }
                }
            } else {
                return None;
            }
        } else if (c as u32) < 32 {
            // Raw control characters are not allowed inside a string literal.
            proof {
                assert(sp_string_tail(s@, kpre, bufpre) is None);
            }
            return None;
        } else {
            buf.push(c);
            k = k + 1;
            proof {
                assert(sp_string_tail(s@, kpre, bufpre) == sp_string_tail(s@, k as int, buf@));
            }
        }
    }
}

/// What scanning decimal digits from `k` yields: the end position, the
/// accumulated value, whether it overflowed a `u64`, and the text read.
pub open spec fn sp_digits_u64(
    s: Seq<char>,
    k: int,
    value: u64,
    overflow: bool,
    buf: Seq<char>,
) -> (int, u64, bool, Seq<char>)
    decreases s.len() - k,
{
    if 0 <= k < s.len() && spec_is_digit(s[k]) {
        let d = (s[k] as u32 - 48) as u64;
        if value > (0xFFFF_FFFF_FFFF_FFFFu64 - d) / 10 {
            sp_digits_u64(s, k + 1, value, true, buf.push(s[k]))
        } else {
            sp_digits_u64(s, k + 1, (value * 10 + d) as u64, overflow, buf.push(s[k]))
        }
    } else {
        (k, value, overflow, buf)
    }
}

/// What scanning decimal digits from `k` yields, text only.
pub open spec fn sp_digits_txt(s: Seq<char>, k: int, buf: Seq<char>) -> (int, Seq<char>)
    decreases s.len() - k,
{
    if 0 <= k < s.len() && spec_is_digit(s[k]) {
        sp_digits_txt(s, k + 1, buf.push(s[k]))
    } else {
        (k, buf)
    }
}

/// What reading an optional fraction part at `k` yields: the end, the
/// text, and whether a fraction was present.
pub open spec fn sp_num_frac(s: Seq<char>, k: int, buf: Seq<char>) -> Option<(int, Seq<char>, bool)> {
    if 0 <= k < s.len() && s[k] == '.' {
        let k1 = k + 1;
        if !(0 <= k1 < s.len() && spec_is_digit(s[k1])) {
            None
        } else {
            let r = sp_digits_txt(s, k1, buf.push('.'));
            Some((r.0, r.1, true))
        }
    } else {
        Some((k, buf, false))
    }
}

/// What reading an optional exponent part at `k` yields: the end, the
/// text, and whether an exponent was present.
pub open spec fn sp_num_exp(s: Seq<char>, k: int, buf: Seq<char>) -> Option<(int, Seq<char>, bool)> {
    if 0 <= k < s.len() && (s[k] == 'e' || s[k] == 'E') {
        let buf1 = buf.push(s[k]);
        let k1 = k + 1;
        let k2 = if 0 <= k1 < s.len() && (s[k1] == '+' || s[k1] == '-') {
            k1 + 1
        } else {
            k1
        };
        let buf2 = if 0 <= k1 < s.len() && (s[k1] == '+' || s[k1] == '-') {
            buf1.push(s[k1])
        } else {
            buf1
        };
        if !(0 <= k2 < s.len() && spec_is_digit(s[k2])) {
            None
        } else {
            let r = sp_digits_txt(s, k2, buf2);
            Some((r.0, r.1, true))
        }
    } else {
        Some((k, buf, false))
    }
}

/// How a scanned number is classified: an in-range integer keeps its
/// value, everything else keeps its text.
pub open spec fn sp_num_classify(
    neg: bool,
    integral: bool,
    overflow: bool,
    value: u64,
    buf: Seq<char>,
    end: int,
) -> Option<(JsonV, int)> {
    if integral && !overflow {
        if !neg {
            Some((JsonV::U64(value), end))
        } else if value == 0 {
            Some((JsonV::U64(0), end))
        } else if value <= 9223372036854775807u64 {
            Some((JsonV::I64((-(value as int)) as i64), end))
        } else if value == 9223372036854775808u64 {
            Some((JsonV::I64(i64::MIN), end))
        } else {
            Some((JsonV::Num(buf), end))
        }
    } else {
        Some((JsonV::Num(buf), end))
    }
}

/// What reading a number at `i` yields.
pub open spec fn sp_number(s: Seq<char>, i: int) -> Option<(JsonV, int)> {
    if !(0 <= i < s.len()) {
        None
    } else {
        let neg = s[i] == '-';
        let k0 = if neg {
            i + 1
        } else {
            i
        };
        let buf0: Seq<char> = if neg {
            seq!['-']
        } else {
            Seq::empty()
        };
        if !(k0 < s.len() && spec_is_digit(s[k0])) {
            None
        } else {
            let fd = s[k0];
            let v0 = (fd as u32 - 48) as u64;
            let buf1 = buf0.push(fd);
            let k1 = k0 + 1;
            if fd == '0' && k1 < s.len() && spec_is_digit(s[k1]) {
                None
            } else {
                let r1 = sp_digits_u64(s, k1, v0, false, buf1);
                match sp_num_frac(s, r1.0, r1.3) {
                    None => None,
                    Some((kf, buff, fracp)) => match sp_num_exp(s, kf, buff) {
                        None => None,
                        Some((ke, bufe, expp)) => sp_num_classify(
                            neg,
                            !fracp && !expp,
                            r1.2,
                            r1.1,
                            bufe,
                            ke,
                        ),
                    },
                }
            }
        }
    }
}

/// Reads a JSON number starting at `i`; integers that fit keep their value,
/// every other number keeps its literal text.
fn parse_number(s: &Vec<char>, i: usize) -> (r: Option<(Json, usize)>)
    requires
        i < s@.len(),
    ensures
        r matches Some(p) ==> i < p.1 <= s@.len() && wf_json(p.0),
        (match r {
            Some(p) => sp_number(s@, i as int) == Some((jview(p.0), p.1 as int)),
            None => sp_number(s@, i as int) is None,
        }),
{
    let n: usize = s.len();
    let mut buf: Vec<char> = Vec::new();
    let mut k: usize = i;
    let mut neg: bool = false;
    if s[k] == '-' {
        neg = true;
        buf.push('-');
        k = k + 1;
    }
    proof {
        assert(buf@ =~= if neg {
            seq!['-']
        } else {
            Seq::<char>::empty()
        });
    }
    if k >= s.len() || !is_digit(s[k]) {
        return None;
    }
    let first_digit: char = s[k];
    let mut value: u64 = (first_digit as u32 - 48) as u64;
    let mut overflow: bool = false;
    let mut integral: bool = true;
    buf.push(first_digit);
    k = k + 1;
    if first_digit == '0' && k < s.len() && is_digit(s[k]) {
        // A leading zero admits no further integer digits.
        return None;
    }
    let ghost k1g = k as int;
    let ghost v0g = value;
    let ghost buf1g = buf@;
    while k < s.len() && is_digit(s[k])
        invariant
            i < k <= s@.len(),
            buf@.len() > 0,
            spec_is_digit(buf@[0]) || buf@[0] == '-',
            forall|q: int|
                0 <= q < buf@.len() ==> (spec_is_digit(#[trigger] buf@[q]) || buf@[q] == '-'
                    || buf@[q] == '+' || buf@[q] == '.' || buf@[q] == 'e' || buf@[q] == 'E'),
            sp_digits_u64(s@, k1g, v0g, false, buf1g) == sp_digits_u64(
                s@,
                k as int,
                value,
                overflow,
                buf@,
            ),
        decreases s@.len() - k,
    {
        proof {
            reveal_with_fuel(sp_digits_u64, 1);
        }
        let c: char = s[k];
        let d: u64 = (c as u32 - 48) as u64;
        if value > (u64::MAX - d) / 10 {
            overflow = true;
        } else {
            proof {
                crate::json::lemma_mul_div_bound(value as nat, d as nat);
            }
            value = value * 10 + d;
        }
        buf.push(c);
        k = k + 1;
    }
    proof {
        assert(sp_digits_u64(s@, k1g, v0g, false, buf1g) == (
            k as int,
            value,
            overflow,
            buf@,
        ));
    }
    let ghost k2g = k as int;
    let ghost valg = value;
    let ghost ofg = overflow;
    let ghost buf2g = buf@;
    let ghost fracg: (int, Seq<char>, bool);
    if k < s.len() && s[k] == '.' {
        integral = false;
        buf.push('.');
        k = k + 1;
        if k >= s.len() || !is_digit(s[k]) {
            proof {
                assert(sp_num_frac(s@, k2g, buf2g) is None);
                assert(sp_number(s@, i as int) is None);
            }
            return None;
        }
        let ghost k3g = k as int;
        let ghost buf3g = buf@;
        while k < s.len() && is_digit(s[k])
            invariant
                i < k <= s@.len(),
                buf@.len() > 0 && (spec_is_digit(buf@[0]) || buf@[0] == '-'),
                forall|q: int|
                    0 <= q < buf@.len() ==> (spec_is_digit(#[trigger] buf@[q]) || buf@[q] == '-'
                        || buf@[q] == '+' || buf@[q] == '.' || buf@[q] == 'e' || buf@[q] == 'E'),
                sp_digits_txt(s@, k3g, buf3g) == sp_digits_txt(s@, k as int, buf@),
            decreases s@.len() - k,
        {
            proof {
                reveal_with_fuel(sp_digits_txt, 1);
            }
            buf.push(s[k]);
            k = k + 1;
        }
        proof {
            assert(sp_digits_txt(s@, k3g, buf3g) == (k as int, buf@));
            fracg = (k as int, buf@, true);
            assert(sp_num_frac(s@, k2g, buf2g) == Some(fracg));
        }
    } else {
        proof {
            fracg = (k2g, buf2g, false);
            assert(sp_num_frac(s@, k2g, buf2g) == Some(fracg));
        }
    }
    let ghost expg: (int, Seq<char>, bool);
    if k < s.len() && (s[k] == 'e' || s[k] == 'E') {
        integral = false;
        buf.push(s[k]);
        k = k + 1;
        if k < s.len() && (s[k] == '+' || s[k] == '-') {
            buf.push(s[k]);
            k = k + 1;
        }
        if k >= s.len() || !is_digit(s[k]) {
            proof {
                assert(sp_num_exp(s@, fracg.0, fracg.1) is None);
                assert(sp_number(s@, i as int) is None);
            }
            return None;
        }
        let ghost k4g = k as int;
        let ghost buf4g = buf@;
        while k < s.len() && is_digit(s[k])
            invariant
                i < k <= s@.len(),
                buf@.len() > 0 && (spec_is_digit(buf@[0]) || buf@[0] == '-'),
                forall|q: int|
                    0 <= q < buf@.len() ==> (spec_is_digit(#[trigger] buf@[q]) || buf@[q] == '-'
                        || buf@[q] == '+' || buf@[q] == '.' || buf@[q] == 'e' || buf@[q] == 'E'),
                sp_digits_txt(s@, k4g, buf4g) == sp_digits_txt(s@, k as int, buf@),
            decreases s@.len() - k,
        {
            proof {
                reveal_with_fuel(sp_digits_txt, 1);
            }
            buf.push(s[k]);
            k = k + 1;
        }
        proof {
            assert(sp_digits_txt(s@, k4g, buf4g) == (k as int, buf@));
            expg = (k as int, buf@, true);
            assert(sp_num_exp(s@, fracg.0, fracg.1) == Some(expg));
        }
    } else {
        proof {
            expg = (fracg.0, fracg.1, false);
            assert(sp_num_exp(s@, fracg.0, fracg.1) == Some(expg));
        }
    }
    proof {
        assert(integral == (!fracg.2 && !expg.2));
        assert(expg.0 == k as int && expg.1 == buf@);
        assert(sp_number(s@, i as int) == sp_num_classify(
            neg,
            integral,
            ofg,
            valg,
            buf@,
            k as int,
        ));
        assert(value == valg && overflow == ofg);
    }
    if integral && !overflow {
        if !neg {
            Some((Json::U64(value), k))
        } else if value == 0 {
            Some((Json::U64(0), k))
        } else if value <= 9223372036854775807u64 {
            Some((Json::I64(-(value as i64)), k))
        } else if value == 9223372036854775808u64 {
            Some((Json::I64(i64::MIN), k))
        } else {
            Some((Json::Num(crate::text::chars_to_string(&buf)), k))
        }
    } else {
        Some((Json::Num(crate::text::chars_to_string(&buf)), k))
    }
}

/// Multiplying back a quotient bound: the overflow guard on decimal
/// accumulation is sound.
proof fn lemma_mul_div_bound(v: nat, d: nat)
    requires
        d <= u64::MAX,
        v <= (u64::MAX - d) / 10,
    ensures
        v * 10 + d <= u64::MAX,
{
    assert(v * 10 <= ((u64::MAX - d) / 10) * 10) by (nonlinear_arith)
        requires
            v <= (u64::MAX - d) / 10,
    ;
    assert(((u64::MAX - d) / 10) * 10 <= u64::MAX - d) by (nonlinear_arith);
}

/// What reading one value at `i` yields. The guards on positions can
/// never fire on the positions the reader actually reaches; they make the
/// recursion visibly bounded.
pub open spec fn sp_value(s: Seq<char>, i: int) -> Option<(JsonV, int)>
    decreases s.len() - i, 0int,
{
    let j = sp_skip(s, i);
    if !(0 <= j < s.len()) {
        None
    } else {
        let c = s[j];
        if c == 'n' {
            if s.len() - j >= 4 && s[j + 1] == 'u' && s[j + 2] == 'l' && s[j + 3] == 'l' {
                Some((JsonV::Null, j + 4))
            } else {
                None
            }
        } else if c == 't' {
            if s.len() - j >= 4 && s[j + 1] == 'r' && s[j + 2] == 'u' && s[j + 3] == 'e' {
                Some((JsonV::Bool(true), j + 4))
            } else {
                None
            }
        } else if c == 'f' {
            if s.len() - j >= 5 && s[j + 1] == 'a' && s[j + 2] == 'l' && s[j + 3] == 's' && s[j + 4]
                == 'e' {
                Some((JsonV::Bool(false), j + 5))
            } else {
                None
            }
        } else if c == '"' {
            match sp_string(s, j) {
                Some((t, p)) => Some((JsonV::Str(t), p)),
                None => None,
            }
        } else if c == '-' || spec_is_digit(c) {
            sp_number(s, j)
        } else if c == '[' {
            let k = sp_skip(s, j + 1);
            if 0 <= k < s.len() && s[k] == ']' {
                Some((JsonV::Arr(Seq::empty()), k + 1))
            } else if !(i < k <= s.len()) {
                None
            } else {
                sp_arr_items(s, k, Seq::empty())
            }
        } else if c == '{' {
            let k = sp_skip(s, j + 1);
            if 0 <= k < s.len() && s[k] == '}' {
                Some((JsonV::Obj(Seq::empty()), k + 1))
            } else if !(i < k <= s.len()) {
                None
            } else {
                sp_obj_items(s, k, Seq::empty())
            }
        } else {
            None
        }
    }
}

/// What reading the remaining array elements at `k` yields, with `acc`
/// already read.
pub open spec fn sp_arr_items(s: Seq<char>, k: int, acc: Seq<JsonV>) -> Option<(JsonV, int)>
    decreases s.len() - k, 1int,
{
    match sp_value(s, k) {
        None => None,
        Some((v, k2)) => {
            let k3 = sp_skip(s, k2);
            if 0 <= k3 < s.len() && s[k3] == ',' {
                let k4 = sp_skip(s, k3 + 1);
                if !(k < k4 <= s.len()) {
                    None
                } else {
                    sp_arr_items(s, k4, acc.push(v))
                }
            } else if 0 <= k3 < s.len() && s[k3] == ']' {
                Some((JsonV::Arr(acc.push(v)), k3 + 1))
            } else {
                None
            }
        }
    }
}

/// What reading the remaining object entries at `k` yields, with `acc`
/// already read.
pub open spec fn sp_obj_items(
    s: Seq<char>,
    k: int,
    acc: Seq<(Seq<char>, JsonV)>,
) -> Option<(JsonV, int)>
    decreases s.len() - k, 1int,
{
    if !(0 <= k < s.len() && s[k] == '"') {
        None
    } else {
        match sp_string(s, k) {
            None => None,
            Some((key, k2)) => {
                let k3 = sp_skip(s, k2);
                if !(0 <= k3 < s.len() && s[k3] == ':') {
                    None
                } else {
                    let k4 = sp_skip(s, k3 + 1);
                    if !(k <= k4 <= s.len()) {
                        None
                    } else {
                        match sp_value(s, k4) {
                            None => None,
                            Some((v, k5)) => {
                                let k6 = sp_skip(s, k5);
                                if 0 <= k6 < s.len() && s[k6] == ',' {
                                    let k7 = sp_skip(s, k6 + 1);
                                    if !(k < k7 <= s.len()) {
                                        None
                                    } else {
                                        sp_obj_items(s, k7, acc.push((key, v)))
                                    }
                                } else if 0 <= k6 < s.len() && s[k6] == '}' {
                                    Some((JsonV::Obj(acc.push((key, v))), k6 + 1))
                                } else {
                                    None
                                }
                            }
                        }
                    }
                }
            }
        }
    }
}

/// What parsing a complete JSON text yields: one value with nothing but
/// whitespace around it.
pub open spec fn sp_json(s: Seq<char>) -> Option<JsonV> {
    match sp_value(s, 0) {
        Some((v, p)) => if sp_skip(s, p) == s.len() {
            Some(v)
        } else {
            None
        },
        None => None,
    }
}

/// Reads one JSON value starting at `i`: the result is well formed and the
/// returned position lies strictly past `i`.
#[verifier::loop_isolation(false)]
#[verifier::rlimit(50)]
pub fn parse_value(s: &Vec<char>, i: usize) -> (r: Option<(Json, usize)>)
    requires
        i <= s@.len(),
    ensures
        r matches Some(p) ==> i < p.1 <= s@.len() && wf_json(p.0),
        (match r {
            Some(p) => sp_value(s@, i as int) == Some((jview(p.0), p.1 as int)),
            None => sp_value(s@, i as int) is None,
        }),
    decreases s@.len() - i,
{
    let j: usize = skip_ws(s, i);
    if j >= s.len() {
        return None;
    }
    let c: char = s[j];
    if c == 'n' {
        if s.len() - j >= 4 && s[j + 1] == 'u' && s[j + 2] == 'l' && s[j + 3] == 'l' {
            Some((Json::Null, j + 4))
        } else {
            None
        }
    } else if c == 't' {
        if s.len() - j >= 4 && s[j + 1] == 'r' && s[j + 2] == 'u' && s[j + 3] == 'e' {
            Some((Json::Bool(true), j + 4))
        } else {
            None
        }
    } else if c == 'f' {
        if s.len() - j >= 5 && s[j + 1] == 'a' && s[j + 2] == 'l' && s[j + 3] == 's' && s[j + 4]
            == 'e' {
            Some((Json::Bool(false), j + 5))
        } else {
            None
        }
    } else if c == '"' {
        match parse_string(s, j) {
            Some((t, p)) => Some((Json::Str(t), p)),
            None => None,
        }
    } else if c == '-' || is_digit(c) {
        parse_number(s, j)
    } else if c == '[' {
        let mut elems: Vec<Json> = Vec::new();
        let mut k: usize = skip_ws(s, j + 1);
        if k < s.len() && s[k] == ']' {
            proof {
                assert(jview_arr(elems@) =~= Seq::<JsonV>::empty());
            }
            return Some((Json::Arr(elems), k + 1));
        }
        proof {
            assert(jview_arr(elems@) =~= Seq::<JsonV>::empty());
            assert(sp_value(s@, i as int) == sp_arr_items(s@, k as int, jview_arr(elems@)));
        }
        loop
            invariant
                i < k <= s@.len(),
                forall|q: int| 0 <= q < elems@.len() ==> wf_json(#[trigger] elems@[q]),
                sp_value(s@, i as int) == sp_arr_items(s@, k as int, jview_arr(elems@)),
            decreases s@.len() - k,
        {
            proof {
                reveal_with_fuel(sp_arr_items, 1);
            }
            let ghost kpre = k as int;
            let ghost epre = elems@;
            let ghost accpre = jview_arr(elems@);
            let (v, k2): (Json, usize) = match parse_value(s, k) {
                Some(p) => p,
                None => {
                    return None;
                }
            };
            elems.push(v);
            proof {
                reveal_with_fuel(jview_arr, 1);
                assert(elems@.drop_last() =~= epre);
                assert(elems@.last() == v);
                assert(jview_arr(elems@) == accpre.push(jview(v)));
            }
            let k3: usize = skip_ws(s, k2);
            if k3 < s.len() && s[k3] == ',' {
                k = skip_ws(s, k3 + 1);
                proof {
                    assert(sp_arr_items(s@, kpre, accpre) == sp_arr_items(
                        s@,
                        k as int,
                        jview_arr(elems@),
                    ));
                }
            } else if k3 < s.len() && s[k3] == ']' {
                proof {
                    assert(sp_arr_items(s@, kpre, accpre) == Some((
                        JsonV::Arr(jview_arr(elems@)),
                        k3 + 1 as int,
                    )));
                }
                return Some((Json::Arr(elems), k3 + 1));
            } else {
                return None;
            }
        }
    } else if c == '{' {
        let mut entries: Vec<(String, Json)> = Vec::new();
        let mut k: usize = skip_ws(s, j + 1);
        if k < s.len() && s[k] == '}' {
            proof {
                assert(jview_obj(entries@) =~= Seq::<(Seq<char>, JsonV)>::empty());
            }
            return Some((Json::Obj(entries), k + 1));
        }
        proof {
            assert(jview_obj(entries@) =~= Seq::<(Seq<char>, JsonV)>::empty());
            assert(sp_value(s@, i as int) == sp_obj_items(s@, k as int, jview_obj(entries@)));
        }
        loop
            invariant
                i < k <= s@.len(),
                forall|q: int| 0 <= q < entries@.len() ==> wf_json(#[trigger] entries@[q].1),
                sp_value(s@, i as int) == sp_obj_items(s@, k as int, jview_obj(entries@)),
            decreases s@.len() - k,
        {
            proof {
                reveal_with_fuel(sp_obj_items, 1);
            }
            let ghost kpre = k as int;
            let ghost epre = entries@;
            let ghost accpre = jview_obj(entries@);
            if !(k < s.len() && s[k] == '"') {
                return None;
            }
            let (key, k2): (String, usize) = match parse_string(s, k) {
                Some(p) => p,
                None => {
                    return None;
                }
            };
            let k3: usize = skip_ws(s, k2);
            if !(k3 < s.len() && s[k3] == ':') {
                return None;
            }
            let k4: usize = skip_ws(s, k3 + 1);
            let (v, k5): (Json, usize) = match parse_value(s, k4) {
                Some(p) => p,
                None => {
                    return None;
                }
            };
            let ghost keyv = key@;
            entries.push((key, v));
            proof {
                reveal_with_fuel(jview_obj, 1);
                assert(entries@.drop_last() =~= epre);
                assert(entries@.last().0@ == keyv && entries@.last().1 == v);
                assert(jview_obj(entries@) == accpre.push((keyv, jview(v))));
            }
            let k6: usize = skip_ws(s, k5);
            if k6 < s.len() && s[k6] == ',' {
                k = skip_ws(s, k6 + 1);
                proof {
                    assert(sp_obj_items(s@, kpre, accpre) == sp_obj_items(
                        s@,
                        k as int,
                        jview_obj(entries@),
                    ));
                }
            } else if k6 < s.len() && s[k6] == '}' {
                proof {
                    assert(sp_obj_items(s@, kpre, accpre) == Some((
                        JsonV::Obj(jview_obj(entries@)),
                        k6 + 1 as int,
                    )));
                }
                return Some((Json::Obj(entries), k6 + 1));
            } else {
                return None;
            }
        }
    } else {
        None
    }
}

/// Parses a complete JSON text: one value with nothing but whitespace
/// around it. The result is the value `sp_json` reads, and is well
/// formed.
pub fn parse_json(s: &str) -> (r: Option<Json>)
    ensures
        r matches Some(j) ==> wf_json(j),
        (match r {
            Some(j) => sp_json(s@) == Some(jview(j)),
            None => sp_json(s@) is None,
        }),
{
    let cs: Vec<char> = chars_of(s);
    match parse_value(&cs, 0) {
        Some((v, p)) => {
            let q: usize = skip_ws(&cs, p);
            if q == cs.len() {
                Some(v)
            } else {
                None
            }
        }
        None => None,
    }
}

/// The value of the last entry named `key` among the first `n` entries.
pub open spec fn spec_get_prefix(m: Seq<(String, Json)>, key: Seq<char>, n: int) -> Option<Json>
    decreases n,
{
    if n <= 0 {
        None
    } else if m[n - 1].0@ == key {
        Some(m[n - 1].1)
    } else {
        spec_get_prefix(m, key, n - 1)
    }
}

/// Field lookup on an object value: the last entry wins, as it does when a
/// JSON text is read left to right. `None` on anything but an object.
pub open spec fn spec_get(j: Json, key: Seq<char>) -> Option<Json> {
    match j {
        Json::Obj(m) => spec_get_prefix(m@, key, m@.len() as int),
        _ => None,
    }
}

/// The `u64` a value holds, if it is a non-negative integer.
pub open spec fn spec_as_u64(j: Json) -> Option<u64> {
    match j {
        Json::U64(n) => Some(n),
        _ => None,
    }
}

} // verus!
