//! The REST client's verified core: the authorization and user-agent
//! headers, path composition against the base URL, the query string, and
//! the response policy. The request itself is I/O and is performed by the
//! runtime from a fully prepared plan.

use vstd::prelude::*;
use crate::error::Error;
use crate::json::{Json, jview, parse_json, sp_json, wf_json};
use crate::text::{spec_dec_text, chars_of, chars_to_string, push_dec_u64};
use crate::urls::ParsedUrl;

verus! {

/// The user agent every REST request carries.
pub open spec fn spec_user_agent() -> Seq<char> {
    "DiscordBot (https://github.com/princesslana/smalld_rust, 0.0.0-dev)"@
}

/// The authorization header for a token: `Bot <token>`.
pub open spec fn spec_auth_header(token: Seq<char>) -> Seq<char> {
    "Bot "@ + token
}

/// A path with its leading slashes removed.
pub open spec fn spec_drop_leading_slashes(p: Seq<char>) -> Seq<char>
    decreases p.len(),
{
    if p.len() > 0 && p[0] == '/' {
        spec_drop_leading_slashes(p.drop_first())
    } else {
        p
    }
}

/// A base with one trailing slash removed, mirroring the removal of one
/// trailing empty path segment.
pub open spec fn spec_trim_base(b: Seq<char>) -> Seq<char> {
    if b.len() > 0 && b.last() == '/' {
        b.drop_last()
    } else {
        b
    }
}

/// The position of the base's first `?` or `#`, or its length: the path
/// is inserted there, before any query or fragment the base carries.
pub open spec fn spec_base_cut(b: Seq<char>, i: int) -> int
    decreases b.len() - i,
{
    if 0 <= i < b.len() {
        if b[i] == '?' || b[i] == '#' {
            i
        } else {
            spec_base_cut(b, i + 1)
        }
    } else {
        i
    }
}

/// The composed URL: the base's path part, a slash, then the path's
/// segments, percent-encoded, with leading slashes absorbed and embedded
/// slashes preserved, then whatever query or fragment the base carried.
pub open spec fn spec_compose(base: Seq<char>, path: Seq<char>) -> Seq<char> {
    let cut = spec_base_cut(base, 0);
    spec_trim_base(base.take(cut)) + seq!['/'] + spec_encode_path(
        spec_drop_leading_slashes(path),
    ) + base.skip(cut)
}

/// Whether a URL already carries a query part.
pub open spec fn spec_has_qmark(url: Seq<char>) -> bool {
    exists|k: int| 0 <= k < url.len() && (#[trigger] url[k]) == '?'
}

/// The uppercase character for one hexadecimal digit.
pub open spec fn spec_hex_upper(n: int) -> char {
    if n < 10 {
        crate::text::spec_digit_char(n)
    } else if n == 10 { 'A' }
    else if n == 11 { 'B' }
    else if n == 12 { 'C' }
    else if n == 13 { 'D' }
    else if n == 14 { 'E' }
    else { 'F' }
}

/// The UTF-8 bytes of one character.
pub open spec fn spec_utf8(c: char) -> Seq<u8> {
    let n = c as u32;
    if n < 0x80 {
        seq![n as u8]
    } else if n < 0x800 {
        seq![(0xC0 | (n >> 6)) as u8, (0x80 | (n & 0x3F)) as u8]
    } else if n < 0x10000 {
        seq![(0xE0 | (n >> 12)) as u8, (0x80 | ((n >> 6) & 0x3F)) as u8, (0x80 | (n & 0x3F)) as u8]
    } else {
        seq![
            (0xF0 | (n >> 18)) as u8,
            (0x80 | ((n >> 12) & 0x3F)) as u8,
            (0x80 | ((n >> 6) & 0x3F)) as u8,
            (0x80 | (n & 0x3F)) as u8,
        ]
    }
}

/// One byte written percent-encoded.
pub open spec fn spec_pct(b: u8) -> Seq<char> {
    seq!['%', spec_hex_upper(b as int / 16), spec_hex_upper(b as int % 16)]
}

/// A byte sequence written percent-encoded.
pub open spec fn spec_pct_bytes(bs: Seq<u8>) -> Seq<char>
    decreases bs.len(),
{
    if bs.len() == 0 {
        Seq::empty()
    } else {
        spec_pct_bytes(bs.drop_last()) + spec_pct(bs.last())
    }
}

/// Whether a character passes into a path unencoded: the printable ASCII
/// range less the characters the path-segment encode set names; the
/// slash stays, as the segment separator.
pub open spec fn spec_path_kept(c: char) -> bool {
    let n = c as u32;
    c == '/' || (0x21 <= n && n <= 0x7E && c != '"' && c != '#' && c != '%' && c != '<' && c != '>'
        && c != '?' && c != '`' && c != '{' && c != '}' && c != '\\')
}

/// One path character as written: kept, or percent-encoded.
pub open spec fn spec_path_char(c: char) -> Seq<char> {
    if spec_path_kept(c) {
        seq![c]
    } else {
        spec_pct_bytes(spec_utf8(c))
    }
}

/// A path written with its segments percent-encoded.
pub open spec fn spec_encode_path(s: Seq<char>) -> Seq<char>
    decreases s.len(),
{
    if s.len() == 0 {
        Seq::empty()
    } else {
        spec_encode_path(s.drop_last()) + spec_path_char(s.last())
    }
}

/// Whether a character passes into a query pair unencoded, as the
/// form-urlencoded rule has it.
pub open spec fn spec_form_kept(c: char) -> bool {
    ('0' <= c && c <= '9') || ('A' <= c && c <= 'Z') || ('a' <= c && c <= 'z') || c == '*' || c
        == '-' || c == '.' || c == '_'
}

/// One query character as written: kept, a space as `+`, anything else
/// percent-encoded.
pub open spec fn spec_form_char(c: char) -> Seq<char> {
    if spec_form_kept(c) {
        seq![c]
    } else if c == ' ' {
        seq!['+']
    } else {
        spec_pct_bytes(spec_utf8(c))
    }
}

/// A query key or value written form-urlencoded.
pub open spec fn spec_form_text(s: Seq<char>) -> Seq<char>
    decreases s.len(),
{
    if s.len() == 0 {
        Seq::empty()
    } else {
        spec_form_text(s.drop_last()) + spec_form_char(s.last())
    }
}

/// One `key=value` query pair, form-urlencoded.
pub open spec fn spec_param_text(e: (String, String)) -> Seq<char> {
    spec_form_text(e.0@) + seq!['='] + spec_form_text(e.1@)
}

/// The query pairs joined with `&`, in insertion order.
pub open spec fn spec_params_text(ps: Seq<(String, String)>) -> Seq<char>
    decreases ps.len(),
{
    if ps.len() == 0 {
        Seq::empty()
    } else if ps.len() == 1 {
        spec_param_text(ps[0])
    } else {
        spec_params_text(ps.drop_last()) + seq!['&'] + spec_param_text(ps.last())
    }
}

/// A URL with its query string appended, if there is one; a URL that
/// already carries a query gets the pairs appended with `&`.
pub open spec fn spec_with_query(url: Seq<char>, ps: Seq<(String, String)>) -> Seq<char> {
    if ps.len() == 0 {
        url
    } else {
        url + seq![if spec_has_qmark(url) {
            '&'
        } else {
            '?'
        }] + spec_params_text(ps)
    }
}

fn hex_upper(n: u32) -> (c: char)
    requires
        n < 16,
    ensures
        c == spec_hex_upper(n as int),
{
    match n {
        0 => '0',
        1 => '1',
        2 => '2',
        3 => '3',
        4 => '4',
        5 => '5',
        6 => '6',
        7 => '7',
        8 => '8',
        9 => '9',
        10 => 'A',
        11 => 'B',
        12 => 'C',
        13 => 'D',
        14 => 'E',
        _ => 'F',
    }
}

/// Appends one byte percent-encoded.
fn push_pct(out: &mut Vec<char>, b: u8)
    ensures
        final(out)@ == old(out)@ + spec_pct(b),
{
    out.push('%');
    out.push(hex_upper(b as u32 / 16));
    out.push(hex_upper(b as u32 % 16));
    proof {
        assert(out@ =~= old(out)@ + spec_pct(b));
    }
}

/// Appends one character's UTF-8 bytes, percent-encoded.
fn push_utf8_pct(out: &mut Vec<char>, c: char)
    ensures
        final(out)@ == old(out)@ + spec_pct_bytes(spec_utf8(c)),
{
    proof {
        reveal_with_fuel(spec_pct_bytes, 5);
    }
    let n: u32 = c as u32;
    if n < 0x80 {
        push_pct(out, n as u8);
        proof {
            assert(spec_utf8(c) =~= seq![n as u8]);
            assert(seq![n as u8].drop_last() =~= Seq::<u8>::empty());
            assert(spec_pct_bytes(spec_utf8(c)) =~= spec_pct(n as u8));
            assert(out@ =~= old(out)@ + spec_pct_bytes(spec_utf8(c)));
        }
    } else if n < 0x800 {
        proof {
            assert((0xC0u32 | (n >> 6u32)) < 256 && (0x80u32 | (n & 0x3Fu32)) < 256)
                by (bit_vector)
                requires
                    n < 0x800u32,
            ;
        }
        let b0: u8 = (0xC0 | (n >> 6)) as u8;
        let b1: u8 = (0x80 | (n & 0x3F)) as u8;
        push_pct(out, b0);
        push_pct(out, b1);
        proof {
            assert(spec_utf8(c) =~= seq![b0, b1]);
            assert(seq![b0, b1].drop_last() =~= seq![b0]);
            assert(seq![b0].drop_last() =~= Seq::<u8>::empty());
            assert(spec_pct_bytes(seq![b0, b1]) =~= spec_pct(b0) + spec_pct(b1));
            assert(out@ =~= old(out)@ + spec_pct_bytes(spec_utf8(c)));
        }
    } else if n < 0x10000 {
        proof {
            assert((0xE0u32 | (n >> 12u32)) < 256 && (0x80u32 | ((n >> 6u32) & 0x3Fu32)) < 256 && (
            0x80u32 | (n & 0x3Fu32)) < 256)
                by (bit_vector)
                requires
                    n < 0x10000u32,
            ;
        }
        let b0: u8 = (0xE0 | (n >> 12)) as u8;
        let b1: u8 = (0x80 | ((n >> 6) & 0x3F)) as u8;
        let b2: u8 = (0x80 | (n & 0x3F)) as u8;
        push_pct(out, b0);
        push_pct(out, b1);
        push_pct(out, b2);
        proof {
            assert(spec_utf8(c) =~= seq![b0, b1, b2]);
            assert(seq![b0, b1, b2].drop_last() =~= seq![b0, b1]);
            assert(seq![b0, b1].drop_last() =~= seq![b0]);
            assert(seq![b0].drop_last() =~= Seq::<u8>::empty());
            assert(spec_pct_bytes(seq![b0, b1, b2]) =~= spec_pct(b0) + spec_pct(b1) + spec_pct(
                b2,
            ));
            assert(out@ =~= old(out)@ + spec_pct_bytes(spec_utf8(c)));
        }
    } else {
        proof {
            assert(n <= 0x10FFFF);
            assert((0xF0u32 | (n >> 18u32)) < 256 && (0x80u32 | ((n >> 12u32) & 0x3Fu32)) < 256 && (
            0x80u32 | ((n >> 6u32) & 0x3Fu32)) < 256 && (0x80u32 | (n & 0x3Fu32)) < 256)
                by (bit_vector)
                requires
                    n <= 0x10FFFFu32,
            ;
        }
        let b0: u8 = (0xF0 | (n >> 18)) as u8;
        let b1: u8 = (0x80 | ((n >> 12) & 0x3F)) as u8;
        let b2: u8 = (0x80 | ((n >> 6) & 0x3F)) as u8;
        let b3: u8 = (0x80 | (n & 0x3F)) as u8;
        push_pct(out, b0);
        push_pct(out, b1);
        push_pct(out, b2);
        push_pct(out, b3);
        proof {
            assert(spec_utf8(c) =~= seq![b0, b1, b2, b3]);
            assert(seq![b0, b1, b2, b3].drop_last() =~= seq![b0, b1, b2]);
            assert(seq![b0, b1, b2].drop_last() =~= seq![b0, b1]);
            assert(seq![b0, b1].drop_last() =~= seq![b0]);
            assert(seq![b0].drop_last() =~= Seq::<u8>::empty());
            assert(spec_pct_bytes(seq![b0, b1, b2, b3]) =~= spec_pct(b0) + spec_pct(b1) + spec_pct(
                b2,
            ) + spec_pct(b3));
            assert(out@ =~= old(out)@ + spec_pct_bytes(spec_utf8(c)));
        }
    }
}

/// Appends one path character, percent-encoding what the path-segment
/// encode set names.
fn push_path_char(out: &mut Vec<char>, c: char)
    ensures
        final(out)@ == old(out)@ + spec_path_char(c),
{
    let n: u32 = c as u32;
    if c == '/' || (0x21 <= n && n <= 0x7E && c != '"' && c != '#' && c != '%' && c != '<' && c
        != '>' && c != '?' && c != '`' && c != '{' && c != '}' && c != '\\') {
        out.push(c);
    } else {
        push_utf8_pct(out, c);
    }
}

/// Appends one query character, form-urlencoded.
fn push_form_char(out: &mut Vec<char>, c: char)
    ensures
        final(out)@ == old(out)@ + spec_form_char(c),
{
    if ('0' <= c && c <= '9') || ('A' <= c && c <= 'Z') || ('a' <= c && c <= 'z') || c == '*' || c
        == '-' || c == '.' || c == '_' {
        out.push(c);
    } else if c == ' ' {
        out.push('+');
    } else {
        push_utf8_pct(out, c);
    }
}

/// Dropping leading slashes reaches the first non-slash position.
proof fn lemma_drop_leading_skip(p: Seq<char>, i: int)
    requires
        0 <= i <= p.len(),
        forall|k: int| 0 <= k < i ==> p[k] == '/',
        i == p.len() || p[i as int] != '/',
    ensures
        spec_drop_leading_slashes(p) == p.skip(i),
    decreases i,
{
    if i == 0 {
        assert(p.skip(0) =~= p);
    } else {
        lemma_drop_leading_skip(p.drop_first(), i - 1);
        assert(p.drop_first().skip(i - 1) =~= p.skip(i));
    }
}

/// The HTTP client's state: the pre-computed headers and the base URL.
#[derive(Debug, PartialEq)]
pub struct Http {
    pub authorization: String,
    pub user_agent: String,
    pub base: ParsedUrl,
}

/// A fully prepared REST request: everything the runtime needs to perform
/// it.
#[derive(Debug, PartialEq)]
pub struct RequestPlan {
    pub method: String,
    pub url: String,
    pub authorization: String,
    pub user_agent: String,
    pub body: Option<String>,
}

impl Http {
    /// A client for this token and base URL. Every request it prepares
    /// carries `Authorization: Bot <token>` and the fixed user agent.
    pub fn new(token: &str, base: ParsedUrl) -> (r: Http)
        ensures
            r.authorization@ == spec_auth_header(token@),
            r.user_agent@ == spec_user_agent(),
            r.base == base,
    {
        Http {
            authorization: String::from_str("Bot ").concat(token),
            user_agent: String::from_str(
                "DiscordBot (https://github.com/princesslana/smalld_rust, 0.0.0-dev)",
            ),
            base,
        }
    }

    /// Appends a path to the base URL: leading slashes are absorbed,
    /// embedded slashes preserved as segment separators, the segments are
    /// percent-encoded, and they land before any query or fragment the
    /// base carries. An opaque base accepts no path.
    pub fn build_url(&self, path: &str) -> (r: Result<String, Error>)
        ensures
            self.base.opaque ==> (r matches Err(Error::IllegalArgumentError(m)) && m@
                == "Bad path: "@ + path@),
            !self.base.opaque ==> (r matches Ok(u) && u@ == spec_compose(
                self.base.text@,
                path@,
            )),
    {
        if self.base.opaque {
            return Err(
                Error::IllegalArgumentError(String::from_str("Bad path: ").concat(path)),
            );
        }
        let base: Vec<char> = chars_of(self.base.text.as_str());
        let blen: usize = base.len();
        let mut cut: usize = 0;
        while cut < blen && base[cut] != '?' && base[cut] != '#'
            invariant
                base@ == self.base.text@,
                blen == base@.len(),
                cut <= blen,
                spec_base_cut(base@, 0) == spec_base_cut(base@, cut as int),
            decreases blen - cut,
        {
            proof {
                reveal_with_fuel(spec_base_cut, 1);
            }
            cut = cut + 1;
        }
        proof {
            assert(spec_base_cut(base@, cut as int) == cut as int);
        }
        let ghost head = spec_trim_base(self.base.text@.take(cut as int));
        let mut n: usize = cut;
        if n > 0 && base[n - 1] == '/' {
            n = n - 1;
        }
        proof {
            assert(head =~= base@.take(n as int));
        }
        let mut out: Vec<char> = Vec::new();
        let mut i: usize = 0;
        while i < n
            invariant
                base@ == self.base.text@,
                n <= base@.len(),
                i <= n,
                out@ == base@.take(i as int),
            decreases n - i,
        {
            out.push(base[i]);
            proof {
                assert(out@ =~= base@.take(i + 1 as int));
            }
            i = i + 1;
        }
        proof {
            assert(out@ == head);
        }
        out.push('/');
        let p: Vec<char> = chars_of(path);
        let mut j: usize = 0;
        while j < p.len() && p[j] == '/'
            invariant
                p@ == path@,
                j <= p@.len(),
                forall|k: int| 0 <= k < j ==> p@[k] == '/',
            decreases p@.len() - j,
        {
            j = j + 1;
        }
        proof {
            lemma_drop_leading_skip(path@, j as int);
        }
        let mut k: usize = j;
        while k < p.len()
            invariant
                p@ == path@,
                j <= k <= p@.len(),
                out@ == head + seq!['/'] + spec_encode_path(path@.skip(j as int).take(k - j)),
            decreases p@.len() - k,
        {
            proof {
                reveal_with_fuel(spec_encode_path, 1);
            }
            push_path_char(&mut out, p[k]);
            proof {
                assert(path@.skip(j as int).take(k + 1 - j).drop_last() =~= path@.skip(
                    j as int,
                ).take(k - j));
                assert(path@.skip(j as int).take(k + 1 - j).last() == path@[k as int]);
                assert(out@ =~= head + seq!['/'] + spec_encode_path(
                    path@.skip(j as int).take(k + 1 - j),
                ));
            }
            k = k + 1;
        }
        proof {
            assert(path@.skip(j as int).take(p@.len() - j) =~= path@.skip(j as int));
        }
        let mut tpos: usize = cut;
        while tpos < blen
            invariant
                base@ == self.base.text@,
                blen == base@.len(),
                cut <= tpos <= blen,
                out@ == head + seq!['/'] + spec_encode_path(spec_drop_leading_slashes(path@))
                    + base@.subrange(cut as int, tpos as int),
            decreases blen - tpos,
        {
            out.push(base[tpos]);
            proof {
                assert(base@.subrange(cut as int, tpos + 1 as int) =~= base@.subrange(
                    cut as int,
                    tpos as int,
                ).push(base@[tpos as int]));
                assert(out@ =~= head + seq!['/'] + spec_encode_path(
                    spec_drop_leading_slashes(path@),
                ) + base@.subrange(cut as int, tpos + 1 as int));
            }
            tpos = tpos + 1;
        }
        proof {
            assert(base@.subrange(cut as int, blen as int) =~= base@.skip(cut as int));
            assert(out@ =~= spec_compose(self.base.text@, path@));
        }
        Ok(chars_to_string(&out))
    }

    /// The full request URL for a path and its query parameters.
    pub fn request_url(&self, path: &str, params: &Vec<(String, String)>) -> (r: Result<
        String,
        Error,
    >)
        ensures
            self.base.opaque ==> (r matches Err(Error::IllegalArgumentError(m)) && m@
                == "Bad path: "@ + path@),
            !self.base.opaque ==> (r matches Ok(u) && u@ == spec_with_query(
                spec_compose(self.base.text@, path@),
                params@,
            )),
    {
        let url: String = match self.build_url(path) {
            Ok(u) => u,
            Err(e) => {
                return Err(e);
            }
        };
        if params.len() == 0 {
            return Ok(url);
        }
        let mut out: Vec<char> = chars_of(url.as_str());
        let mut has_query: bool = false;
        let mut x: usize = 0;
        while x < out.len()
            invariant
                out@ == url@,
                x <= out@.len(),
                has_query == (exists|k: int| 0 <= k < x && (#[trigger] out@[k]) == '?'),
            decreases out@.len() - x,
        {
            if out[x] == '?' {
                has_query = true;
            }
            x = x + 1;
        }
        proof {
            assert(has_query == spec_has_qmark(url@));
        }
        let sep: char = if has_query {
            '&'
        } else {
            '?'
        };
        out.push(sep);
        let ghost base_text = spec_compose(self.base.text@, path@) + seq![
            if spec_has_qmark(url@) {
                '&'
            } else {
                '?'
            },
        ];
        proof {
            assert(out@ =~= base_text);
        }
        let mut i: usize = 0;
        while i < params.len()
            invariant
                base_text == spec_compose(self.base.text@, path@) + seq![
                    if spec_has_qmark(spec_compose(self.base.text@, path@)) {
                        '&'
                    } else {
                        '?'
                    },
                ],
                i <= params@.len(),
                out@ == base_text + spec_params_text(params@.take(i as int)),
            decreases params@.len() - i,
        {
            if i > 0 {
                out.push('&');
            }
            let key: Vec<char> = chars_of(params[i].0.as_str());
            proof {
                assert(spec_form_text(key@.take(0int)) =~= Seq::<char>::empty());
            }
            let mut a: usize = 0;
            while a < key.len()
                invariant
                    key@ == params@[i as int].0@,
                    a <= key@.len(),
                    i < params@.len(),
                    out@ == base_text + spec_params_text(params@.take(i as int)) + (if i == 0 {
                        Seq::<char>::empty()
                    } else {
                        seq!['&']
                    }) + spec_form_text(key@.take(a as int)),
                decreases key@.len() - a,
            {
                proof {
                    reveal_with_fuel(spec_form_text, 1);
                }
                push_form_char(&mut out, key[a]);
                proof {
                    assert(key@.take(a + 1 as int).drop_last() =~= key@.take(a as int));
                    assert(key@.take(a + 1 as int).last() == key@[a as int]);
                    assert(out@ =~= base_text + spec_params_text(params@.take(i as int)) + (if i
                        == 0 {
                        Seq::<char>::empty()
                    } else {
                        seq!['&']
                    }) + spec_form_text(key@.take(a + 1 as int)));
                }
                a = a + 1;
            }
            out.push('=');
            let val: Vec<char> = chars_of(params[i].1.as_str());
            proof {
                assert(key@.take(key@.len() as int) =~= key@);
                assert(spec_form_text(val@.take(0int)) =~= Seq::<char>::empty());
            }
            let mut b: usize = 0;
            while b < val.len()
                invariant
                    val@ == params@[i as int].1@,
                    key@ == params@[i as int].0@,
                    b <= val@.len(),
                    i < params@.len(),
                    out@ == base_text + spec_params_text(params@.take(i as int)) + (if i == 0 {
                        Seq::<char>::empty()
                    } else {
                        seq!['&']
                    }) + spec_form_text(key@) + seq!['='] + spec_form_text(val@.take(b as int)),
                decreases val@.len() - b,
            {
                proof {
                    reveal_with_fuel(spec_form_text, 1);
                }
                push_form_char(&mut out, val[b]);
                proof {
                    assert(val@.take(b + 1 as int).drop_last() =~= val@.take(b as int));
                    assert(val@.take(b + 1 as int).last() == val@[b as int]);
                    assert(out@ =~= base_text + spec_params_text(params@.take(i as int)) + (if i
                        == 0 {
                        Seq::<char>::empty()
                    } else {
                        seq!['&']
                    }) + spec_form_text(key@) + seq!['='] + spec_form_text(val@.take(b + 1 as int)));
                }
                b = b + 1;
            }
            proof {
                assert(key@.take(key@.len() as int) =~= key@);
                assert(val@.take(val@.len() as int) =~= val@);
                assert(params@.take(i + 1 as int).drop_last() =~= params@.take(i as int));
                assert(params@.take(i + 1 as int).last() == params@[i as int]);
                assert(spec_param_text(params@[i as int]) == spec_form_text(key@) + seq!['=']
                    + spec_form_text(val@));
                assert(out@ =~= base_text + spec_params_text(params@.take(i + 1 as int)));
            }
            i = i + 1;
        }
        proof {
            assert(params@.take(params@.len() as int) =~= params@);
            assert(out@ =~= spec_with_query(spec_compose(self.base.text@, path@), params@));
        }
        Ok(chars_to_string(&out))
    }
}

/// The message an HTTP error carries for a status: `HTTP status <n>`.
pub open spec fn spec_status_message(status: u16) -> Seq<char> {
    "HTTP status "@ + spec_dec_text(status as nat)
}

/// The response policy: status 204 yields the empty JSON object; any
/// other 2xx parses its body as JSON — yielding exactly the value the
/// body carries, a body that is not JSON being an I/O error; every other
/// status is an HTTP error carrying the status.
pub fn interpret_response(status: u16, body: &str) -> (r: Result<Json, Error>)
    ensures
        status == 204 ==> (r matches Ok(Json::Obj(m)) && m@.len() == 0),
        !(200 <= status && status < 300) ==> (r matches Err(Error::HttpError(m)) && m@
            == spec_status_message(status)),
        (200 <= status && status < 300 && status != 204) ==> {
            &&& (r is Ok <==> sp_json(body@) is Some)
            &&& (r matches Ok(j) ==> sp_json(body@) == Some(jview(j)) && wf_json(j))
            &&& (r matches Err(e) ==> e matches Error::IOError(m) && m@
                == "response body is not JSON"@)
        },
{
    if status == 204 {
        return Ok(Json::Obj(Vec::new()));
    }
    if !(200 <= status && status < 300) {
        let mut m: Vec<char> = chars_of("HTTP status ");
        push_dec_u64(&mut m, status as u64);
        return Err(Error::HttpError(chars_to_string(&m)));
    }
    match parse_json(body) {
        Some(j) => Ok(j),
        None => Err(Error::IOError(String::from_str("response body is not JSON"))),
    }
}

/// A REST call in the making: a path, then query parameters, then a verb.
pub struct Resource<'a> {
    pub http: &'a Http,
    pub path: String,
    pub parameters: Vec<(String, String)>,
}

impl<'a> Resource<'a> {
    /// A resource under the client's base URL.
    pub fn new(http: &'a Http, path: &str) -> (r: Resource<'a>)
        ensures
            r.http == http,
            r.path@ == path@,
            r.parameters@ == Seq::<(String, String)>::empty(),
    {
        Resource { http, path: path.to_owned(), parameters: Vec::new() }
    }

    /// Adds one query parameter; insertion order is preserved, and keys
    /// and values are form-urlencoded into the request URL.
    pub fn query(self, key: &str, value: &str) -> (r: Resource<'a>)
        ensures
            r.http == self.http,
            r.path == self.path,
            r.parameters@.len() == self.parameters@.len() + 1,
            r.parameters@.take(self.parameters@.len() as int) == self.parameters@,
            r.parameters@.last().0@ == key@ && r.parameters@.last().1@ == value@,
    {
        let mut parameters = self.parameters;
        parameters.push((key.to_owned(), value.to_owned()));
        proof {
            assert(parameters@.take(parameters@.len() - 1) =~= self.parameters@);
        }
        Resource { http: self.http, path: self.path, parameters }
    }

    fn plan(self, method: &str, body: Option<String>) -> (r: Result<RequestPlan, Error>)
        ensures
            self.http.base.opaque ==> r matches Err(Error::IllegalArgumentError(_)),
            !self.http.base.opaque ==> (r matches Ok(pl) && {
                &&& pl.method@ == method@
                &&& pl.url@ == spec_with_query(
                    spec_compose(self.http.base.text@, self.path@),
                    self.parameters@,
                )
                &&& pl.authorization == self.http.authorization
                &&& pl.user_agent == self.http.user_agent
                &&& pl.body == body
            }),
    {
        let url: String = match self.http.request_url(self.path.as_str(), &self.parameters) {
            Ok(u) => u,
            Err(e) => {
                return Err(e);
            }
        };
        Ok(
            RequestPlan {
                method: method.to_owned(),
                url,
                authorization: self.http.authorization.clone(),
                user_agent: self.http.user_agent.clone(),
                body,
            },
        )
    }

    /// The plan for a GET request.
    pub fn get(self) -> (r: Result<RequestPlan, Error>)
        ensures
            self.http.base.opaque ==> r matches Err(Error::IllegalArgumentError(_)),
            !self.http.base.opaque ==> (r matches Ok(pl) && {
                &&& pl.method@ == "GET"@
                &&& pl.url@ == spec_with_query(
                    spec_compose(self.http.base.text@, self.path@),
                    self.parameters@,
                )
                &&& pl.authorization == self.http.authorization
                &&& pl.user_agent == self.http.user_agent
                &&& pl.body is None
            }),
    {
        self.plan("GET", None)
    }

    /// The plan for a DELETE request.
    pub fn delete(self) -> (r: Result<RequestPlan, Error>)
        ensures
            self.http.base.opaque ==> r matches Err(Error::IllegalArgumentError(_)),
            !self.http.base.opaque ==> (r matches Ok(pl) && {
                &&& pl.method@ == "DELETE"@
                &&& pl.url@ == spec_with_query(
                    spec_compose(self.http.base.text@, self.path@),
                    self.parameters@,
                )
                &&& pl.authorization == self.http.authorization
                &&& pl.user_agent == self.http.user_agent
                &&& pl.body is None
            }),
    {
        self.plan("DELETE", None)
    }

    /// The plan for a POST request with a JSON body.
    pub fn post(self, json: Json) -> (r: Result<RequestPlan, Error>)
        ensures
            self.http.base.opaque ==> r matches Err(Error::IllegalArgumentError(_)),
            !self.http.base.opaque ==> (r matches Ok(pl) && {
                &&& pl.method@ == "POST"@
                &&& pl.url@ == spec_with_query(
                    spec_compose(self.http.base.text@, self.path@),
                    self.parameters@,
                )
                &&& pl.authorization == self.http.authorization
                &&& pl.user_agent == self.http.user_agent
                &&& (pl.body matches Some(b) && b@ == crate::json::json_text(json))
            }),
    {
        let body: String = json.to_text();
        self.plan("POST", Some(body))
    }

    /// The plan for a PUT request with a JSON body.
    pub fn put(self, json: Json) -> (r: Result<RequestPlan, Error>)
        ensures
            self.http.base.opaque ==> r matches Err(Error::IllegalArgumentError(_)),
            !self.http.base.opaque ==> (r matches Ok(pl) && {
                &&& pl.method@ == "PUT"@
                &&& pl.url@ == spec_with_query(
                    spec_compose(self.http.base.text@, self.path@),
                    self.parameters@,
                )
                &&& pl.authorization == self.http.authorization
                &&& pl.user_agent == self.http.user_agent
                &&& (pl.body matches Some(b) && b@ == crate::json::json_text(json))
            }),
    {
        let body: String = json.to_text();
        self.plan("PUT", Some(body))
    }

    /// The plan for a PATCH request with a JSON body.
    pub fn patch(self, json: Json) -> (r: Result<RequestPlan, Error>)
        ensures
            self.http.base.opaque ==> r matches Err(Error::IllegalArgumentError(_)),
            !self.http.base.opaque ==> (r matches Ok(pl) && {
                &&& pl.method@ == "PATCH"@
                &&& pl.url@ == spec_with_query(
                    spec_compose(self.http.base.text@, self.path@),
                    self.parameters@,
                )
                &&& pl.authorization == self.http.authorization
                &&& pl.user_agent == self.http.user_agent
                &&& (pl.body matches Some(b) && b@ == crate::json::json_text(json))
            }),
    {
        let body: String = json.to_text();
        self.plan("PATCH", Some(body))
    }
}

} // verus!
