use crate::page::{opt_view, PageObject};
use vstd::prelude::*;

verus! {

/// The lower-case hexadecimal digit for `n < 16`.
pub open spec fn hex_digit(n: u32) -> char {
    if n < 10 {
        (48 + n) as char
    } else {
        (87 + n) as char
    }
}

/// The letter after a backslash that stands for `c`, for the characters
/// that JSON writes in a two-character escape.
pub open spec fn short_escape(c: char) -> Option<char> {
    if c == '"' {
        Some('"')
    } else if c == '\\' {
        Some('\\')
    } else if c == '\u{8}' {
        Some('b')
    } else if c == '\t' {
        Some('t')
    } else if c == '\n' {
        Some('n')
    } else if c == '\u{c}' {
        Some('f')
    } else if c == '\r' {
        Some('r')
    } else {
        None
    }
}

/// The character that a two-character escape `\e` stands for.
pub open spec fn short_unescape(e: char) -> Option<char> {
    if e == '"' {
        Some('"')
    } else if e == '\\' {
        Some('\\')
    } else if e == 'b' {
        Some('\u{8}')
    } else if e == 't' {
        Some('\t')
    } else if e == 'n' {
        Some('\n')
    } else if e == 'f' {
        Some('\u{c}')
    } else if e == 'r' {
        Some('\r')
    } else {
        None
    }
}

/// How one character is written inside a JSON string: quote and backslash
/// escaped, the control characters that have a short escape written so, the
/// other control characters as `\u00` and two hexadecimal digits.
pub open spec fn escape_char(c: char) -> Seq<char> {
    if short_escape(c) is Some {
        seq!['\\', short_escape(c)->Some_0]
    } else if (c as u32) < 32 {
        seq!['\\', 'u', '0', '0', hex_digit((c as u32) / 16), hex_digit((c as u32) % 16)]
    } else {
        seq![c]
    }
}

/// The body of the JSON string that holds `s`, without its quotes.
pub open spec fn escape(s: Seq<char>) -> Seq<char>
    decreases s.len(),
{
    if s.len() == 0 {
        Seq::empty()
    } else {
        escape_char(s[0]) + escape(s.drop_first())
    }
}

/// The JSON string literal that holds `s`.
pub open spec fn json_str(s: Seq<char>) -> Seq<char> {
    seq!['"'] + escape(s) + seq!['"']
}

/// Escaping a concatenation escapes each part.
pub proof fn lemma_escape_append(a: Seq<char>, b: Seq<char>)
    ensures
        escape(a + b) == escape(a) + escape(b),
    decreases a.len(),
{
    if a.len() == 0 {
        assert(a + b =~= b);
        assert(escape(a) + escape(b) =~= escape(b));
    } else {
        assert((a + b).drop_first() =~= a.drop_first() + b);
        lemma_escape_append(a.drop_first(), b);
        assert(escape(a + b) =~= escape(a) + escape(b));
    }
}

/// Escaping one character is that character's escape.
proof fn lemma_escape_one(c: char)
    ensures
        escape(seq![c]) == escape_char(c),
{
    assert(seq![c].drop_first() =~= Seq::<char>::empty());
    assert(escape(Seq::<char>::empty()) == Seq::<char>::empty());
    assert(escape(seq![c]) == escape_char(c) + escape(Seq::<char>::empty()));
    assert(escape(seq![c]) =~= escape_char(c));
}

/// Whether `c` is a lower-case hexadecimal digit.
pub open spec fn is_hex(c: char) -> bool {
    ('0' <= c && c <= '9') || ('a' <= c && c <= 'f')
}

/// The value of the hexadecimal digit `c`.
pub open spec fn hex_value(c: char) -> u32 {
    if '0' <= c && c <= '9' {
        ((c as u32) - 48) as u32
    } else {
        ((c as u32) - 87) as u32
    }
}

/// Reads the body of a JSON string up to its closing quote: the characters it
/// holds, and what follows the quote.
pub open spec fn read_str(t: Seq<char>) -> Option<(Seq<char>, Seq<char>)>
    decreases t.len(),
{
    if t.len() == 0 {
        None
    } else if t[0] == '"' {
        Some((Seq::empty(), t.drop_first()))
    } else if t[0] == '\\' {
        if t.len() >= 2 && short_unescape(t[1]) is Some {
            match read_str(t.subrange(2, t.len() as int)) {
                Some((s, r)) => Some((seq![short_unescape(t[1])->Some_0] + s, r)),
                None => None,
            }
        } else if t.len() >= 6 && t[1] == 'u' && t[2] == '0' && t[3] == '0' && is_hex(t[4])
            && is_hex(t[5]) {
            match read_str(t.subrange(6, t.len() as int)) {
                Some((s, r)) => Some(
                    (seq![((hex_value(t[4]) * 16 + hex_value(t[5])) as u32) as char] + s, r),
                ),
                None => None,
            }
        } else {
            None
        }
    } else if (t[0] as u32) < 32 {
        None
    } else {
        match read_str(t.drop_first()) {
            Some((s, r)) => Some((seq![t[0]] + s, r)),
            None => None,
        }
    }
}

/// What follows `p` in `t`, when `t` starts with `p`.
pub open spec fn strip(t: Seq<char>, p: Seq<char>) -> Option<Seq<char>> {
    if p.len() <= t.len() && t.subrange(0, p.len() as int) == p {
        Some(t.subrange(p.len() as int, t.len() as int))
    } else {
        None
    }
}

/// Reads a JSON string literal at the start of `t`: what it holds, and what follows it.
pub open spec fn read_json_str(t: Seq<char>) -> Option<(Seq<char>, Seq<char>)> {
    match strip(t, seq!['"']) {
        Some(u) => read_str(u),
        None => None,
    }
}

/// A prefix is stripped off exactly.
proof fn lemma_strip(p: Seq<char>, rest: Seq<char>)
    ensures
        strip(p + rest, p) == Some(rest),
{
    assert((p + rest).subrange(0, p.len() as int) =~= p);
    assert((p + rest).subrange(p.len() as int, (p + rest).len() as int) =~= rest);
}

/// A character is the character of its own code.
proof fn lemma_code(c: char)
    ensures
        (c as u32) as char == c,
{
}

/// Hexadecimal digits read back as their values.
proof fn lemma_hex(n: u32)
    requires
        n < 16,
    ensures
        is_hex(hex_digit(n)),
        hex_value(hex_digit(n)) == n,
{
}

/// Reading back an escaped string, closed by a quote, gives the string and
/// leaves what followed the quote.
pub proof fn lemma_read_escaped(s: Seq<char>, rest: Seq<char>)
    ensures
        read_str(escape(s) + seq!['"'] + rest) == Some((s, rest)),
    decreases s.len(),
{
    let t = escape(s) + seq!['"'] + rest;
    if s.len() == 0 {
        assert(t =~= seq!['"'] + rest);
        assert(t.drop_first() =~= rest);
    } else {
        let c = s[0];
        let tail = s.drop_first();
        let u = escape(tail) + seq!['"'] + rest;
        lemma_read_escaped(tail, rest);
        assert(t =~= escape_char(c) + u);
        assert(seq![c] + tail =~= s);
        if short_escape(c) is Some {
            assert(t.subrange(2, t.len() as int) =~= u);
        } else if (c as u32) < 32 {
            let n = c as u32;
            lemma_hex(n / 16);
            lemma_hex(n % 16);
            assert(t.subrange(6, t.len() as int) =~= u);
            assert((n / 16) * 16 + n % 16 == n) by (nonlinear_arith);
            assert(((n / 16) * 16 + n % 16) as u32 == n);
            lemma_code(c);
        } else {
            assert(t.drop_first() =~= u);
        }
    }
}

/// A JSON string literal reads back as the string it holds.
pub proof fn lemma_read_json_str(s: Seq<char>, rest: Seq<char>)
    ensures
        read_json_str(json_str(s) + rest) == Some((s, rest)),
{
    lemma_strip(seq!['"'], escape(s) + seq!['"'] + rest);
    assert(json_str(s) + rest =~= seq!['"'] + (escape(s) + seq!['"'] + rest));
    lemma_read_escaped(s, rest);
}

/// Relies on String::push: the character is added at the end.
#[verifier::external_body]
pub(crate) fn push_char(s: &mut String, c: char)
    ensures
        final(s)@ == old(s)@.push(c),
{
    s.push(c)
}

/// The hexadecimal digit for `n`.
fn hex(n: u32) -> (c: char)
    requires
        n < 16,
    ensures
        c == hex_digit(n),
{
    if n < 10 {
        ((48 + n) as u8) as char
    } else {
        ((87 + n) as u8) as char
    }
}

/// The letter of the two-character escape for `c`, if it has one.
fn short_escape_of(c: char) -> (r: Option<char>)
    ensures
        r == short_escape(c),
{
    if c == '"' {
        Some('"')
    } else if c == '\\' {
        Some('\\')
    } else if c == '\u{8}' {
        Some('b')
    } else if c == '\t' {
        Some('t')
    } else if c == '\n' {
        Some('n')
    } else if c == '\u{c}' {
        Some('f')
    } else if c == '\r' {
        Some('r')
    } else {
        None
    }
}

/// The character that the two-character escape `\e` stands for, if any.
pub(crate) fn short_unescape_of(e: char) -> (r: Option<char>)
    ensures
        r == short_unescape(e),
{
    if e == '"' {
        Some('"')
    } else if e == '\\' {
        Some('\\')
    } else if e == 'b' {
        Some('\u{8}')
    } else if e == 't' {
        Some('\t')
    } else if e == 'n' {
        Some('\n')
    } else if e == 'f' {
        Some('\u{c}')
    } else if e == 'r' {
        Some('\r')
    } else {
        None
    }
}

/// Appends to `out` the JSON string literal that holds `s`.
pub fn push_json_str(out: &mut String, s: &str)
    ensures
        final(out)@ == old(out)@ + json_str(s@),
{
    let ghost start = out@;
    push_char(out, '"');
    let n = s.unicode_len();
    let mut i: usize = 0;
    while i < n
        invariant
            n == s@.len(),
            0 <= i <= n,
            out@ == start + seq!['"'] + escape(s@.subrange(0, i as int)),
        decreases n - i,
    {
        let c = s.get_char(i);
        let ghost before = out@;
        if let Some(e) = short_escape_of(c) {
            push_char(out, '\\');
            push_char(out, e);
        } else if (c as u32) < 32 {
            push_char(out, '\\');
            push_char(out, 'u');
            push_char(out, '0');
            push_char(out, '0');
            push_char(out, hex((c as u32) / 16));
            push_char(out, hex((c as u32) % 16));
        } else {
            push_char(out, c);
        }
        proof {
            assert(out@ =~= before + escape_char(c));
            assert(s@.subrange(0, i + 1) =~= s@.subrange(0, i as int) + seq![c]);
            lemma_escape_append(s@.subrange(0, i as int), seq![c]);
            lemma_escape_one(c);
            assert(out@ =~= start + seq!['"'] + escape(s@.subrange(0, i + 1)));
        }
        i = i + 1;
    }
    push_char(out, '"');
    assert(s@.subrange(0, n as int) =~= s@);
    assert(out@ =~= old(out)@ + json_str(s@));
}

/// How the page's version is written: a JSON string, or `null` when there is none.
pub open spec fn version_json(v: Option<Seq<char>>) -> Seq<char> {
    match v {
        Some(s) => json_str(s),
        None => seq!['n', 'u', 'l', 'l'],
    }
}

/// The wire form of a page object whose props are the JSON text `props`.
/// The order of an object's fields carries no meaning in JSON; the props
/// stand last, so that a reader takes their text whole, up to the final brace.
pub open spec fn page_json(
    component: Seq<char>,
    url: Seq<char>,
    version: Option<Seq<char>>,
    props: Seq<char>,
) -> Seq<char> {
    "{\"component\":"@ + json_str(component) + ",\"url\":"@ + json_str(url) + ",\"version\":"@
        + version_json(version) + ",\"props\":"@ + props + seq!['}']
}

/// Reads the version field's value: `null`, or a JSON string.
pub open spec fn read_version(t: Seq<char>) -> Option<(Option<Seq<char>>, Seq<char>)> {
    match strip(t, seq!['n', 'u', 'l', 'l']) {
        Some(r) => Some((None, r)),
        None => match read_json_str(t) {
            Some((s, r)) => Some((Some(s), r)),
            None => None,
        },
    }
}

/// Reads a page object in its wire form: component, url, version and the
/// JSON text of its props.
pub open spec fn parse_page(t: Seq<char>) -> Option<
    (Seq<char>, Seq<char>, Option<Seq<char>>, Seq<char>),
> {
    match strip(t, "{\"component\":"@) {
        None => None,
        Some(t1) => match read_json_str(t1) {
            None => None,
            Some((c, t2)) => match strip(t2, ",\"url\":"@) {
                None => None,
                Some(t3) => match read_json_str(t3) {
                    None => None,
                    Some((u, t4)) => match strip(t4, ",\"version\":"@) {
                        None => None,
                        Some(t5) => match read_version(t5) {
                            None => None,
                            Some((v, t6)) => match strip(t6, ",\"props\":"@) {
                                None => None,
                                Some(t7) => if t7.len() >= 1 && t7.last() == '}' {
                                    Some((c, u, v, t7.drop_last()))
                                } else {
                                    None
                                },
                            },
                        },
                    },
                },
            },
        },
    }
}

/// A page object written in its wire form reads back as the same component,
/// url and version, with the same props text.
pub proof fn lemma_page_round_trip(
    component: Seq<char>,
    url: Seq<char>,
    version: Option<Seq<char>>,
    props: Seq<char>,
)
    ensures
        parse_page(page_json(component, url, version, props)) == Some(
            (component, url, version, props),
        ),
{
    let k1 = "{\"component\":"@;
    let k2 = ",\"url\":"@;
    let k3 = ",\"version\":"@;
    let k4 = ",\"props\":"@;
    let t7 = props + seq!['}'];
    let t6 = k4 + t7;
    let t5 = version_json(version) + t6;
    let t4 = k3 + t5;
    let t3 = json_str(url) + t4;
    let t2 = k2 + t3;
    let t1 = json_str(component) + t2;
    assert(page_json(component, url, version, props) =~= k1 + t1);
    lemma_strip(k1, t1);
    lemma_read_json_str(component, t2);
    lemma_strip(k2, t3);
    lemma_read_json_str(url, t4);
    lemma_strip(k3, t5);
    match version {
        Some(v) => {
            lemma_read_json_str(v, t6);
            let null = seq!['n', 'u', 'l', 'l'];
            assert(t5[0] == '"');
            assert(strip(t5, null) is None) by {
                if null.len() <= t5.len() {
                    assert(t5.subrange(0, null.len() as int)[0] != null[0]);
                }
            }
        },
        None => {
            lemma_strip(seq!['n', 'u', 'l', 'l'], t6);
        },
    }
    lemma_strip(k4, t7);
    assert(t7.drop_last() =~= props);
}

/// Appends the version field's value.
fn push_version(out: &mut String, version: &Option<String>)
    ensures
        final(out)@ == old(out)@ + version_json(opt_view(*version)),
{
    match version {
        Some(v) => push_json_str(out, v.as_str()),
        None => {
            let ghost start = out@;
            out.append("null");
            proof {
                reveal_strlit("null");
            }
            assert(out@ =~= start + seq!['n', 'u', 'l', 'l']);
        },
    }
}

/// The wire form of a page object whose props are already JSON text.
pub fn encode_page(page: &PageObject<String>) -> (r: String)
    ensures
        r@ == page_json(page.component@, page.url@, opt_view(page.version), page.props@),
{
    let mut out = String::new();
    out.append("{\"component\":");
    push_json_str(&mut out, page.component.as_str());
    out.append(",\"url\":");
    push_json_str(&mut out, page.url.as_str());
    out.append(",\"version\":");
    push_version(&mut out, &page.version);
    out.append(",\"props\":");
    out.append(page.props.as_str());
    push_char(&mut out, '}');
    assert(out@ =~= page_json(page.component@, page.url@, opt_view(page.version), page.props@));
    out
}

} // verus!
