use crate::page::{opt_view, PageObject};
use crate::wire::{
    hex_value, is_hex, parse_page, read_json_str, read_str, read_version,
    short_unescape_of, strip,
};
use vstd::prelude::*;

verus! {

/// The characters of `t` from `i` on.
pub open spec fn from(t: Seq<char>, i: int) -> Seq<char> {
    t.subrange(i, t.len() as int)
}

/// The characters of `s`, one by one.
fn chars_of(s: &str) -> (r: Vec<char>)
    ensures
        r@ == s@,
{
    let n = s.unicode_len();
    let mut v: Vec<char> = Vec::new();
    let mut i: usize = 0;
    while i < n
        invariant
            n == s@.len(),
            0 <= i <= n,
            v@ == s@.subrange(0, i as int),
        decreases n - i,
    {
        v.push(s.get_char(i));
        i = i + 1;
        assert(v@ =~= s@.subrange(0, i as int));
    }
    assert(s@.subrange(0, n as int) =~= s@);
    v
}

/// The value of a hexadecimal digit.
fn hex_val(c: char) -> (r: u32)
    requires
        is_hex(c),
    ensures
        r == hex_value(c),
        r < 16,
{
    if '0' <= c && c <= '9' {
        (c as u32) - 48
    } else {
        (c as u32) - 87
    }
}

/// Whether `c` is a lower-case hexadecimal digit.
fn is_hex_char(c: char) -> (r: bool)
    ensures
        r == is_hex(c),
{
    ('0' <= c && c <= '9') || ('a' <= c && c <= 'f')
}

/// A code below 256 names the same character through a byte.
proof fn lemma_small_char(n: u32)
    requires
        n < 256,
    ensures
        ((n as u8) as char) == (n as char),
{
}

/// Where the text `p` ends when it stands in `t` at `i`.
fn strip_at(t: &Vec<char>, i: usize, p: &str) -> (r: Option<usize>)
    requires
        i <= t@.len(),
    ensures
        match strip(from(t@, i as int), p@) {
            Some(rest) => r matches Some(j) && i <= j <= t@.len() && rest == from(t@, j as int),
            None => r is None,
        },
{
    let n = p.unicode_len();
    let tl = t.len();
    if n > tl - i {
        return None;
    }
    let mut k: usize = 0;
    while k < n
        invariant
            n == p@.len(),
            tl == t@.len(),
            i + n <= tl,
            0 <= k <= n,
            forall|m: int| 0 <= m < k ==> t@[i + m] == #[trigger] p@[m],
        decreases n - k,
    {
        if t[i + k] != p.get_char(k) {
            assert(from(t@, i as int).subrange(0, n as int)[k as int] != p@[k as int]);
            return None;
        }
        k = k + 1;
    }
    assert(from(t@, i as int).subrange(0, n as int) =~= p@);
    assert(from(from(t@, i as int), n as int) =~= from(t@, (i + n) as int));
    Some(i + n)
}

/// Reads the body of a JSON string that starts at `i`: what it holds, and
/// where the text after its closing quote starts.
fn read_str_at(t: &Vec<char>, i: usize) -> (r: Option<(String, usize)>)
    requires
        i <= t@.len(),
    ensures
        match read_str(from(t@, i as int)) {
            Some((s, rest)) => r matches Some((v, j)) && v@ == s && i <= j <= t@.len() && rest
                == from(t@, j as int),
            None => r is None,
        },
{
    let n = t.len();
    let mut out = String::new();
    let mut k: usize = i;
    while k < n
        invariant
            n == t@.len(),
            i <= k <= n,
            read_str(from(t@, i as int)) == match read_str(from(t@, k as int)) {
                Some((s, rest)) => Some((out@ + s, rest)),
                None => None,
            },
        decreases n - k,
    {
        let ghost u = from(t@, k as int);
        let c = t[k];
        assert(u[0] == c);
        if c == '"' {
            assert(out@ + Seq::<char>::empty() =~= out@);
            assert(u.drop_first() =~= from(t@, k + 1));
            return Some((out, k + 1));
        } else if c == '\\' {
            if n - k >= 2 && short_unescape_of(t[k + 1]).is_some() {
                let e = short_unescape_of(t[k + 1]).unwrap();
                assert(u[1] == t@[k + 1]);
                assert(u.subrange(2, u.len() as int) =~= from(t@, k + 2));
                let ghost prev = out@;
                crate::wire::push_char(&mut out, e);
                proof {
                    match read_str(from(t@, k + 2)) {
                        Some((s, rest)) => {
                            assert(prev + (seq![e] + s) =~= out@ + s);
                        },
                        None => {},
                    }
                }
                k = k + 2;
            } else if n - k >= 6 && t[k + 1] == 'u' && t[k + 2] == '0' && t[k + 3] == '0'
                && is_hex_char(t[k + 4]) && is_hex_char(t[k + 5]) {
                let code = hex_val(t[k + 4]) * 16 + hex_val(t[k + 5]);
                let d = (code as u8) as char;
                proof {
                    lemma_small_char(code);
                    assert(u[1] == 'u' && u[2] == '0' && u[3] == '0');
                    assert(u[4] == t@[k + 4] && u[5] == t@[k + 5]);
                    assert(u.subrange(6, u.len() as int) =~= from(t@, k + 6));
                }
                let ghost prev = out@;
                crate::wire::push_char(&mut out, d);
                proof {
                    match read_str(from(t@, k + 6)) {
                        Some((s, rest)) => {
                            assert(prev + (seq![d] + s) =~= out@ + s);
                        },
                        None => {},
                    }
                }
                k = k + 6;
            } else {
                proof {
                    if u.len() >= 2 {
                        assert(u[1] == t@[k + 1]);
                    }
                    if u.len() >= 6 {
                        assert(u[1] == t@[k + 1] && u[2] == t@[k + 2] && u[3] == t@[k + 3]);
                        assert(u[4] == t@[k + 4] && u[5] == t@[k + 5]);
                    }
                }
                return None;
            }
        } else if (c as u32) < 32 {
            return None;
        } else {
            assert(u.drop_first() =~= from(t@, k + 1));
            let ghost prev = out@;
            crate::wire::push_char(&mut out, c);
            proof {
                match read_str(from(t@, k + 1)) {
                    Some((s, rest)) => {
                        assert(prev + (seq![c] + s) =~= out@ + s);
                    },
                    None => {},
                }
            }
            k = k + 1;
        }
    }
    None
}

/// Reads a JSON string literal that starts at `i`.
fn read_json_str_at(t: &Vec<char>, i: usize) -> (r: Option<(String, usize)>)
    requires
        i <= t@.len(),
    ensures
        match read_json_str(from(t@, i as int)) {
            Some((s, rest)) => r matches Some((v, j)) && v@ == s && i <= j <= t@.len() && rest
                == from(t@, j as int),
            None => r is None,
        },
{
    proof {
        reveal_strlit("\"");
        assert("\""@ =~= seq!['"']);
    }
    match strip_at(t, i, "\"") {
        Some(j) => read_str_at(t, j),
        None => None,
    }
}

/// Reads the version field's value that starts at `i`.
fn read_version_at(t: &Vec<char>, i: usize) -> (r: Option<(Option<String>, usize)>)
    requires
        i <= t@.len(),
    ensures
        match read_version(from(t@, i as int)) {
            Some((v, rest)) => r matches Some((w, j)) && opt_view(w) == v && i <= j <= t@.len()
                && rest == from(t@, j as int),
            None => r is None,
        },
{
    proof {
        reveal_strlit("null");
        assert("null"@ =~= seq!['n', 'u', 'l', 'l']);
    }
    match strip_at(t, i, "null") {
        Some(j) => Some((None, j)),
        None => match read_json_str_at(t, i) {
            Some((s, j)) => Some((Some(s), j)),
            None => None,
        },
    }
}

/// The characters of `t` from `a` up to `b`, as a string.
fn string_of(t: &Vec<char>, a: usize, b: usize) -> (r: String)
    requires
        a <= b <= t@.len(),
    ensures
        r@ == t@.subrange(a as int, b as int),
{
    let mut out = String::new();
    let mut k: usize = a;
    while k < b
        invariant
            a <= k <= b,
            b <= t@.len(),
            out@ == t@.subrange(a as int, k as int),
        decreases b - k,
    {
        crate::wire::push_char(&mut out, t[k]);
        k = k + 1;
        assert(out@ =~= t@.subrange(a as int, k as int));
    }
    out
}

/// Reads a page object back from its wire form; its props stay JSON text.
pub fn decode_page(text: &str) -> (r: Option<PageObject<String>>)
    ensures
        match parse_page(text@) {
            Some((c, u, v, p)) => r matches Some(page) && page.component@ == c && page.url@ == u
                && opt_view(page.version) == v && page.props@ == p,
            None => r is None,
        },
{
    let t = chars_of(text);
    assert(from(t@, 0) =~= text@);
    let j1 = match strip_at(&t, 0, "{\"component\":") {
        Some(j) => j,
        None => return None,
    };
    let (component, j2) = match read_json_str_at(&t, j1) {
        Some(x) => x,
        None => return None,
    };
    let j3 = match strip_at(&t, j2, ",\"url\":") {
        Some(j) => j,
        None => return None,
    };
    let (url, j4) = match read_json_str_at(&t, j3) {
        Some(x) => x,
        None => return None,
    };
    let j5 = match strip_at(&t, j4, ",\"version\":") {
        Some(j) => j,
        None => return None,
    };
    let (version, j6) = match read_version_at(&t, j5) {
        Some(x) => x,
        None => return None,
    };
    let j7 = match strip_at(&t, j6, ",\"props\":") {
        Some(j) => j,
        None => return None,
    };
    let n = t.len();
    if j7 < n && t[n - 1] == '}' {
        let props = string_of(&t, j7, n - 1);
        assert(from(t@, j7 as int).drop_last() =~= t@.subrange(j7 as int, n - 1));
        Some(PageObject { component, props, url, version })
    } else {
        None
    }
}

} // verus!
