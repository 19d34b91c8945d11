use vstd::prelude::*;

verus! {

/// The code of a character after ASCII case folding.
pub open spec fn fold_char(c: char) -> u32 {
    if 65 <= (c as u32) <= 90 {
        ((c as u32) + 32) as u32
    } else {
        c as u32
    }
}

/// Two header names are the same name when they agree up to ASCII case.
pub open spec fn same_name(a: Seq<char>, b: Seq<char>) -> bool {
    a.len() == b.len() && forall|i: int| 0 <= i < a.len() ==> fold_char(#[trigger] a[i]) == fold_char(b[i])
}

/// The value of the first header in `hs` whose name is `name`.
pub open spec fn header_value(hs: Seq<(Seq<char>, Seq<char>)>, name: Seq<char>) -> Option<Seq<char>>
    decreases hs.len(),
{
    if hs.len() == 0 {
        None
    } else if same_name(hs[0].0, name) {
        Some(hs[0].1)
    } else {
        header_value(hs.drop_first(), name)
    }
}

/// ASCII case folding of one character, as a code.
fn fold(c: char) -> (r: u32)
    ensures
        r == fold_char(c),
{
    let n = c as u32;
    if 65 <= n && n <= 90 {
        n + 32
    } else {
        n
    }
}

/// Whether `a` and `b` name the same header.
pub fn names_match(a: &str, b: &str) -> (r: bool)
    ensures
        r == same_name(a@, b@),
{
    let n = a.unicode_len();
    if n != b.unicode_len() {
        return false;
    }
    let mut i: usize = 0;
    while i < n
        invariant
            n == a@.len(),
            n == b@.len(),
            0 <= i <= n,
            forall|j: int| 0 <= j < i ==> fold_char(#[trigger] a@[j]) == fold_char(b@[j]),
        decreases n - i,
    {
        if fold(a.get_char(i)) != fold(b.get_char(i)) {
            return false;
        }
        i = i + 1;
    }
    true
}

/// What the protocol reads of an inbound request: its method, its path
/// (with any query) and its headers, in the order they came.
pub struct RequestInfo {
    pub method: String,
    pub path: String,
    pub headers: Vec<(String, String)>,
}

/// The headers of a request as names and values.
pub open spec fn headers_view(hs: Seq<(String, String)>) -> Seq<(Seq<char>, Seq<char>)> {
    hs.map_values(|h: (String, String)| (h.0@, h.1@))
}

impl RequestInfo {
    /// The value of the first header named `name`, in any case.
    pub open spec fn header_spec(&self, name: Seq<char>) -> Option<Seq<char>> {
        header_value(headers_view(self.headers@), name)
    }

    /// Whether the request is a protocol request: it carries the marker header.
    pub open spec fn is_inertia(&self) -> bool {
        self.header_spec(crate::X_INERTIA@) is Some
    }

    /// The asset version the client reported, if it reported one.
    pub open spec fn client_version(&self) -> Option<Seq<char>> {
        self.header_spec(crate::X_INERTIA_VERSION@)
    }

    /// The value of the first header named `name`, in any case.
    pub fn header(&self, name: &str) -> (r: Option<String>)
        ensures
            crate::page::opt_view(r) == self.header_spec(name@),
    {
        let hs = &self.headers;
        let mut i: usize = 0;
        assert(headers_view(hs@).subrange(0, hs@.len() as int) =~= headers_view(hs@));
        while i < hs.len()
            invariant
                hs@ == self.headers@,
                0 <= i <= hs@.len(),
                header_value(headers_view(hs@), name@) == header_value(
                    headers_view(hs@).subrange(i as int, hs@.len() as int),
                    name@,
                ),
            decreases hs@.len() - i,
        {
            let ghost rest = headers_view(hs@).subrange(i as int, hs@.len() as int);
            assert(rest.drop_first() =~= headers_view(hs@).subrange(i + 1, hs@.len() as int));
            assert(rest[0] == (hs@[i as int].0@, hs@[i as int].1@));
            if names_match(hs[i].0.as_str(), name) {
                let v = hs[i].1.clone();
                assert(header_value(rest, name@) == Some(rest[0].1));
                return Some(v);
            }
            i = i + 1;
        }
        None
    }

    /// Whether the request carries the protocol's marker header.
    pub fn inertia_request(&self) -> (r: bool)
        ensures
            r == self.is_inertia(),
    {
        proof { reveal_strlit("X-Inertia"); }
        self.header(crate::X_INERTIA).is_some()
    }

    /// The asset version reported by the client, if any.
    pub fn inertia_version(&self) -> (r: Option<String>)
        ensures
            crate::page::opt_view(r) == self.client_version(),
    {
        self.header(crate::X_INERTIA_VERSION)
    }
}

} // verus!
