//! Character-level string helpers, each proved against a spec over `Seq<char>`.

use vstd::prelude::*;

verus! {

/// An owned copy of a string slice.
pub fn owned(s: &str) -> (r: String)
    ensures
        r@ == s@,
{
    String::from_str(s)
}

/// `a ++ b` as a new string.
pub fn join2(a: &str, b: &str) -> (r: String)
    ensures
        r@ == a@ + b@,
{
    String::from_str(a).concat(b)
}

/// Whether two string slices hold the same characters.
pub fn str_eq(a: &str, b: &str) -> (r: bool)
    ensures
        r == (a@ == b@),
{
    let n = a.unicode_len();
    let m = b.unicode_len();
    if n != m {
        return false;
    }
    let mut i: usize = 0;
    while i < n
        invariant
            n == a@.len(),
            m == b@.len(),
            n == m,
            i <= n,
            forall|j: int| 0 <= j < i ==> a@[j] == b@[j],
        decreases n - i,
    {
        if a.get_char(i) != b.get_char(i) {
            return false;
        }
        i = i + 1;
    }
    assert(a@ =~= b@);
    true
}

pub open spec fn is_ascii_upper(c: char) -> bool {
    65 <= (c as u32) <= 90
}

/// ASCII lower-casing of one character; every other character is unchanged.
pub open spec fn lower_char(c: char) -> char {
    if is_ascii_upper(c) {
        (((c as u32) + 32) as u32) as char
    } else {
        c
    }
}

pub open spec fn lower_seq(s: Seq<char>) -> Seq<char> {
    s.map_values(|c: char| lower_char(c))
}

/// Copy of `s` with ASCII letters `A`..`Z` mapped to `a`..`z`.
pub fn ascii_lowercase(s: &str) -> (r: String)
    ensures
        r@ == lower_seq(s@),
{
    let alphabet = "abcdefghijklmnopqrstuvwxyz";
    proof {
        reveal_strlit("abcdefghijklmnopqrstuvwxyz");
    }
    let n = s.unicode_len();
    let mut out = String::new();
    let mut i: usize = 0;
    while i < n
        invariant
            n == s@.len(),
            i <= n,
            alphabet@ == "abcdefghijklmnopqrstuvwxyz"@,
            alphabet@.len() == 26,
            forall|k: int| 0 <= k < 26 ==> (#[trigger] alphabet@[k]) as u32 == 97 + k,
            out@ == lower_seq(s@.subrange(0, i as int)),
        decreases n - i,
    {
        let c = s.get_char(i);
        let u = c as u32;
        if 65 <= u && u <= 90 {
            let k = (u - 65) as usize;
            let piece = alphabet.substring_char(k, k + 1);
            out.append(piece);
            assert(piece@ =~= seq![lower_char(c)]) by {
                let a = alphabet@[k as int];
                assert(a as u32 == 97 + k);
                vstd::utf8::char_u32_cast(a, (u + 32) as u32);
            }
        } else {
            let piece = s.substring_char(i, i + 1);
            out.append(piece);
            assert(piece@ =~= seq![lower_char(c)]);
        }
        assert(s@.subrange(0, i + 1) =~= s@.subrange(0, i as int).push(c));
        assert(lower_seq(s@.subrange(0, i + 1)) =~= lower_seq(s@.subrange(0, i as int)).push(
            lower_char(c),
        ));
        i = i + 1;
    }
    assert(s@.subrange(0, n as int) =~= s@);
    out
}

/// Whether `s`, ASCII-lower-cased, equals `lit`.
pub fn lower_eq(s: &str, lit: &str) -> (r: bool)
    ensures
        r == (lower_seq(s@) == lit@),
{
    let l = ascii_lowercase(s);
    str_eq(l.as_str(), lit)
}

/// Index of the first occurrence of `c` in `s`.
pub open spec fn first_index(s: Seq<char>, c: char) -> Option<int>
    decreases s.len(),
{
    if s.len() == 0 {
        None
    } else if s[0] == c {
        Some(0)
    } else {
        match first_index(s.drop_first(), c) {
            Some(i) => Some(i + 1),
            None => None,
        }
    }
}

pub proof fn lemma_first_index(s: Seq<char>, c: char)
    ensures
        first_index(s, c) matches Some(i) ==> 0 <= i < s.len() && s[i] == c && forall|j: int|
            0 <= j < i ==> s[j] != c,
        first_index(s, c) is None ==> forall|j: int| 0 <= j < s.len() ==> s[j] != c,
    decreases s.len(),
{
    if s.len() > 0 {
        lemma_first_index(s.drop_first(), c);
        if s[0] != c {
            assert forall|j: int| 1 <= j < s.len() implies s[j] == s.drop_first()[j - 1] by {}
        }
    }
}

/// Index of the first occurrence of `c`, scanning by characters.
pub fn find_char(s: &str, c: char) -> (r: Option<usize>)
    ensures
        match first_index(s@, c) {
            Some(i) => r == Some(i as usize),
            None => r is None,
        },
{
    proof {
        lemma_first_index(s@, c);
    }
    let n = s.unicode_len();
    let mut i: usize = 0;
    while i < n
        invariant
            n == s@.len(),
            i <= n,
            forall|j: int| 0 <= j < i ==> s@[j] != c,
            first_index(s@, c) matches Some(k) ==> 0 <= k < s@.len() && s@[k] == c && forall|j: int|
                0 <= j < k ==> s@[j] != c,
            first_index(s@, c) is None ==> forall|j: int| 0 <= j < s@.len() ==> s@[j] != c,
        decreases n - i,
    {
        if s.get_char(i) == c {
            return Some(i);
        }
        i = i + 1;
    }
    None
}

/// `str::split` by a single character: the pieces between separators,
/// empty ones included, at least one piece.
pub open spec fn split_on(s: Seq<char>, sep: char) -> Seq<Seq<char>>
    decreases s.len(),
{
    if s.len() == 0 {
        seq![Seq::<char>::empty()]
    } else {
        let p = split_on(s.drop_last(), sep);
        let c = s.last();
        if c == sep {
            p.push(Seq::<char>::empty())
        } else {
            p.drop_last().push(p.last().push(c))
        }
    }
}

pub proof fn lemma_split_on_nonempty(s: Seq<char>, sep: char)
    ensures
        split_on(s, sep).len() >= 1,
    decreases s.len(),
{
    if s.len() > 0 {
        lemma_split_on_nonempty(s.drop_last(), sep);
    }
}

/// The pieces of `s` between occurrences of `sep`, as in `str::split`.
pub fn split_char<'a>(s: &'a str, sep: char) -> (r: Vec<&'a str>)
    ensures
        r@.len() == split_on(s@, sep).len(),
        forall|i: int| 0 <= i < r@.len() ==> (#[trigger] r@[i])@ == split_on(s@, sep)[i],
{
    let n = s.unicode_len();
    let mut out: Vec<&'a str> = Vec::new();
    let mut start: usize = 0;
    let mut i: usize = 0;
    while i < n
        invariant
            n == s@.len(),
            start <= i <= n,
            ({
                let p = split_on(s@.subrange(0, i as int), sep);
                &&& out@.len() + 1 == p.len()
                &&& forall|k: int| 0 <= k < out@.len() ==> (#[trigger] out@[k])@ == p[k]
                &&& p.last() == s@.subrange(start as int, i as int)
            }),
        decreases n - i,
    {
        let c = s.get_char(i);
        proof {
            let pre = s@.subrange(0, i as int);
            assert(s@.subrange(0, i + 1).drop_last() =~= pre);
            lemma_split_on_nonempty(pre, sep);
        }
        if c == sep {
            let piece = s.substring_char(start, i);
            out.push(piece);
            start = i + 1;
            proof {
                let p2 = split_on(s@.subrange(0, i + 1), sep);
                assert(s@.subrange(start as int, i + 1) =~= Seq::<char>::empty());
                assert forall|k: int| 0 <= k < out@.len() implies (#[trigger] out@[k])@ == p2[k] by {}
            }
        } else {
            proof {
                let pre = s@.subrange(0, i as int);
                let p = split_on(pre, sep);
                let p2 = split_on(s@.subrange(0, i + 1), sep);
                assert(s@.subrange(start as int, i + 1) =~= s@.subrange(start as int, i as int).push(c));
                assert forall|k: int| 0 <= k < out@.len() implies (#[trigger] out@[k])@ == p2[k] by {
                    assert(p2[k] == p[k]);
                }
            }
        }
        i = i + 1;
    }
    let last = s.substring_char(start, n);
    out.push(last);
    proof {
        assert(s@.subrange(0, n as int) =~= s@);
        let p = split_on(s@, sep);
        assert forall|k: int| 0 <= k < out@.len() implies (#[trigger] out@[k])@ == p[k] by {}
    }
    out
}

/// `str::split_once` by a character, with `(t, "")` when it does not occur.
pub open spec fn key_value(t: Seq<char>, c: char) -> (Seq<char>, Seq<char>) {
    match first_index(t, c) {
        Some(i) => (t.subrange(0, i), t.subrange(i + 1, t.len() as int)),
        None => (t, Seq::<char>::empty()),
    }
}

pub fn split_once_or_all<'a>(t: &'a str, c: char) -> (r: (&'a str, &'a str))
    ensures
        (r.0@, r.1@) == key_value(t@, c),
{
    proof {
        lemma_first_index(t@, c);
    }
    let n = t.unicode_len();
    match find_char(t, c) {
        Some(i) => (t.substring_char(0, i), t.substring_char(i + 1, n)),
        None => {
            let e = t.substring_char(0, 0);
            proof {
                assert(t@.subrange(0, n as int) =~= t@);
                assert(e@ =~= Seq::<char>::empty());
            }
            (t.substring_char(0, n), e)
        },
    }
}

/// `char::is_whitespace`: the characters with the Unicode `White_Space` property.
pub open spec fn is_white_space(c: char) -> bool {
    let u = c as u32;
    (9 <= u <= 13) || u == 32 || u == 0x85 || u == 0xA0 || u == 0x1680 || (0x2000 <= u <= 0x200A)
        || u == 0x2028 || u == 0x2029 || u == 0x202F || u == 0x205F || u == 0x3000
}

/// The characters trimmed: `/` when `slash`, whitespace otherwise.
pub open spec fn trimmed_char(slash: bool, c: char) -> bool {
    if slash {
        c == '/'
    } else {
        is_white_space(c)
    }
}

pub open spec fn trim_start(s: Seq<char>, slash: bool) -> Seq<char>
    decreases s.len(),
{
    if s.len() > 0 && trimmed_char(slash, s[0]) {
        trim_start(s.drop_first(), slash)
    } else {
        s
    }
}

pub open spec fn trim_end(s: Seq<char>, slash: bool) -> Seq<char>
    decreases s.len(),
{
    if s.len() > 0 && trimmed_char(slash, s.last()) {
        trim_end(s.drop_last(), slash)
    } else {
        s
    }
}

/// `str::trim` (whitespace) or `str::trim_matches('/')`.
pub open spec fn trim_both(s: Seq<char>, slash: bool) -> Seq<char> {
    trim_end(trim_start(s, slash), slash)
}

proof fn lemma_trim_start(s: Seq<char>, slash: bool, a: int)
    requires
        0 <= a <= s.len(),
        forall|j: int| 0 <= j < a ==> trimmed_char(slash, #[trigger] s[j]),
        a == s.len() || !trimmed_char(slash, s[a]),
    ensures
        trim_start(s, slash) == s.subrange(a, s.len() as int),
    decreases a,
{
    if a == 0 {
        assert(s.subrange(0, s.len() as int) =~= s);
    } else {
        let t = s.drop_first();
        assert forall|j: int| 0 <= j < a - 1 implies trimmed_char(slash, #[trigger] t[j]) by {
            assert(t[j] == s[j + 1]);
        }
        lemma_trim_start(t, slash, a - 1);
        assert(t.subrange(a - 1, t.len() as int) =~= s.subrange(a, s.len() as int));
    }
}

proof fn lemma_trim_end(s: Seq<char>, slash: bool, b: int)
    requires
        0 <= b <= s.len(),
        forall|j: int| b <= j < s.len() ==> trimmed_char(slash, #[trigger] s[j]),
        b == 0 || !trimmed_char(slash, s[b - 1]),
    ensures
        trim_end(s, slash) == s.subrange(0, b),
    decreases s.len() - b,
{
    if b == s.len() {
        assert(s.subrange(0, b) =~= s);
    } else {
        let t = s.drop_last();
        lemma_trim_end(t, slash, b);
        assert(t.subrange(0, b) =~= s.subrange(0, b));
    }
}

/// Trimmed characters in front of a text are trimmed away.
proof fn lemma_trim_start_prefix(p: Seq<char>, x: Seq<char>, slash: bool)
    requires
        forall|i: int| 0 <= i < p.len() ==> trimmed_char(slash, #[trigger] p[i]),
    ensures
        trim_start(p + x, slash) == trim_start(x, slash),
    decreases p.len(),
{
    if p.len() > 0 {
        assert((p + x)[0] == p[0]);
        assert((p + x).drop_first() =~= p.drop_first() + x);
        assert forall|i: int| 0 <= i < p.drop_first().len() implies trimmed_char(
            slash,
            #[trigger] p.drop_first()[i],
        ) by {
            assert(p.drop_first()[i] == p[i + 1]);
        }
        lemma_trim_start_prefix(p.drop_first(), x, slash);
    } else {
        assert(p + x =~= x);
    }
}

/// Trimming the front of `s + q` stops inside `s` unless `s` is all
/// trimmed characters.
proof fn lemma_trim_start_concat(s: Seq<char>, q: Seq<char>, slash: bool)
    ensures
        trim_start(s + q, slash) == (if trim_start(s, slash).len() > 0 {
            trim_start(s, slash) + q
        } else {
            trim_start(q, slash)
        }),
    decreases s.len(),
{
    if s.len() == 0 {
        assert(s + q =~= q);
    } else {
        assert((s + q)[0] == s[0]);
        if trimmed_char(slash, s[0]) {
            assert((s + q).drop_first() =~= s.drop_first() + q);
            lemma_trim_start_concat(s.drop_first(), q, slash);
        }
    }
}

/// Trimmed characters behind a text are trimmed away.
proof fn lemma_trim_end_suffix(x: Seq<char>, q: Seq<char>, slash: bool)
    requires
        forall|i: int| 0 <= i < q.len() ==> trimmed_char(slash, #[trigger] q[i]),
    ensures
        trim_end(x + q, slash) == trim_end(x, slash),
    decreases q.len(),
{
    if q.len() > 0 {
        assert((x + q).last() == q.last());
        assert((x + q).drop_last() =~= x + q.drop_last());
        assert forall|i: int| 0 <= i < q.drop_last().len() implies trimmed_char(
            slash,
            #[trigger] q.drop_last()[i],
        ) by {
            assert(q.drop_last()[i] == q[i]);
        }
        lemma_trim_end_suffix(x, q.drop_last(), slash);
    } else {
        assert(x + q =~= x);
    }
}

/// A text made of trimmed characters trims to nothing.
proof fn lemma_trim_start_all(q: Seq<char>, slash: bool)
    requires
        forall|i: int| 0 <= i < q.len() ==> trimmed_char(slash, #[trigger] q[i]),
    ensures
        trim_start(q, slash).len() == 0,
    decreases q.len(),
{
    if q.len() > 0 {
        assert forall|i: int| 0 <= i < q.drop_first().len() implies trimmed_char(
            slash,
            #[trigger] q.drop_first()[i],
        ) by {
            assert(q.drop_first()[i] == q[i + 1]);
        }
        lemma_trim_start_all(q.drop_first(), slash);
    }
}

/// Trimmed characters added at either end of a text are trimmed away with
/// the rest.
pub proof fn lemma_trim_both_padding(p: Seq<char>, s: Seq<char>, q: Seq<char>, slash: bool)
    requires
        forall|i: int| 0 <= i < p.len() ==> trimmed_char(slash, #[trigger] p[i]),
        forall|i: int| 0 <= i < q.len() ==> trimmed_char(slash, #[trigger] q[i]),
    ensures
        trim_both(p + s + q, slash) == trim_both(s, slash),
{
    assert(p + s + q =~= p + (s + q));
    lemma_trim_start_prefix(p, s + q, slash);
    lemma_trim_start_concat(s, q, slash);
    if trim_start(s, slash).len() > 0 {
        lemma_trim_end_suffix(trim_start(s, slash), q, slash);
    } else {
        lemma_trim_start_all(q, slash);
        assert(trim_start(q, slash) =~= trim_start(s, slash));
    }
}

/// `str::trim` when `slash` is false, `str::trim_matches('/')` when it is true.
pub fn trim_chars<'a>(s: &'a str, slash: bool) -> (r: &'a str)
    ensures
        r@ == trim_both(s@, slash),
{
    let n = s.unicode_len();
    let mut a: usize = 0;
    while a < n && is_trimmed(s.get_char(a), slash)
        invariant
            n == s@.len(),
            a <= n,
            forall|j: int| 0 <= j < a ==> trimmed_char(slash, #[trigger] s@[j]),
        decreases n - a,
    {
        a = a + 1;
    }
    proof {
        lemma_trim_start(s@, slash, a as int);
    }
    let mid = s.substring_char(a, n);
    let m = mid.unicode_len();
    let mut b: usize = m;
    while b > 0 && is_trimmed(mid.get_char(b - 1), slash)
        invariant
            m == mid@.len(),
            b <= m,
            forall|j: int| b <= j < m ==> trimmed_char(slash, #[trigger] mid@[j]),
        decreases b,
    {
        b = b - 1;
    }
    proof {
        lemma_trim_end(mid@, slash, b as int);
    }
    mid.substring_char(0, b)
}

/// `str::trim_start_matches('/')`.
pub fn trim_leading_slashes<'a>(s: &'a str) -> (r: &'a str)
    ensures
        r@ == trim_start(s@, true),
{
    let n = s.unicode_len();
    let mut a: usize = 0;
    while a < n && s.get_char(a) == '/'
        invariant
            n == s@.len(),
            a <= n,
            forall|j: int| 0 <= j < a ==> trimmed_char(true, #[trigger] s@[j]),
        decreases n - a,
    {
        a = a + 1;
    }
    proof {
        lemma_trim_start(s@, true, a as int);
    }
    s.substring_char(a, n)
}

fn is_trimmed(c: char, slash: bool) -> (r: bool)
    ensures
        r == trimmed_char(slash, c),
{
    if slash {
        c == '/'
    } else {
        let u = c as u32;
        (9 <= u && u <= 13) || u == 32 || u == 0x85 || u == 0xA0 || u == 0x1680 || (0x2000 <= u
            && u <= 0x200A) || u == 0x2028 || u == 0x2029 || u == 0x202F || u == 0x205F || u
            == 0x3000
    }
}

} // verus!
