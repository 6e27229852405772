//! The font registry: the `.ttf` / `.otf` files of a directory, loaded in
//! name order and served by file stem. The first font loaded is the
//! default one.

use vstd::prelude::*;
use crate::config::{is_font_file, is_font_file_name, last_dot};
use crate::error::{DomainError, fails_invalid};
use crate::names::NameMap;
use crate::text::{join2, str_eq};

verus! {

// ─── Name order ──────────────────────────────────────────────────────────────

/// Strict lexicographic order of names, character by character (which is
/// the byte order of their UTF-8 encodings).
pub open spec fn name_lt(a: Seq<char>, b: Seq<char>) -> bool
    decreases a.len(),
{
    if a.len() == 0 {
        b.len() > 0
    } else if b.len() == 0 {
        false
    } else if a[0] != b[0] {
        (a[0] as int) < (b[0] as int)
    } else {
        name_lt(a.drop_first(), b.drop_first())
    }
}

pub open spec fn name_le(a: Seq<char>, b: Seq<char>) -> bool {
    a == b || name_lt(a, b)
}

pub open spec fn names_sorted(s: Seq<String>) -> bool {
    forall|i: int, j: int| 0 <= i < j < s.len() ==> name_le(#[trigger] s[i]@, #[trigger] s[j]@)
}

proof fn lemma_lt_irreflexive(a: Seq<char>)
    ensures
        !name_lt(a, a),
    decreases a.len(),
{
    if a.len() > 0 {
        lemma_lt_irreflexive(a.drop_first());
    }
}

proof fn lemma_lt_total(a: Seq<char>, b: Seq<char>)
    ensures
        a == b || name_lt(a, b) || name_lt(b, a),
    decreases a.len(),
{
    if a.len() == 0 && b.len() == 0 {
        assert(a =~= b);
    } else if a.len() > 0 && b.len() > 0 {
        if a[0] == b[0] {
            lemma_lt_total(a.drop_first(), b.drop_first());
            if a.drop_first() == b.drop_first() {
                assert(a.drop_first().len() == a.len() - 1);
                assert(b.drop_first().len() == b.len() - 1);
                assert(a.len() == b.len());
                assert forall|k: int| 0 <= k < a.len() implies a[k] == b[k] by {
                    if k > 0 {
                        assert(a[k] == a.drop_first()[k - 1]);
                        assert(b[k] == b.drop_first()[k - 1]);
                    }
                }
                assert(a =~= b);
            }
        }
    }
}

proof fn lemma_lt_transitive(a: Seq<char>, b: Seq<char>, c: Seq<char>)
    requires
        name_lt(a, b),
        name_lt(b, c),
    ensures
        name_lt(a, c),
    decreases a.len(),
{
    if a.len() > 0 && b.len() > 0 && c.len() > 0 && a[0] == b[0] && b[0] == c[0] {
        lemma_lt_transitive(a.drop_first(), b.drop_first(), c.drop_first());
    }
}

proof fn lemma_lt_asymmetric(a: Seq<char>, b: Seq<char>)
    requires
        name_lt(a, b),
    ensures
        !name_lt(b, a),
    decreases a.len(),
{
    if a.len() > 0 && b.len() > 0 && a[0] == b[0] {
        lemma_lt_asymmetric(a.drop_first(), b.drop_first());
    }
}

fn str_lt(a: &str, b: &str) -> (r: bool)
    ensures
        r == name_lt(a@, b@),
{
    let n = a.unicode_len();
    let m = b.unicode_len();
    let mut i: usize = 0;
    assert(a@.subrange(0, n as int) =~= a@);
    assert(b@.subrange(0, m as int) =~= b@);
    while i < n && i < m
        invariant
            i <= n == a@.len(),
            i <= m == b@.len(),
            name_lt(a@, b@) == name_lt(a@.subrange(i as int, n as int), b@.subrange(i as int, m as int)),
        decreases n - i,
    {
        let x = a.get_char(i);
        let y = b.get_char(i);
        proof {
            let sa = a@.subrange(i as int, n as int);
            let sb = b@.subrange(i as int, m as int);
            assert(sa[0] == x && sb[0] == y);
            assert(sa.drop_first() =~= a@.subrange(i + 1, n as int));
            assert(sb.drop_first() =~= b@.subrange(i + 1, m as int));
        }
        if x != y {
            return (x as u32) < (y as u32);
        }
        i = i + 1;
    }
    proof {
        let sa = a@.subrange(i as int, n as int);
        let sb = b@.subrange(i as int, m as int);
        assert(sa.len() == 0 || sb.len() == 0);
    }
    i < m && i == n
}

/// Sorts names in ascending order.
pub fn sort_names(v: &Vec<String>) -> (r: Vec<String>)
    ensures
        names_sorted(r@),
        r@.to_multiset() == v@.to_multiset(),
{
    broadcast use vstd::seq_lib::group_to_multiset_ensures, vstd::multiset::group_multiset_axioms;

    let mut out: Vec<String> = Vec::new();
    let mut i: usize = 0;
    assert(out@ =~= v@.subrange(0, 0));
    while i < v.len()
        invariant
            i <= v@.len(),
            names_sorted(out@),
            out@.to_multiset() == v@.subrange(0, i as int).to_multiset(),
        decreases v@.len() - i,
    {
        let x = v[i].clone();
        assert(v@.subrange(0, i + 1) =~= v@.subrange(0, i as int).push(x));
        // the first position whose name is greater than `x`
        let mut p: usize = 0;
        while p < out.len() && !str_lt(x.as_str(), out[p].as_str())
            invariant
                p <= out@.len(),
                forall|k: int| 0 <= k < p ==> !name_lt(x@, #[trigger] out@[k]@),
            decreases out@.len() - p,
        {
            p = p + 1;
        }
        let ghost old_out = out@;
        let ghost left = old_out.subrange(0, p as int);
        let ghost right = old_out.subrange(p as int, old_out.len() as int);
        out.insert(p, x);
        proof {
            assert(out@ =~= left.push(x) + right);
            assert(old_out =~= left + right);
            assert forall|a: int, b: int| 0 <= a < b < out@.len() implies name_le(
                #[trigger] out@[a]@,
                #[trigger] out@[b]@,
            ) by {
                if a < p && b == p {
                    lemma_lt_total(x@, old_out[a]@);
                } else if a < p && b > p {
                    assert(name_le(old_out[a]@, old_out[b - 1]@));
                } else if a == p && b > p {
                    assert(name_lt(x@, old_out[p as int]@));
                    if b - 1 > p {
                        assert(name_le(old_out[p as int]@, old_out[b - 1]@));
                        if name_lt(old_out[p as int]@, old_out[b - 1]@) {
                            lemma_lt_transitive(x@, old_out[p as int]@, old_out[b - 1]@);
                        }
                    }
                } else if a > p {
                    assert(name_le(old_out[a - 1]@, old_out[b - 1]@));
                }
            }
            vstd::seq_lib::lemma_multiset_commutative(left, right);
            vstd::seq_lib::lemma_multiset_commutative(left.push(x), right);
            let ml = left.to_multiset();
            let mr = right.to_multiset();
            vstd::seq_lib::to_multiset_build(left, x);
            vstd::seq_lib::to_multiset_build(v@.subrange(0, i as int), x);
            assert(out@.to_multiset() =~= ml.insert(x).add(mr));
            assert(old_out.to_multiset() =~= ml.add(mr));
            assert(ml.insert(x).add(mr) =~= ml.add(mr).insert(x));
            assert(out@.to_multiset() =~= old_out.to_multiset().insert(x));
        }
        i = i + 1;
    }
    assert(v@.subrange(0, v@.len() as int) =~= v@);
    out
}

// ─── Font files ──────────────────────────────────────────────────────────────

/// The stem of a file name as `Path::file_stem` reads it: the name without
/// its extension; none for an empty name or `..`.
pub open spec fn file_stem(name: Seq<char>) -> Option<Seq<char>> {
    if name.len() == 0 || name == ".."@ {
        None
    } else {
        match last_dot(name) {
            Some(i) => if i > 0 {
                Some(name.subrange(0, i))
            } else {
                Some(name)
            },
            None => Some(name),
        }
    }
}

/// The name a font file is registered under: its stem, else `font`.
pub open spec fn font_name(file: Seq<char>) -> Seq<char> {
    match file_stem(file) {
        Some(s) => s,
        None => "font"@,
    }
}

pub fn font_name_of(file: &str) -> (r: String)
    ensures
        r@ == font_name(file@),
{
    let n = file.unicode_len();
    if n == 0 || str_eq(file, "..") {
        return String::from_str("font");
    }
    let mut k: usize = n;
    assert(file@.subrange(0, n as int) =~= file@);
    while k > 0
        invariant
            k <= n == file@.len(),
            n > 0,
            file@ != ".."@,
            last_dot(file@) == last_dot(file@.subrange(0, k as int)),
        decreases k,
    {
        let ghost sub = file@.subrange(0, k as int);
        if file.get_char(k - 1) == '.' {
            assert(sub.last() == '.');
            if k - 1 > 0 {
                return String::from_str(file.substring_char(0, k - 1));
            } else {
                return String::from_str(file);
            }
        }
        assert(sub.drop_last() =~= file@.subrange(0, k - 1));
        k = k - 1;
    }
    String::from_str(file)
}

/// The entries that are font files, in order.
pub open spec fn font_entries(s: Seq<String>) -> Seq<String>
    decreases s.len(),
{
    if s.len() == 0 {
        s
    } else if is_font_file(s.last()@) {
        font_entries(s.drop_last()).push(s.last())
    } else {
        font_entries(s.drop_last())
    }
}

/// The font files among a directory's entries, sorted by name: the order
/// in which they are loaded.
pub open spec fn font_files_of(entries: Seq<String>, r: Seq<String>) -> bool {
    &&& names_sorted(r)
    &&& r.to_multiset() == font_entries(entries).to_multiset()
}

pub fn font_files(entries: &Vec<String>) -> (r: Vec<String>)
    ensures
        font_files_of(entries@, r@),
{
    let mut kept: Vec<String> = Vec::new();
    let mut i: usize = 0;
    while i < entries.len()
        invariant
            i <= entries@.len(),
            kept@ == font_entries(entries@.subrange(0, i as int)),
        decreases entries@.len() - i,
    {
        assert(entries@.subrange(0, i + 1).drop_last() =~= entries@.subrange(0, i as int));
        if is_font_file_name(entries[i].as_str()) {
            kept.push(entries[i].clone());
        }
        i = i + 1;
    }
    assert(entries@.subrange(0, entries@.len() as int) =~= entries@);
    sort_names(&kept)
}

// ─── Registry ────────────────────────────────────────────────────────────────

/// A loaded font as `ab_glyph` holds it.
#[verifier::external_type_specification]
#[verifier::external_body]
pub struct ExFontArc(ab_glyph::FontArc);

/// Whether `ab_glyph::FontArc::try_from_vec` accepts the bytes as a font.
pub uninterp spec fn font_data_parses(data: Seq<u8>) -> bool;

/// Calls `ab_glyph::FontArc::try_from_vec`. The contract claims only that
/// whether it succeeds is a function of the bytes, named
/// `font_data_parses`; the font it builds is not described.
#[verifier::external_body]
fn parse_font(data: Vec<u8>) -> (r: Option<ab_glyph::FontArc>)
    ensures
        r is Some <==> font_data_parses(data@),
{
    ab_glyph::FontArc::try_from_vec(data).ok()
}

/// The fonts by name that loading the files in order gives: each font that
/// could be read is registered under its file's name, a later one replacing
/// an earlier one of the same name.
pub open spec fn loaded_map<H>(files: Seq<(String, Option<H>)>) -> Map<Seq<char>, H>
    decreases files.len(),
{
    if files.len() == 0 {
        Map::empty()
    } else {
        let m = loaded_map(files.drop_last());
        match files.last().1 {
            Some(h) => m.insert(font_name(files.last().0@), h),
            None => m,
        }
    }
}

/// The default font: the name of the first font that could be read.
pub open spec fn loaded_default<H>(files: Seq<(String, Option<H>)>) -> Option<Seq<char>>
    decreases files.len(),
{
    if files.len() == 0 {
        None
    } else {
        let d = loaded_default(files.drop_last());
        if d is Some {
            d
        } else if files.last().1 is Some {
            Some(font_name(files.last().0@))
        } else {
            None
        }
    }
}

/// The names registered when the files that could be read are the ones
/// marked `true`.
pub open spec fn registered_names(files: Seq<(Seq<char>, bool)>) -> Set<Seq<char>>
    decreases files.len(),
{
    if files.len() == 0 {
        Set::empty()
    } else {
        let s = registered_names(files.drop_last());
        if files.last().1 {
            s.insert(font_name(files.last().0))
        } else {
            s
        }
    }
}

/// The name of the first file marked `true`.
pub open spec fn first_registered(files: Seq<(Seq<char>, bool)>) -> Option<Seq<char>>
    decreases files.len(),
{
    if files.len() == 0 {
        None
    } else {
        let d = first_registered(files.drop_last());
        if d is Some {
            d
        } else if files.last().1 {
            Some(font_name(files.last().0))
        } else {
            None
        }
    }
}

pub open spec fn parsed_flags<H>(files: Seq<(String, Option<H>)>) -> Seq<(Seq<char>, bool)> {
    files.map_values(|f: (String, Option<H>)| (f.0@, f.1 is Some))
}

proof fn lemma_loaded_names<H>(files: Seq<(String, Option<H>)>)
    ensures
        loaded_map(files).dom() == registered_names(parsed_flags(files)),
        loaded_default(files) == first_registered(parsed_flags(files)),
    decreases files.len(),
{
    if files.len() > 0 {
        lemma_loaded_names(files.drop_last());
        assert(parsed_flags(files).drop_last() =~= parsed_flags(files.drop_last()));
        assert(loaded_map(files).dom() =~= registered_names(parsed_flags(files)));
    }
}

/// Fonts by name, with the name of the default font.
pub struct AbGlyphFontProvider<H> {
    fonts: NameMap<H>,
    default_name: Option<String>,
}

impl<H> AbGlyphFontProvider<H> {
    /// The fonts by name.
    pub closed spec fn font_map(self) -> Map<Seq<char>, H> {
        self.fonts.map()
    }

    /// The name of the default font.
    pub closed spec fn default_font_name(self) -> Option<Seq<char>> {
        match self.default_name {
            Some(n) => Some(n@),
            None => None,
        }
    }

    /// A registry with no font.
    pub fn empty() -> (p: Self)
        ensures
            p.font_map() == Map::<Seq<char>, H>::empty(),
            p.default_font_name() is None,
    {
        Self { fonts: NameMap::new(), default_name: None }
    }

    /// The font registered under `name`.
    pub fn font(&self, name: &str) -> (r: Result<&H, DomainError>)
        ensures
            self.font_map().dom().contains(name@) ==> (r matches Ok(h) && *h == self.font_map()[name@]),
            !self.font_map().dom().contains(name@) ==> fails_invalid(
                r,
                "font not found: "@ + name@,
            ),
    {
        match self.fonts.get(name) {
            Some(h) => Ok(h),
            None => Err(DomainError::invalid(join2("font not found: ", name))),
        }
    }

    /// The default font: the first one loaded.
    pub fn default_font(&self) -> (r: Result<&H, DomainError>)
        ensures
            self.default_font_name() is None ==> fails_invalid(r, "no fonts loaded"@),
            self.default_font_name() matches Some(n) ==> (if self.font_map().dom().contains(n) {
                r matches Ok(h) && *h == self.font_map()[n]
            } else {
                fails_invalid(r, "font not found: "@ + n)
            }),
    {
        match &self.default_name {
            Some(n) => self.font(n.as_str()),
            None => Err(DomainError::invalid(String::from_str("no fonts loaded"))),
        }
    }

    /// The font registered under `name`, or the default font when no font
    /// has that name.
    pub fn font_or_default(&self, name: &str) -> (r: Result<&H, DomainError>)
        ensures
            self.font_map().dom().contains(name@) ==> (r matches Ok(h) && *h == self.font_map()[name@]),
            !self.font_map().dom().contains(name@) ==> match self.default_font_name() {
                None => fails_invalid(r, "no fonts loaded"@),
                Some(n) => if self.font_map().dom().contains(n) {
                    r matches Ok(h) && *h == self.font_map()[n]
                } else {
                    fails_invalid(r, "font not found: "@ + n)
                },
            },
    {
        match self.font(name) {
            Ok(h) => Ok(h),
            Err(_) => self.default_font(),
        }
    }

    /// Registers the fonts of a directory: `files` holds, in load order,
    /// each font file's name and its font, `None` for one that could not be
    /// read (it is skipped).
    pub fn from_parsed(files: Vec<(String, Option<H>)>) -> (p: Self)
        ensures
            p.font_map() == loaded_map(files@),
            p.default_font_name() == loaded_default(files@),
    {
        let ghost all = files@;
        let mut files = files;
        let mut p = Self::empty();
        let mut i: usize = 0;
        assert(all.len() == files.len());
        while files.len() > 0
            invariant
                all.len() <= usize::MAX,
                i + files@.len() == all.len(),
                files@ == all.subrange(i as int, all.len() as int),
                p.font_map() == loaded_map(all.subrange(0, i as int)),
                p.default_font_name() == loaded_default(all.subrange(0, i as int)),
            decreases files@.len(),
        {
            let (file, font) = files.remove(0);
            proof {
                assert(all.subrange(0, i + 1).drop_last() =~= all.subrange(0, i as int));
                assert(all[i as int] == (file, font));
            }
            match font {
                Some(h) => {
                    let name = font_name_of(file.as_str());
                    if p.default_name.is_none() {
                        p.default_name = Some(name.clone());
                    }
                    p.fonts.insert(name, h);
                },
                None => {},
            }
            i = i + 1;
            proof {
                assert(files@ =~= all.subrange(i as int, all.len() as int));
            }
        }
        proof {
            assert(all.subrange(0, i as int) =~= all);
        }
        p
    }
}

/// Loads the font files of a directory, in load order: each file's name
/// and bytes. A file whose bytes are not a font is skipped; the names and
/// the default name follow from which files are fonts.
pub fn load_fonts(files: Vec<(String, Vec<u8>)>) -> (p: AbGlyphFontProvider<ab_glyph::FontArc>)
    ensures
        p.font_map().dom() == registered_names(
            files@.map_values(|f: (String, Vec<u8>)| (f.0@, font_data_parses(f.1@))),
        ),
        p.default_font_name() == first_registered(
            files@.map_values(|f: (String, Vec<u8>)| (f.0@, font_data_parses(f.1@))),
        ),
{
    let ghost all = files@;
    let mut files = files;
    let mut parsed: Vec<(String, Option<ab_glyph::FontArc>)> = Vec::new();
    let mut i: usize = 0;
    assert(all.len() == files.len());
    while files.len() > 0
        invariant
            all.len() <= usize::MAX,
            i + files@.len() == all.len(),
            files@ == all.subrange(i as int, all.len() as int),
            parsed@.len() == i,
            forall|k: int|
                0 <= k < i ==> #[trigger] parsed@[k].0@ == all[k].0@ && (parsed@[k].1 is Some
                    <==> font_data_parses(all[k].1@)),
        decreases files@.len(),
    {
        let (name, bytes) = files.remove(0);
        proof {
            assert(all[i as int] == (name, bytes));
        }
        let font = parse_font(bytes);
        parsed.push((name, font));
        i = i + 1;
        proof {
            assert(files@ =~= all.subrange(i as int, all.len() as int));
        }
    }
    proof {
        lemma_loaded_names(parsed@);
        assert(parsed_flags(parsed@) =~= all.map_values(
            |f: (String, Vec<u8>)| (f.0@, font_data_parses(f.1@)),
        ));
    }
    AbGlyphFontProvider::from_parsed(parsed)
}

/// After loading, the default font, when there is one, is registered:
/// asking for it never fails.
pub proof fn default_font_is_registered<H>(files: Seq<(String, Option<H>)>)
    ensures
        loaded_default(files) matches Some(n) ==> loaded_map(files).dom().contains(n),
    decreases files.len(),
{
    if files.len() > 0 {
        default_font_is_registered(files.drop_last());
    }
}

} // verus!
