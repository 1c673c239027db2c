use vstd::prelude::*;
use vstd::string::*;

verus! {

/// `needle` occurs as a contiguous run of characters inside `hay`.
pub open spec fn is_substring(needle: Seq<char>, hay: Seq<char>) -> bool {
    exists|i: int|
        0 <= i <= hay.len() - needle.len() && #[trigger] hay.subrange(i, i + needle.len())
            == needle
}

/// Compares `needle` against the characters of `hay` starting at `at`.
fn match_at(hay: &str, needle: &str, at: usize) -> (r: bool)
    requires
        at + needle@.len() <= hay@.len(),
        hay@.len() <= usize::MAX,
    ensures
        r == (hay@.subrange(at as int, at + needle@.len()) == needle@),
{
    let m = needle.unicode_len();
    let mut j: usize = 0;
    while j < m
        invariant
            m == needle@.len(),
            at + m <= hay@.len(),
            hay@.len() <= usize::MAX,
            0 <= j <= m,
            forall|k: int| 0 <= k < j ==> hay@[at + k] == needle@[k],
        decreases m - j,
    {
        if hay.get_char(at + j) != needle.get_char(j) {
            assert(hay@.subrange(at as int, at + needle@.len())[j as int] == hay@[at + j]);
            return false;
        }
        j = j + 1;
    }
    assert(hay@.subrange(at as int, at + needle@.len()) =~= needle@);
    true
}

/// Whether `needle` occurs anywhere inside `hay`, as `str::contains` reports it.
pub fn str_contains(hay: &str, needle: &str) -> (r: bool)
    ensures
        r == is_substring(needle@, hay@),
{
    let n = hay.unicode_len();
    let m = needle.unicode_len();
    if m == 0 {
        assert(hay@.subrange(0, 0 + needle@.len() as int) =~= needle@);
        return true;
    }
    if m > n {
        return false;
    }
    let mut i: usize = 0;
    while i <= n - m
        invariant
            n == hay@.len(),
            m == needle@.len(),
            1 <= m <= n,
            0 <= i,
            forall|k: int|
                0 <= k < i ==> #[trigger] hay@.subrange(k, k + needle@.len()) != needle@,
        decreases n - i,
    {
        if match_at(hay, needle, i) {
            return true;
        }
        i = i + 1;
    }
    false
}

/// The loose version comparison of the tool records: either string may carry
/// extra metadata around the other, so containment in either direction counts
/// as a match.
pub open spec fn version_match(a: Seq<char>, b: Seq<char>) -> bool {
    is_substring(b, a) || is_substring(a, b)
}

/// Whether `a` contains `b` or `b` contains `a`, the check every component
/// uses to decide that an installed version and a published version agree.
pub fn contains_or_contained(a: &str, b: &str) -> (r: bool)
    ensures
        r == version_match(a@, b@),
{
    str_contains(a, b) || str_contains(b, a)
}

/// The containment check reports a match for `(a, b)` exactly when it
/// reports one for `(b, a)`.
pub proof fn lemma_version_match_symmetric(a: Seq<char>, b: Seq<char>)
    ensures
        version_match(a, b) == version_match(b, a),
{
}

/// The characters `str::trim` removes: the Unicode white-space set.
pub open spec fn is_space_char(c: char) -> bool {
    ||| c == ' '
    ||| c == '\t'
    ||| c == '\n'
    ||| c == '\r'
    ||| c == '\u{b}'
    ||| c == '\u{c}'
    ||| c == '\u{85}'
    ||| c == '\u{a0}'
    ||| c == '\u{1680}'
    ||| ('\u{2000}' as u32 <= c as u32 && c as u32 <= '\u{200a}' as u32)
    ||| c == '\u{2028}'
    ||| c == '\u{2029}'
    ||| c == '\u{202f}'
    ||| c == '\u{205f}'
    ||| c == '\u{3000}'
}

/// Runtime test for `is_space_char`.
pub fn char_is_space(c: char) -> (r: bool)
    ensures
        r == is_space_char(c),
{
    let u = c as u32;
    u == 0x20 || u == 0x9 || u == 0xa || u == 0xd || u == 0xb || u == 0xc || u == 0x85
        || u == 0xa0 || u == 0x1680 || (0x2000 <= u && u <= 0x200a) || u == 0x2028
        || u == 0x2029 || u == 0x202f || u == 0x205f || u == 0x3000
}

/// `s` with its longest prefix of characters satisfying `p` removed.
pub open spec fn trim_start_by(s: Seq<char>, p: spec_fn(char) -> bool) -> Seq<char>
    decreases s.len(),
{
    if s.len() > 0 && p(s[0]) {
        trim_start_by(s.drop_first(), p)
    } else {
        s
    }
}

/// `s` with its longest suffix of characters satisfying `p` removed.
pub open spec fn trim_end_by(s: Seq<char>, p: spec_fn(char) -> bool) -> Seq<char>
    decreases s.len(),
{
    if s.len() > 0 && p(s.last()) {
        trim_end_by(s.drop_last(), p)
    } else {
        s
    }
}

/// If the first `lo` characters of `s` satisfy `p` and the one at `lo` (if
/// any) does not, trimming the start of `s` by `p` drops exactly `lo`
/// characters.
pub proof fn lemma_trim_start_by_skip(s: Seq<char>, p: spec_fn(char) -> bool, lo: int)
    requires
        0 <= lo <= s.len(),
        forall|k: int| 0 <= k < lo ==> p(#[trigger] s[k]),
        lo < s.len() ==> !p(s[lo]),
    ensures
        trim_start_by(s, p) == s.skip(lo),
    decreases lo,
{
    if lo == 0 {
        assert(s.skip(0) =~= s);
    } else {
        assert(p(s[0]));
        assert(s.drop_first() =~= s.skip(1));
        lemma_trim_start_by_skip(s.skip(1), p, lo - 1);
        assert(s.skip(1).skip(lo - 1) =~= s.skip(lo));
    }
}

/// If the characters of `s` from `hi` on satisfy `p` and the one before `hi`
/// (if any) does not, trimming the end of `s` by `p` keeps exactly the first
/// `hi` characters.
pub proof fn lemma_trim_end_by_take(s: Seq<char>, p: spec_fn(char) -> bool, hi: int)
    requires
        0 <= hi <= s.len(),
        forall|k: int| hi <= k < s.len() ==> p(#[trigger] s[k]),
        hi > 0 ==> !p(s[hi - 1]),
    ensures
        trim_end_by(s, p) == s.take(hi),
    decreases s.len(),
{
    if hi == s.len() {
        assert(s.take(hi) =~= s);
    } else {
        assert(p(s.last()));
        lemma_trim_end_by_take(s.drop_last(), p, hi);
        assert(s.drop_last().take(hi) =~= s.take(hi));
    }
}

/// What `str::trim` leaves of `s`.
pub open spec fn trim_spec(s: Seq<char>) -> Seq<char> {
    trim_end_by(trim_start_by(s, |c: char| is_space_char(c)), |c: char| is_space_char(c))
}

/// White-space trimming at both ends, as `str::trim` does it.
pub fn str_trim(s: &str) -> (r: &str)
    ensures
        r@ == trim_spec(s@),
{
    let n = s.unicode_len();
    let mut lo: usize = 0;
    while lo < n && char_is_space(s.get_char(lo))
        invariant
            n == s@.len(),
            0 <= lo <= n,
            forall|k: int| 0 <= k < lo ==> is_space_char(#[trigger] s@[k]),
        decreases n - lo,
    {
        lo = lo + 1;
    }
    proof {
        lemma_trim_start_by_skip(s@, |c: char| is_space_char(c), lo as int);
    }
    let mut hi: usize = n;
    while hi > lo && char_is_space(s.get_char(hi - 1))
        invariant
            n == s@.len(),
            0 <= lo <= hi <= n,
            forall|k: int| hi <= k < n ==> is_space_char(#[trigger] s@[k]),
        decreases hi,
    {
        hi = hi - 1;
    }
    proof {
        let p = |c: char| is_space_char(c);
        let t = s@.skip(lo as int);
        lemma_trim_end_by_take(t, p, hi - lo);
        assert(t.take(hi - lo) =~= s@.subrange(lo as int, hi as int));
    }
    s.substring_char(lo, hi)
}

/// What `str::strip_prefix` returns: the rest of `s` after `p`, when `p`
/// starts `s`.
pub open spec fn strip_prefix_spec(s: Seq<char>, p: Seq<char>) -> Option<Seq<char>> {
    if p.len() <= s.len() && s.take(p.len() as int) == p {
        Some(s.skip(p.len() as int))
    } else {
        None
    }
}

/// Prefix test, as `str::starts_with` reports it.
pub fn str_starts_with(s: &str, p: &str) -> (r: bool)
    ensures
        r == (strip_prefix_spec(s@, p@) is Some),
{
    let n = s.unicode_len();
    let m = p.unicode_len();
    if m > n {
        return false;
    }
    let r = match_at(s, p, 0);
    proof {
        assert(s@.subrange(0, 0 + p@.len() as int) =~= s@.take(p@.len() as int));
    }
    r
}

/// The rest of `s` after the prefix `p`, when `s` starts with it.
pub fn str_strip_prefix<'a>(s: &'a str, p: &str) -> (r: Option<&'a str>)
    ensures
        r.deep_view() == strip_prefix_spec(s@, p@),
{
    let n = s.unicode_len();
    let m = p.unicode_len();
    if m > n {
        return None;
    }
    if match_at(s, p, 0) {
        proof {
            assert(s@.subrange(0, 0 + p@.len() as int) =~= s@.take(p@.len() as int));
        }
        Some(s.substring_char(m, n))
    } else {
        proof {
            assert(s@.subrange(0, 0 + p@.len() as int) =~= s@.take(p@.len() as int));
        }
        None
    }
}

/// The quoting characters stripped from a scraped value: double and single
/// quotes.
pub open spec fn is_quote_char(c: char) -> bool {
    c == '"' || c == '\''
}

/// Runtime test for `is_quote_char`.
pub fn char_is_quote(c: char) -> (r: bool)
    ensures
        r == is_quote_char(c),
{
    c == '"' || c == '\''
}

/// What trimming quote characters from both ends of `s` leaves.
pub open spec fn trim_quotes_spec(s: Seq<char>) -> Seq<char> {
    trim_end_by(trim_start_by(s, |c: char| is_quote_char(c)), |c: char| is_quote_char(c))
}

/// Strips quote characters from both ends of `s`, as
/// `str::trim_matches` does for a quote predicate.
pub fn trim_quotes(s: &str) -> (r: &str)
    ensures
        r@ == trim_quotes_spec(s@),
{
    let n = s.unicode_len();
    let mut lo: usize = 0;
    while lo < n && char_is_quote(s.get_char(lo))
        invariant
            n == s@.len(),
            0 <= lo <= n,
            forall|k: int| 0 <= k < lo ==> is_quote_char(#[trigger] s@[k]),
        decreases n - lo,
    {
        lo = lo + 1;
    }
    proof {
        lemma_trim_start_by_skip(s@, |c: char| is_quote_char(c), lo as int);
    }
    let mut hi: usize = n;
    while hi > lo && char_is_quote(s.get_char(hi - 1))
        invariant
            n == s@.len(),
            0 <= lo <= hi <= n,
            forall|k: int| hi <= k < n ==> is_quote_char(#[trigger] s@[k]),
        decreases hi,
    {
        hi = hi - 1;
    }
    proof {
        let p = |c: char| is_quote_char(c);
        let t = s@.skip(lo as int);
        lemma_trim_end_by_take(t, p, hi - lo);
        assert(t.take(hi - lo) =~= s@.subrange(lo as int, hi as int));
    }
    s.substring_char(lo, hi)
}

/// What `str::trim_start_matches('v')` leaves: `s` without its leading `v`
/// characters.
pub open spec fn trim_leading_v_spec(s: Seq<char>) -> Seq<char> {
    trim_start_by(s, |c: char| c == 'v')
}

/// Strips every leading `v` from `s`.
pub fn trim_leading_v(s: &str) -> (r: &str)
    ensures
        r@ == trim_leading_v_spec(s@),
{
    let n = s.unicode_len();
    let mut lo: usize = 0;
    while lo < n && s.get_char(lo) == 'v'
        invariant
            n == s@.len(),
            0 <= lo <= n,
            forall|k: int| 0 <= k < lo ==> #[trigger] s@[k] == 'v',
        decreases n - lo,
    {
        lo = lo + 1;
    }
    proof {
        lemma_trim_start_by_skip(s@, |c: char| c == 'v', lo as int);
        assert(s@.skip(lo as int) =~= s@.subrange(lo as int, n as int));
    }
    s.substring_char(lo, n)
}

/// A character a bare version number is made of: an ASCII digit or a dot.
pub open spec fn is_version_char(c: char) -> bool {
    ('0' as u32 <= c as u32 && c as u32 <= '9' as u32) || c == '.'
}

/// Whether every character of `s` is a digit or a dot.
pub open spec fn all_version_chars(s: Seq<char>) -> bool {
    forall|k: int| 0 <= k < s.len() ==> is_version_char(#[trigger] s[k])
}

/// Runtime test: every character of `s` is an ASCII digit or a dot.
pub fn str_all_version_chars(s: &str) -> (r: bool)
    ensures
        r == all_version_chars(s@),
{
    let n = s.unicode_len();
    let mut i: usize = 0;
    while i < n
        invariant
            n == s@.len(),
            0 <= i <= n,
            forall|k: int| 0 <= k < i ==> is_version_char(#[trigger] s@[k]),
        decreases n - i,
    {
        let c = s.get_char(i);
        let u = c as u32;
        if !((0x30 <= u && u <= 0x39) || c == '.') {
            return false;
        }
        i = i + 1;
    }
    true
}

/// The ASCII-lowered code of a character: upper-case ASCII letters map to
/// their lower-case code, every other character to its own.
pub open spec fn lower_code(c: char) -> int {
    if 'A' as u32 <= c as u32 && c as u32 <= 'Z' as u32 {
        c as u32 + 32
    } else {
        c as u32 as int
    }
}

/// Character-wise ASCII-case-insensitive equality of two strings.
pub open spec fn eq_ignore_case_spec(a: Seq<char>, b: Seq<char>) -> bool {
    a.len() == b.len() && forall|k: int|
        0 <= k < a.len() ==> lower_code(#[trigger] a[k]) == lower_code(b[k])
}

/// ASCII-case-insensitive comparison, as `str::eq_ignore_ascii_case`
/// reports it.
pub fn str_eq_ignore_ascii_case(a: &str, b: &str) -> (r: bool)
    ensures
        r == eq_ignore_case_spec(a@, b@),
{
    let n = a.unicode_len();
    if b.unicode_len() != n {
        return false;
    }
    let mut i: usize = 0;
    while i < n
        invariant
            n == a@.len(),
            n == b@.len(),
            0 <= i <= n,
            forall|k: int| 0 <= k < i ==> lower_code(#[trigger] a@[k]) == lower_code(b@[k]),
        decreases n - i,
    {
        let ca = a.get_char(i) as u32;
        let cb = b.get_char(i) as u32;
        let la = if 0x41 <= ca && ca <= 0x5a { ca + 32 } else { ca };
        let lb = if 0x41 <= cb && cb <= 0x5a { cb + 32 } else { cb };
        if la != lb {
            return false;
        }
        i = i + 1;
    }
    true
}

/// The index of the first line feed in `s`, or `s.len()` when there is none.
pub open spec fn first_newline(s: Seq<char>) -> nat
    decreases s.len(),
{
    if s.len() == 0 {
        0
    } else if s[0] == '\n' {
        0
    } else {
        1 + first_newline(s.drop_first())
    }
}

/// A terminated line without its optional trailing carriage return.
pub open spec fn chomp_cr(line: Seq<char>) -> Seq<char> {
    if line.len() > 0 && line.last() == '\r' {
        line.drop_last()
    } else {
        line
    }
}

/// The lines of `s`, split as `str::lines` splits them: one entry per line
/// feed, each terminated line keeping its text up to the line feed with a
/// trailing carriage return removed, and a final unterminated line kept
/// as it stands.
pub open spec fn lines_spec(s: Seq<char>) -> Seq<Seq<char>>
    decreases s.len(),
{
    if s.len() == 0 {
        seq![]
    } else {
        let i = first_newline(s);
        if i >= s.len() {
            seq![s]
        } else {
            seq![chomp_cr(s.take(i as int))] + lines_spec(s.skip(i + 1 as int))
        }
    }
}

/// If no line feed stands before `i` and one stands at `i` (unless `i` is
/// the length), the first line feed of `s` is at `i`.
pub proof fn lemma_first_newline_at(s: Seq<char>, i: int)
    requires
        0 <= i <= s.len(),
        forall|k: int| 0 <= k < i ==> #[trigger] s[k] != '\n',
        i < s.len() ==> s[i] == '\n',
    ensures
        first_newline(s) == i,
    decreases i,
{
    if i == 0 {
    } else {
        assert(s[0] != '\n');
        assert(s.drop_first() =~= s.skip(1));
        lemma_first_newline_at(s.skip(1), i - 1);
    }
}

/// The lines of `s`, as `str::lines` yields them.
pub fn split_lines(s: &str) -> (r: Vec<String>)
    ensures
        r.deep_view() == lines_spec(s@),
{
    let n = s.unicode_len();
    let mut out: Vec<String> = Vec::new();
    let mut start: usize = 0;
    let mut i: usize = 0;
    proof {
        assert(out.deep_view() =~= Seq::<Seq<char>>::empty());
        assert(s@.skip(0) =~= s@);
        assert(out.deep_view() + lines_spec(s@.skip(0)) =~= lines_spec(s@));
    }
    while i < n
        invariant
            n == s@.len(),
            0 <= start <= i <= n,
            forall|k: int| start <= k < i ==> #[trigger] s@[k] != '\n',
            lines_spec(s@) == out.deep_view() + lines_spec(s@.skip(start as int)),
        decreases n - i,
    {
        if s.get_char(i) == '\n' {
            let line_end = if i > start && s.get_char(i - 1) == '\r' {
                i - 1
            } else {
                i
            };
            let line = s.substring_char(start, line_end);
            proof {
                let t = s@.skip(start as int);
                lemma_first_newline_at(t, i - start);
                assert(t.take(i - start) =~= s@.subrange(start as int, i as int));
                if i > start && s@[i - 1] == '\r' {
                    assert(chomp_cr(t.take(i - start)) =~= s@.subrange(
                        start as int,
                        i - 1,
                    ));
                } else {
                    assert(chomp_cr(t.take(i - start)) =~= s@.subrange(
                        start as int,
                        i as int,
                    ));
                }
                assert(t.skip(i - start + 1) =~= s@.skip(i + 1));
            }
            let ghost old_out = out.deep_view();
            out.push(String::from_str(line));
            proof {
                assert(out.deep_view() =~= old_out + seq![line@]);
                assert(out.deep_view() + lines_spec(s@.skip(i + 1)) =~= old_out + (seq![
                    line@,
                ] + lines_spec(s@.skip(i + 1))));
            }
            start = i + 1;
        }
        i = i + 1;
    }
    if start < n {
        let line = s.substring_char(start, n);
        proof {
            let t = s@.skip(start as int);
            lemma_first_newline_at(t, n - start);
            assert(t =~= s@.subrange(start as int, n as int));
        }
        let ghost old_out = out.deep_view();
        out.push(String::from_str(line));
        proof {
            assert(out.deep_view() =~= old_out + seq![line@]);
            assert(lines_spec(s@.skip(start as int)) == seq![s@.skip(start as int)]);
            assert(old_out + seq![line@] =~= lines_spec(s@));
        }
    } else {
        proof {
            assert(lines_spec(s@.skip(start as int)) =~= Seq::<Seq<char>>::empty());
            assert(out.deep_view() + lines_spec(s@.skip(start as int)) =~= out.deep_view());
        }
    }
    out
}

/// The ASCII-lowered character: an upper-case ASCII letter becomes its
/// lower-case counterpart, every other character stays itself.
pub open spec fn lower_char_spec(c: char) -> char {
    if 'A' as u32 <= c as u32 && c as u32 <= 'Z' as u32 {
        ((c as u32 + 32) as u32) as char
    } else {
        c
    }
}

/// The character-wise ASCII lower-casing of `s`.
pub open spec fn lowercase_spec(s: Seq<char>) -> Seq<char> {
    Seq::new(s.len(), |i: int| lower_char_spec(s[i]))
}

/// Runtime ASCII lower-casing of one character.
pub fn char_to_ascii_lower(c: char) -> (r: char)
    ensures
        r == lower_char_spec(c),
{
    let u = c as u32;
    if 0x41 <= u && u <= 0x5a {
        ((u as u8) + 32) as char
    } else {
        c
    }
}

/// Relies on `String::push` of std: appends exactly one character at the end.
#[verifier::external_body]
pub fn string_push(s: &mut String, c: char)
    ensures
        final(s)@ == old(s)@.push(c),
{
    s.push(c);
}

/// The ASCII lower-casing of a whole string, as
/// `str::to_ascii_lowercase` computes it.
pub fn ascii_lowercase(s: &str) -> (r: String)
    ensures
        r@ == lowercase_spec(s@),
{
    let n = s.unicode_len();
    let mut out = String::new();
    let mut i: usize = 0;
    while i < n
        invariant
            n == s@.len(),
            0 <= i <= n,
            out@ == lowercase_spec(s@).take(i as int),
        decreases n - i,
    {
        let c = char_to_ascii_lower(s.get_char(i));
        string_push(&mut out, c);
        proof {
            assert(lowercase_spec(s@).take(i + 1) =~= lowercase_spec(s@).take(i as int).push(
                lower_char_spec(s@[i as int]),
            ));
        }
        i = i + 1;
    }
    proof {
        assert(lowercase_spec(s@).take(n as int) =~= lowercase_spec(s@));
    }
    out
}

/// Character-wise string equality.
pub fn str_eq(a: &str, b: &str) -> (r: bool)
    ensures
        r == (a@ == b@),
{
    let n = a.unicode_len();
    if b.unicode_len() != n {
        return false;
    }
    let r = match_at(a, b, 0);
    proof {
        assert(a@.subrange(0, 0 + b@.len() as int) =~= a@);
    }
    r
}

/// Lexicographic order on character sequences by code point, the order
/// `str::cmp` sorts by.
pub open spec fn lex_le(a: Seq<char>, b: Seq<char>) -> bool
    decreases a.len(),
{
    if a.len() == 0 {
        true
    } else if b.len() == 0 {
        false
    } else if (a[0] as u32) < (b[0] as u32) {
        true
    } else if (b[0] as u32) < (a[0] as u32) {
        false
    } else {
        lex_le(a.drop_first(), b.drop_first())
    }
}

/// The lexicographic order is total: two sequences compare in one
/// direction or the other.
pub proof fn lemma_lex_le_total(a: Seq<char>, b: Seq<char>)
    ensures
        lex_le(a, b) || lex_le(b, a),
    decreases a.len(),
{
    if a.len() == 0 || b.len() == 0 {
    } else if (a[0] as u32) < (b[0] as u32) || (b[0] as u32) < (a[0] as u32) {
    } else {
        lemma_lex_le_total(a.drop_first(), b.drop_first());
    }
}

/// The lexicographic order is transitive.
pub proof fn lemma_lex_le_trans(a: Seq<char>, b: Seq<char>, c: Seq<char>)
    requires
        lex_le(a, b),
        lex_le(b, c),
    ensures
        lex_le(a, c),
    decreases a.len(),
{
    if a.len() == 0 {
    } else {
        assert(b.len() > 0);
        assert(c.len() > 0);
        let a0 = a[0] as u32;
        let b0 = b[0] as u32;
        let c0 = c[0] as u32;
        if a0 < c0 {
        } else {
            assert(a0 == b0 && b0 == c0);
            lemma_lex_le_trans(a.drop_first(), b.drop_first(), c.drop_first());
        }
    }
}

/// Lexicographic comparison of two strings by code point.
pub fn str_le(a: &str, b: &str) -> (r: bool)
    ensures
        r == lex_le(a@, b@),
{
    let n = a.unicode_len();
    let m = b.unicode_len();
    let mut i: usize = 0;
    proof {
        assert(a@.skip(0) =~= a@);
        assert(b@.skip(0) =~= b@);
    }
    while i < n && i < m
        invariant
            n == a@.len(),
            m == b@.len(),
            0 <= i <= n,
            0 <= i <= m,
            lex_le(a@, b@) == lex_le(a@.skip(i as int), b@.skip(i as int)),
        decreases n - i,
    {
        let ca = a.get_char(i) as u32;
        let cb = b.get_char(i) as u32;
        proof {
            assert(a@.skip(i as int)[0] == a@[i as int]);
            assert(b@.skip(i as int)[0] == b@[i as int]);
            assert(a@.skip(i as int).drop_first() =~= a@.skip(i + 1));
            assert(b@.skip(i as int).drop_first() =~= b@.skip(i + 1));
        }
        if ca < cb {
            return true;
        }
        if cb < ca {
            return false;
        }
        i = i + 1;
    }
    proof {
        if i == n {
            assert(a@.skip(n as int) =~= Seq::<char>::empty());
        } else {
            assert(b@.skip(m as int) =~= Seq::<char>::empty());
            assert(a@.skip(i as int).len() > 0);
        }
    }
    i == n
}

} // verus!
