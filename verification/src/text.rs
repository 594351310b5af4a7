//! Character-level vocabulary shared by the parsers: substring search,
//! prefixes and suffixes, splitting on a separator, trimming, replacing and
//! decimal conversion, each stated over `Seq<char>` and implemented over
//! `Vec<char>`.
use vstd::prelude::*;

verus! {

// ---------------------------------------------------------------------------
// Spec vocabulary
// ---------------------------------------------------------------------------

/// `p` is a prefix of `s`.
pub open spec fn is_prefix(p: Seq<char>, s: Seq<char>) -> bool {
    p.len() <= s.len() && s.subrange(0, p.len() as int) == p
}

/// `p` is a suffix of `s`.
pub open spec fn is_suffix(p: Seq<char>, s: Seq<char>) -> bool {
    p.len() <= s.len() && s.subrange(s.len() - p.len(), s.len() as int) == p
}

/// `p` occurs in `s` starting at position `i`.
pub open spec fn occurs_at(s: Seq<char>, p: Seq<char>, i: int) -> bool {
    0 <= i && i + p.len() <= s.len() && s.subrange(i, i + p.len()) == p
}

/// `p` occurs somewhere in `s` (the empty pattern occurs everywhere).
pub open spec fn has_sub(s: Seq<char>, p: Seq<char>) -> bool {
    exists|i: int| #[trigger] occurs_at(s, p, i)
}

/// The part of `s` before the first `c`, or all of `s` when `c` does not occur.
pub open spec fn before_first(s: Seq<char>, c: char) -> Seq<char> {
    match s.index_of_first(c) {
        Some(i) => s.subrange(0, i),
        None => s,
    }
}

/// The part of `s` after the last `c`, or all of `s` when `c` does not occur.
pub open spec fn after_last(s: Seq<char>, c: char) -> Seq<char> {
    match s.index_of_last(c) {
        Some(i) => s.subrange(i + 1, s.len() as int),
        None => s,
    }
}

/// Splits `s` around the first `c`.
pub open spec fn split_once(s: Seq<char>, c: char) -> Option<(Seq<char>, Seq<char>)> {
    match s.index_of_first(c) {
        Some(i) => Some((s.subrange(0, i), s.subrange(i + 1, s.len() as int))),
        None => None,
    }
}

/// Splits `s` around the last `c`.
pub open spec fn rsplit_once(s: Seq<char>, c: char) -> Option<(Seq<char>, Seq<char>)> {
    match s.index_of_last(c) {
        Some(i) => Some((s.subrange(0, i), s.subrange(i + 1, s.len() as int))),
        None => None,
    }
}

/// Unicode `White_Space`, the property that `char::is_whitespace` tests.
pub open spec fn is_ws(c: char) -> bool {
    ||| ('\u{9}' <= c && c <= '\u{d}')
    ||| c == ' '
    ||| c == '\u{85}'
    ||| c == '\u{a0}'
    ||| c == '\u{1680}'
    ||| ('\u{2000}' <= c && c <= '\u{200a}')
    ||| c == '\u{2028}'
    ||| c == '\u{2029}'
    ||| c == '\u{202f}'
    ||| c == '\u{205f}'
    ||| c == '\u{3000}'
}

/// ASCII punctuation, as `char::is_ascii_punctuation` tests it.
pub open spec fn is_ascii_punct(c: char) -> bool {
    ||| ('!' <= c && c <= '/')
    ||| (':' <= c && c <= '@')
    ||| ('[' <= c && c <= '`')
    ||| ('{' <= c && c <= '~')
}

/// ASCII decimal digit.
pub open spec fn is_digit(c: char) -> bool {
    '0' <= c && c <= '9'
}

/// The classes of characters that the parsers strip from the ends of text.
pub enum CharClass {
    /// Unicode white space.
    Whitespace,
    /// ASCII punctuation or Unicode white space.
    PunctOrWhitespace,
    /// ASCII digits, `p` and `_`: the tail of a resolution marker.
    DigitPUnderscore,
    /// One given character.
    Only(char),
    /// The quoting around a scraped URL: `"`, `'`, `\` or a space.
    QuoteOrSpace,
    /// The separators of a timestamp: `-`, `T`, a space or `:`.
    DateSeparator,
}

/// Membership in a character class.
pub open spec fn in_class(class: CharClass, c: char) -> bool {
    match class {
        CharClass::Whitespace => is_ws(c),
        CharClass::PunctOrWhitespace => is_ascii_punct(c) || is_ws(c),
        CharClass::DigitPUnderscore => is_digit(c) || c == 'p' || c == '_',
        CharClass::Only(x) => c == x,
        CharClass::QuoteOrSpace => c == '"' || c == '\'' || c == '\\' || c == ' ',
        CharClass::DateSeparator => c == '-' || c == 'T' || c == ' ' || c == ':',
    }
}

/// `s` without its leading characters of `class`.
pub open spec fn trim_start(s: Seq<char>, class: CharClass) -> Seq<char>
    decreases s.len(),
{
    if s.len() > 0 && in_class(class, s[0]) {
        trim_start(s.drop_first(), class)
    } else {
        s
    }
}

/// `s` without its trailing characters of `class`.
pub open spec fn trim_end(s: Seq<char>, class: CharClass) -> Seq<char>
    decreases s.len(),
{
    if s.len() > 0 && in_class(class, s.last()) {
        trim_end(s.drop_last(), class)
    } else {
        s
    }
}

/// `s` without the characters of `class` at either end.
pub open spec fn trim(s: Seq<char>, class: CharClass) -> Seq<char> {
    trim_end(trim_start(s, class), class)
}

/// `s` with every non-overlapping occurrence of `from`, scanned left to
/// right, replaced by `to` (as `str::replace` does for a non-empty pattern).
pub open spec fn replace_all(s: Seq<char>, from: Seq<char>, to: Seq<char>) -> Seq<char>
    decreases s.len(),
{
    if from.len() == 0 || s.len() < from.len() {
        s
    } else if s.subrange(0, from.len() as int) == from {
        to + replace_all(s.subrange(from.len() as int, s.len() as int), from, to)
    } else {
        seq![s[0]] + replace_all(s.drop_first(), from, to)
    }
}

/// The pieces of `s` between occurrences of `c` (as `str::split` gives
/// them): always at least one piece, empty pieces included.
pub open spec fn split_on(s: Seq<char>, c: char) -> Seq<Seq<char>>
    decreases s.len(),
{
    if s.len() == 0 {
        seq![seq![]]
    } else {
        let r = split_on(s.drop_last(), c);
        if s.last() == c {
            r.push(seq![])
        } else {
            r.update(r.len() - 1, r.last().push(s.last()))
        }
    }
}

/// The pieces of `s` between characters of `class` (as `str::split` with a
/// character predicate gives them).
pub open spec fn split_where(s: Seq<char>, class: CharClass) -> Seq<Seq<char>>
    decreases s.len(),
{
    if s.len() == 0 {
        seq![seq![]]
    } else {
        let r = split_where(s.drop_last(), class);
        if in_class(class, s.last()) {
            r.push(seq![])
        } else {
            r.update(r.len() - 1, r.last().push(s.last()))
        }
    }
}

/// The pieces joined with `sep` between them (as `slice::join` does).
pub open spec fn join_with(parts: Seq<Seq<char>>, sep: Seq<char>) -> Seq<char>
    decreases parts.len(),
{
    if parts.len() == 0 {
        seq![]
    } else if parts.len() == 1 {
        parts[0]
    } else {
        join_with(parts.drop_last(), sep) + sep + parts.last()
    }
}

/// The lowercase form of a string, as `str::to_lowercase` computes it.
pub uninterp spec fn lowercase(s: Seq<char>) -> Seq<char>;

/// The digit character for `d < 10`.
pub open spec fn digit_char(d: nat) -> char {
    if d == 0 { '0' }
    else if d == 1 { '1' }
    else if d == 2 { '2' }
    else if d == 3 { '3' }
    else if d == 4 { '4' }
    else if d == 5 { '5' }
    else if d == 6 { '6' }
    else if d == 7 { '7' }
    else if d == 8 { '8' }
    else { '9' }
}

/// The decimal representation of `n`, without sign or leading zeros.
pub open spec fn decimal(n: nat) -> Seq<char>
    decreases n,
{
    if n < 10 {
        seq![digit_char(n)]
    } else {
        decimal(n / 10).push(digit_char(n % 10))
    }
}

/// The value of a string of decimal digits.
pub open spec fn digits_value(s: Seq<char>) -> nat
    decreases s.len(),
{
    if s.len() == 0 {
        0
    } else {
        digits_value(s.drop_last()) * 10 + ((s.last() as nat) - ('0' as nat)) as nat
    }
}

/// Every character of `s` is a decimal digit and there is at least one.
pub open spec fn all_digits(s: Seq<char>) -> bool {
    s.len() > 0 && forall|i: int| 0 <= i < s.len() ==> is_digit(#[trigger] s[i])
}

/// What `str::parse` gives for an unsigned integer type whose largest value
/// is `max`: an optional `+`, then one or more decimal digits, in range.
pub open spec fn parse_unsigned(s: Seq<char>, max: nat) -> Option<nat> {
    let body = if s.len() > 0 && s[0] == '+' { s.drop_first() } else { s };
    if all_digits(body) && digits_value(body) <= max {
        Some(digits_value(body))
    } else {
        None
    }
}

/// What `str::parse` gives for a signed integer type of range `[min, max]`:
/// an optional `+` or `-`, then one or more decimal digits, in range.
pub open spec fn parse_signed(s: Seq<char>, min: int, max: int) -> Option<int> {
    if s.len() > 0 && s[0] == '-' {
        let body = s.drop_first();
        if all_digits(body) && -(digits_value(body) as int) >= min {
            Some(-(digits_value(body) as int))
        } else {
            None
        }
    } else {
        let body = if s.len() > 0 && s[0] == '+' { s.drop_first() } else { s };
        if all_digits(body) && digits_value(body) <= max {
            Some(digits_value(body) as int)
        } else {
            None
        }
    }
}

// ---------------------------------------------------------------------------
// Trusted std operations
// ---------------------------------------------------------------------------

/// `String::push`: appends one character.
#[verifier::external_body]
fn string_push(s: &mut String, c: char)
    ensures
        final(s)@ == old(s)@.push(c),
{
    s.push(c);
}

/// `str::to_lowercase`: the result is the string's lowercase form, which
/// depends on the string alone; Unicode case mapping is left unstated.
#[verifier::external_body]
pub(crate) fn to_lower(s: &str) -> (r: String)
    ensures
        r@ == lowercase(s@),
{
    s.to_lowercase()
}

// ---------------------------------------------------------------------------
// Conversions
// ---------------------------------------------------------------------------

/// The characters of `s`.
pub fn char_vec(s: &str) -> (v: Vec<char>)
    ensures
        v@ == s@,
{
    let mut v: Vec<char> = Vec::new();
    for c in it: s.chars()
        invariant
            v@ == it.seq().take(it.index() as int),
            it.seq() == s@,
    {
        v.push(c);
    }
    v
}

/// A string holding the characters of `v`.
pub fn string_of(v: &Vec<char>) -> (s: String)
    ensures
        s@ == v@,
{
    let mut s = String::new();
    let mut i: usize = 0;
    while i < v.len()
        invariant
            i <= v.len(),
            s@ == v@.take(i as int),
        decreases v.len() - i,
    {
        string_push(&mut s, v[i]);
        i += 1;
        assert(s@ =~= v@.take(i as int));
    }
    assert(v@.take(v.len() as int) =~= v@);
    s
}

/// A copy of a string, equal in view.
pub fn copy_string(s: &String) -> (r: String)
    ensures
        r@ == s@,
{
    s.clone()
}

/// A copy of an optional string, equal in view.
pub fn copy_opt(s: &Option<String>) -> (r: Option<String>)
    ensures
        r.deep_view() == s.deep_view(),
{
    match s {
        Some(x) => Some(x.clone()),
        None => None,
    }
}

/// Concatenation of two strings.
pub fn concat(a: &str, b: &str) -> (r: String)
    ensures
        r@ == a@ + b@,
{
    let mut va = char_vec(a);
    let vb = char_vec(b);
    let mut i: usize = 0;
    let ghost a0 = va@;
    while i < vb.len()
        invariant
            i <= vb.len(),
            va@ == a0 + vb@.take(i as int),
        decreases vb.len() - i,
    {
        va.push(vb[i]);
        i += 1;
        assert(va@ =~= a0 + vb@.take(i as int));
    }
    assert(vb@.take(vb.len() as int) =~= vb@);
    string_of(&va)
}

/// Concatenation of three strings.
pub fn concat3(a: &str, b: &str, c: &str) -> (r: String)
    ensures
        r@ == a@ + b@ + c@,
{
    let ab = concat(a, b);
    concat(ab.as_str(), c)
}

/// A vector's subrange as a new string.
pub fn slice_string(v: &Vec<char>, from: usize, to: usize) -> (s: String)
    requires
        from <= to <= v@.len(),
    ensures
        s@ == v@.subrange(from as int, to as int),
{
    let mut out: Vec<char> = Vec::new();
    let mut i = from;
    while i < to
        invariant
            from <= i <= to,
            to <= v@.len(),
            out@ == v@.subrange(from as int, i as int),
        decreases to - i,
    {
        out.push(v[i]);
        i += 1;
        assert(out@ =~= v@.subrange(from as int, i as int));
    }
    string_of(&out)
}

/// A vector's subrange as a new vector.
pub fn slice_vec(v: &Vec<char>, from: usize, to: usize) -> (out: Vec<char>)
    requires
        from <= to <= v@.len(),
    ensures
        out@ == v@.subrange(from as int, to as int),
{
    let mut out: Vec<char> = Vec::new();
    let mut i = from;
    while i < to
        invariant
            from <= i <= to,
            to <= v@.len(),
            out@ == v@.subrange(from as int, i as int),
        decreases to - i,
    {
        out.push(v[i]);
        i += 1;
        assert(out@ =~= v@.subrange(from as int, i as int));
    }
    out
}

// ---------------------------------------------------------------------------
// Searching
// ---------------------------------------------------------------------------

/// Whether `p` occurs in `s` at position `i`.
pub fn matches_at(s: &Vec<char>, p: &Vec<char>, i: usize) -> (r: bool)
    ensures
        r == occurs_at(s@, p@, i as int),
{
    if i > s.len() || p.len() > s.len() - i {
        return false;
    }
    let mut j: usize = 0;
    while j < p.len()
        invariant
            j <= p@.len(),
            i + p.len() <= s.len(),
            forall|k: int| 0 <= k < j ==> s@[i + k] == p@[k],
        decreases p.len() - j,
    {
        if s[i + j] != p[j] {
            assert(s@.subrange(i as int, i + p@.len())[j as int] != p@[j as int]);
            return false;
        }
        j += 1;
    }
    assert(s@.subrange(i as int, i + p@.len()) =~= p@);
    true
}

/// Whether `p` occurs anywhere in `s`.
pub fn contains_seq(s: &Vec<char>, p: &Vec<char>) -> (r: bool)
    ensures
        r == has_sub(s@, p@),
{
    if p.len() > s.len() {
        return false;
    }
    let last = s.len() - p.len();
    let mut i: usize = 0;
    while i < last
        invariant
            p@.len() <= s@.len(),
            last == s@.len() - p@.len(),
            i <= last,
            forall|k: int| 0 <= k < i ==> !occurs_at(s@, p@, k),
        decreases last - i,
    {
        if matches_at(s, p, i) {
            return true;
        }
        i += 1;
    }
    if matches_at(s, p, last) {
        return true;
    }
    assert forall|k: int| !occurs_at(s@, p@, k) by {
        if 0 <= k && k + p@.len() <= s@.len() {
            assert(k <= last);
        }
    }
    false
}

/// Whether the literal `lit` occurs in `s`.
pub fn contains_lit(s: &Vec<char>, lit: &str) -> (r: bool)
    ensures
        r == has_sub(s@, lit@),
{
    let p = char_vec(lit);
    contains_seq(s, &p)
}

/// Whether `s` begins with the literal `lit`.
pub fn begins(s: &Vec<char>, lit: &str) -> (r: bool)
    ensures
        r == is_prefix(lit@, s@),
{
    let p = char_vec(lit);
    let r = matches_at(s, &p, 0);
    r
}

/// Whether `s` ends with the literal `lit`.
pub fn finishes(s: &Vec<char>, lit: &str) -> (r: bool)
    ensures
        r == is_suffix(lit@, s@),
{
    let p = char_vec(lit);
    if p.len() > s.len() {
        return false;
    }
    let r = matches_at(s, &p, s.len() - p.len());
    r
}

/// Whether `s` equals the literal `lit`.
pub fn equals_lit(s: &Vec<char>, lit: &str) -> (r: bool)
    ensures
        r == (s@ == lit@),
{
    let p = char_vec(lit);
    if p.len() != s.len() {
        return false;
    }
    let r = matches_at(s, &p, 0);
    proof {
        if r {
            assert(s@.subrange(0, p@.len() as int) =~= s@);
        } else {
            if s@ == p@ {
                assert(s@.subrange(0, p@.len() as int) =~= p@);
            }
        }
    }
    r
}

/// Whether two strings are equal.
pub fn same_string(a: &String, b: &String) -> (r: bool)
    ensures
        r == (a@ == b@),
{
    *a == *b
}

/// Whether `v` holds a string equal to `s`.
pub fn holds_string(v: &Vec<String>, s: &String) -> (r: bool)
    ensures
        r == v.deep_view().contains(s@),
{
    let mut i: usize = 0;
    while i < v.len()
        invariant
            i <= v.len(),
            forall|k: int| 0 <= k < i ==> v.deep_view()[k] != s@,
        decreases v.len() - i,
    {
        if same_string(&v[i], s) {
            assert(v.deep_view()[i as int] == s@);
            return true;
        }
        i += 1;
    }
    false
}

/// The position of the first `c` in `s`.
pub fn find_first(s: &Vec<char>, c: char) -> (r: Option<usize>)
    ensures
        r matches Some(i) ==> s@.index_of_first(c) == Some(i as int) && i < s.len() && s@[i as int]
            == c,
        r is None ==> s@.index_of_first(c) is None,
{
    proof {
        s@.index_of_first_ensures(c);
    }
    let mut i: usize = 0;
    while i < s.len()
        invariant
            i <= s@.len(),
            forall|k: int| 0 <= k < i ==> s@[k] != c,
        decreases s.len() - i,
    {
        if s[i] == c {
            proof {
                s@.index_of_first_ensures(c);
                assert(s@[i as int] == c);
                match s@.index_of_first(c) {
                    Some(j) => {
                        if j < i {
                            assert(s@[j] == c);
                        } else if j > i {
                            assert(s@[i as int] == c);
                        }
                    },
                    None => {
                        assert(s@.contains(c));
                    },
                }
            }
            return Some(i);
        }
        i += 1;
    }
    proof {
        match s@.index_of_first(c) {
            Some(j) => {
                assert(s@[j] == c);
            },
            None => {},
        }
    }
    None
}

/// The position of the last `c` in `s`.
pub fn find_last(s: &Vec<char>, c: char) -> (r: Option<usize>)
    ensures
        r matches Some(i) ==> s@.index_of_last(c) == Some(i as int) && i < s.len() && s@[i as int]
            == c,
        r is None ==> s@.index_of_last(c) is None,
{
    proof {
        s@.index_of_last_ensures(c);
    }
    let mut i: usize = s.len();
    while i > 0
        invariant
            i <= s@.len(),
            forall|k: int| i <= k < s@.len() ==> s@[k] != c,
        decreases i,
    {
        if s[i - 1] == c {
            proof {
                s@.index_of_last_ensures(c);
                assert(s@[i - 1] == c);
                match s@.index_of_last(c) {
                    Some(j) => {
                        if j < i - 1 {
                            assert(s@[i - 1] == c);
                        } else if j > i - 1 {
                            assert(s@[j] == c);
                        }
                    },
                    None => {
                        assert(s@.contains(c));
                    },
                }
            }
            return Some(i - 1);
        }
        i -= 1;
    }
    proof {
        match s@.index_of_last(c) {
            Some(j) => {
                assert(s@[j] == c);
            },
            None => {},
        }
    }
    None
}

/// The part of `s` before the first `c` (all of `s` if there is none).
pub fn prefix_before(s: &Vec<char>, c: char) -> (r: Vec<char>)
    ensures
        r@ == before_first(s@, c),
{
    match find_first(s, c) {
        Some(i) => slice_vec(s, 0, i),
        None => slice_vec(s, 0, s.len()),
    }
}

/// The part of `s` after the last `c` (all of `s` if there is none).
pub fn suffix_after(s: &Vec<char>, c: char) -> (r: Vec<char>)
    ensures
        r@ == after_last(s@, c),
{
    proof {
        s@.index_of_last_ensures(c);
    }
    match find_last(s, c) {
        Some(i) => slice_vec(s, i + 1, s.len()),
        None => {
            let r = slice_vec(s, 0, s.len());
            assert(r@ =~= s@);
            r
        },
    }
}

/// Splits `s` around its first `c`.
pub fn split_first(s: &Vec<char>, c: char) -> (r: Option<(Vec<char>, Vec<char>)>)
    ensures
        r matches Some(p) ==> split_once(s@, c) == Some((p.0@, p.1@)),
        r is None ==> split_once(s@, c) is None,
{
    proof {
        s@.index_of_first_ensures(c);
    }
    match find_first(s, c) {
        Some(i) => Some((slice_vec(s, 0, i), slice_vec(s, i + 1, s.len()))),
        None => None,
    }
}

/// Splits `s` around its last `c`.
pub fn split_last(s: &Vec<char>, c: char) -> (r: Option<(Vec<char>, Vec<char>)>)
    ensures
        r matches Some(p) ==> rsplit_once(s@, c) == Some((p.0@, p.1@)),
        r is None ==> rsplit_once(s@, c) is None,
{
    proof {
        s@.index_of_last_ensures(c);
    }
    match find_last(s, c) {
        Some(i) => Some((slice_vec(s, 0, i), slice_vec(s, i + 1, s.len()))),
        None => None,
    }
}

// ---------------------------------------------------------------------------
// Trimming and replacing
// ---------------------------------------------------------------------------

/// Whether `c` belongs to `class`.
pub fn class_has(class: &CharClass, c: char) -> (r: bool)
    ensures
        r == in_class(*class, c),
{
    let ws = ('\u{9}' <= c && c <= '\u{d}') || c == ' ' || c == '\u{85}' || c == '\u{a0}'
        || c == '\u{1680}' || ('\u{2000}' <= c && c <= '\u{200a}') || c == '\u{2028}'
        || c == '\u{2029}' || c == '\u{202f}' || c == '\u{205f}' || c == '\u{3000}';
    match class {
        CharClass::Whitespace => ws,
        CharClass::PunctOrWhitespace => {
            let punct = ('!' <= c && c <= '/') || (':' <= c && c <= '@') || ('[' <= c && c <= '`')
                || ('{' <= c && c <= '~');
            punct || ws
        },
        CharClass::DigitPUnderscore => ('0' <= c && c <= '9') || c == 'p' || c == '_',
        CharClass::Only(x) => c == *x,
        CharClass::QuoteOrSpace => c == '"' || c == '\'' || c == '\\' || c == ' ',
        CharClass::DateSeparator => c == '-' || c == 'T' || c == ' ' || c == ':',
    }
}

proof fn lemma_trim_start_step(s: Seq<char>, i: int, class: CharClass)
    requires
        0 <= i < s.len(),
        in_class(class, s[i]),
    ensures
        trim_start(s.subrange(i, s.len() as int), class) == trim_start(
            s.subrange(i + 1, s.len() as int),
            class,
        ),
{
    assert(s.subrange(i, s.len() as int).drop_first() =~= s.subrange(i + 1, s.len() as int));
}

proof fn lemma_trim_end_step(s: Seq<char>, k: int, class: CharClass)
    requires
        0 < k <= s.len(),
        in_class(class, s[k - 1]),
    ensures
        trim_end(s.subrange(0, k), class) == trim_end(s.subrange(0, k - 1), class),
{
    assert(s.subrange(0, k).drop_last() =~= s.subrange(0, k - 1));
}

/// `s` without the characters of `class` at either end.
pub fn trim_class(s: &Vec<char>, class: &CharClass) -> (r: Vec<char>)
    ensures
        r@ == trim(s@, *class),
{
    let mut i: usize = 0;
    assert(s@.subrange(0, s@.len() as int) =~= s@);
    while i < s.len() && class_has(class, s[i])
        invariant
            i <= s@.len(),
            trim_start(s@.subrange(i as int, s@.len() as int), *class) == trim_start(s@, *class),
        decreases s.len() - i,
    {
        proof {
            lemma_trim_start_step(s@, i as int, *class);
        }
        i += 1;
    }
    let ghost mid = s@.subrange(i as int, s@.len() as int);
    assert(trim_start(mid, *class) == mid);
    let mut k: usize = s.len();
    assert(mid.subrange(0, mid.len() as int) =~= mid);
    while k > i && class_has(class, s[k - 1])
        invariant
            i <= k <= s@.len(),
            mid == s@.subrange(i as int, s@.len() as int),
            trim_end(mid.subrange(0, k - i), *class) == trim_end(mid, *class),
        decreases k,
    {
        proof {
            lemma_trim_end_step(mid, k - i, *class);
            assert(mid.subrange(0, k - i - 1) =~= mid.subrange(0, (k - 1) - i));
        }
        k -= 1;
    }
    let r = slice_vec(s, i, k);
    assert(r@ =~= mid.subrange(0, k - i));
    r
}

/// `s` without the characters of `class` at its end.
pub fn trim_end_class(s: &Vec<char>, class: &CharClass) -> (r: Vec<char>)
    ensures
        r@ == trim_end(s@, *class),
{
    let mut k: usize = s.len();
    assert(s@.subrange(0, s@.len() as int) =~= s@);
    while k > 0 && class_has(class, s[k - 1])
        invariant
            k <= s@.len(),
            trim_end(s@.subrange(0, k as int), *class) == trim_end(s@, *class),
        decreases k,
    {
        proof {
            lemma_trim_end_step(s@, k as int, *class);
        }
        k -= 1;
    }
    slice_vec(s, 0, k)
}

/// `s` without white space at either end, as `str::trim` gives it.
pub fn trim_ws(s: &Vec<char>) -> (r: Vec<char>)
    ensures
        r@ == trim(s@, CharClass::Whitespace),
{
    trim_class(s, &CharClass::Whitespace)
}

proof fn lemma_replace_step_match(s: Seq<char>, i: int, from: Seq<char>, to: Seq<char>)
    requires
        0 <= i,
        from.len() > 0,
        i + from.len() <= s.len(),
        s.subrange(i, i + from.len()) == from,
    ensures
        replace_all(s.subrange(i, s.len() as int), from, to) == to + replace_all(
            s.subrange(i + from.len(), s.len() as int),
            from,
            to,
        ),
{
    let t = s.subrange(i, s.len() as int);
    assert(t.subrange(0, from.len() as int) =~= from);
    assert(t.subrange(from.len() as int, t.len() as int) =~= s.subrange(
        i + from.len(),
        s.len() as int,
    ));
}

proof fn lemma_replace_step_skip(s: Seq<char>, i: int, from: Seq<char>, to: Seq<char>)
    requires
        0 <= i,
        from.len() > 0,
        i + from.len() <= s.len(),
        s.subrange(i, i + from.len()) != from,
    ensures
        replace_all(s.subrange(i, s.len() as int), from, to) == seq![s[i]] + replace_all(
            s.subrange(i + 1, s.len() as int),
            from,
            to,
        ),
{
    let t = s.subrange(i, s.len() as int);
    assert(t.subrange(0, from.len() as int) =~= s.subrange(i, i + from.len()));
    assert(t.drop_first() =~= s.subrange(i + 1, s.len() as int));
}

/// `s` with every occurrence of `from` replaced by `to`, scanning left to
/// right, as `str::replace` does.
pub fn replace_lit(s: &Vec<char>, from: &str, to: &str) -> (r: Vec<char>)
    requires
        from@.len() > 0,
    ensures
        r@ == replace_all(s@, from@, to@),
{
    let f = char_vec(from);
    let t = char_vec(to);
    let mut out: Vec<char> = Vec::new();
    let mut i: usize = 0;
    assert(s@.subrange(0, s@.len() as int) =~= s@);
    while i < s.len()
        invariant
            i <= s@.len(),
            f@ == from@,
            t@ == to@,
            f@.len() > 0,
            out@ + replace_all(s@.subrange(i as int, s@.len() as int), f@, t@) == replace_all(
                s@,
                f@,
                t@,
            ),
        decreases s.len() - i,
    {
        if f.len() <= s.len() - i && matches_at(s, &f, i) {
            proof {
                lemma_replace_step_match(s@, i as int, f@, t@);
            }
            let ghost before = out@;
            let mut j: usize = 0;
            while j < t.len()
                invariant
                    j <= t@.len(),
                    out@ == before + t@.take(j as int),
                decreases t.len() - j,
            {
                out.push(t[j]);
                j += 1;
                assert(out@ =~= before + t@.take(j as int));
            }
            assert(t@.take(t@.len() as int) =~= t@);
            assert(out@ + replace_all(s@.subrange(i + f@.len(), s@.len() as int), f@, t@) =~= before
                + (t@ + replace_all(s@.subrange(i + f@.len(), s@.len() as int), f@, t@)));
            i += f.len();
        } else {
            proof {
                let rest = s@.subrange(i as int, s@.len() as int);
                if f@.len() <= s@.len() - i {
                    lemma_replace_step_skip(s@, i as int, f@, t@);
                } else {
                    assert(rest.len() < f@.len());
                    assert(rest =~= seq![s@[i as int]] + s@.subrange(i + 1, s@.len() as int));
                    let rest2 = s@.subrange(i + 1, s@.len() as int);
                    assert(rest2.len() < f@.len());
                }
            }
            let ghost before = out@;
            out.push(s[i]);
            assert(out@ + replace_all(s@.subrange(i + 1, s@.len() as int), f@, t@) =~= before + (
            seq![s@[i as int]] + replace_all(s@.subrange(i + 1, s@.len() as int), f@, t@)));
            i += 1;
        }
    }
    assert(s@.subrange(i as int, s@.len() as int) =~= Seq::<char>::empty());
    assert(out@ + Seq::<char>::empty() =~= out@);
    out
}

// ---------------------------------------------------------------------------
// Decimal numbers
// ---------------------------------------------------------------------------

/// The digit character of `d < 10`.
pub fn digit_of(d: u64) -> (c: char)
    requires
        d < 10,
    ensures
        c == digit_char(d as nat),
{
    if d == 0 { '0' }
    else if d == 1 { '1' }
    else if d == 2 { '2' }
    else if d == 3 { '3' }
    else if d == 4 { '4' }
    else if d == 5 { '5' }
    else if d == 6 { '6' }
    else if d == 7 { '7' }
    else if d == 8 { '8' }
    else { '9' }
}

/// The decimal representation of `n`, as `u64::to_string` gives it.
pub fn decimal_string(n: u64) -> (s: String)
    ensures
        s@ == decimal(n as nat),
    decreases n,
{
    if n < 10 {
        let v = vec![digit_of(n)];
        let s = string_of(&v);
        assert(v@ =~= seq![digit_char(n as nat)]);
        s
    } else {
        let head = decimal_string(n / 10);
        let mut v = char_vec(head.as_str());
        v.push(digit_of(n % 10));
        string_of(&v)
    }
}

// ---------------------------------------------------------------------------
// Splitting and joining
// ---------------------------------------------------------------------------

/// A vector of characters has the same deep view as view.
pub broadcast proof fn lemma_char_vec_deep_view(v: Vec<char>)
    ensures
        #[trigger] v.deep_view() == v@,
{
    assert(v.deep_view() =~= v@);
}

/// `split_on` never gives an empty list.
pub proof fn lemma_split_on_nonempty(s: Seq<char>, c: char)
    ensures
        split_on(s, c).len() >= 1,
    decreases s.len(),
{
    if s.len() > 0 {
        lemma_split_on_nonempty(s.drop_last(), c);
    }
}

/// The pieces of `s` between occurrences of `c`.
pub fn split_chars(s: &Vec<char>, c: char) -> (parts: Vec<Vec<char>>)
    ensures
        parts.deep_view() == split_on(s@, c),
{
    let mut done: Vec<Vec<char>> = Vec::new();
    let mut cur: Vec<char> = Vec::new();
    let mut i: usize = 0;
    while i < s.len()
        invariant
            i <= s.len(),
            done.deep_view().push(cur@) == split_on(s@.take(i as int), c),
        decreases s.len() - i,
    {
        proof {
            assert(s@.take(i + 1).drop_last() =~= s@.take(i as int));
            lemma_split_on_nonempty(s@.take(i as int), c);
        }
        let ghost prev = split_on(s@.take(i as int), c);
        if s[i] == c {
            let ghost d0 = done.deep_view();
            let finished = cur;
            proof {
                lemma_char_vec_deep_view(finished);
            }
            done.push(finished);
            cur = Vec::new();
            assert(done.deep_view() =~= d0.push(finished@));
            assert(done.deep_view().push(cur@) =~= prev.push(seq![]));
        } else {
            let ghost c0 = cur@;
            cur.push(s[i]);
            assert(done.deep_view().push(cur@) =~= prev.update(prev.len() - 1, prev.last().push(
                s@[i as int],
            )));
        }
        i += 1;
    }
    assert(s@.take(s@.len() as int) =~= s@);
    let ghost d0 = done.deep_view();
    proof {
        lemma_char_vec_deep_view(cur);
    }
    done.push(cur);
    assert(done.deep_view() =~= d0.push(cur@));
    done
}

proof fn lemma_split_where_nonempty(s: Seq<char>, class: CharClass)
    ensures
        split_where(s, class).len() >= 1,
    decreases s.len(),
{
    if s.len() > 0 {
        lemma_split_where_nonempty(s.drop_last(), class);
    }
}

/// The pieces of `s` between characters of `class`.
pub fn split_class(s: &Vec<char>, class: &CharClass) -> (parts: Vec<Vec<char>>)
    ensures
        parts.deep_view() == split_where(s@, *class),
{
    let mut done: Vec<Vec<char>> = Vec::new();
    let mut cur: Vec<char> = Vec::new();
    let mut i: usize = 0;
    while i < s.len()
        invariant
            i <= s.len(),
            done.deep_view().push(cur@) == split_where(s@.take(i as int), *class),
        decreases s.len() - i,
    {
        proof {
            assert(s@.take(i + 1).drop_last() =~= s@.take(i as int));
            lemma_split_where_nonempty(s@.take(i as int), *class);
        }
        let ghost prev = split_where(s@.take(i as int), *class);
        if class_has(class, s[i]) {
            let ghost d0 = done.deep_view();
            let finished = cur;
            proof {
                lemma_char_vec_deep_view(finished);
            }
            done.push(finished);
            cur = Vec::new();
            assert(done.deep_view() =~= d0.push(finished@));
            assert(done.deep_view().push(cur@) =~= prev.push(seq![]));
        } else {
            cur.push(s[i]);
            assert(done.deep_view().push(cur@) =~= prev.update(prev.len() - 1, prev.last().push(
                s@[i as int],
            )));
        }
        i += 1;
    }
    assert(s@.take(s@.len() as int) =~= s@);
    let ghost d0 = done.deep_view();
    proof {
        lemma_char_vec_deep_view(cur);
    }
    done.push(cur);
    assert(done.deep_view() =~= d0.push(cur@));
    done
}

/// The pieces joined with `sep` between them.
pub fn join_chars(parts: &Vec<Vec<char>>, sep: &Vec<char>) -> (r: Vec<char>)
    ensures
        r@ == join_with(parts.deep_view(), sep@),
{
    let mut out: Vec<char> = Vec::new();
    let mut i: usize = 0;
    while i < parts.len()
        invariant
            i <= parts.len(),
            out@ == join_with(parts.deep_view().take(i as int), sep@),
        decreases parts.len() - i,
    {
        let ghost prev = out@;
        proof {
            assert(parts.deep_view().take(i + 1).drop_last() =~= parts.deep_view().take(i as int));
        }
        if i > 0 {
            append_chars(&mut out, sep);
        }
        append_chars(&mut out, &parts[i]);
        proof {
            lemma_char_vec_deep_view(parts@[i as int]);
            let t = parts.deep_view().take(i + 1);
            if i == 0 {
                assert(out@ =~= t[0]);
            } else {
                assert(out@ =~= join_with(t.drop_last(), sep@) + sep@ + t.last());
            }
        }
        i += 1;
    }
    assert(parts.deep_view().take(parts.len() as int) =~= parts.deep_view());
    out
}

/// Appends the characters of `tail` to `v`.
pub fn append_chars(v: &mut Vec<char>, tail: &Vec<char>)
    ensures
        final(v)@ == old(v)@ + tail@,
{
    let ghost start = v@;
    let mut j: usize = 0;
    while j < tail.len()
        invariant
            j <= tail.len(),
            v@ == start + tail@.take(j as int),
        decreases tail.len() - j,
    {
        v.push(tail[j]);
        j += 1;
        assert(v@ =~= start + tail@.take(j as int));
    }
    assert(tail@.take(tail@.len() as int) =~= tail@);
}

// ---------------------------------------------------------------------------
// Parsing decimal numbers
// ---------------------------------------------------------------------------

proof fn lemma_digits_value_prefix(s: Seq<char>, i: int)
    requires
        0 <= i <= s.len(),
        forall|k: int| 0 <= k < s.len() ==> is_digit(#[trigger] s[k]),
    ensures
        digits_value(s.take(i)) <= digits_value(s),
    decreases s.len() - i,
{
    if i < s.len() {
        lemma_digits_value_prefix(s, i + 1);
        assert(s.take(i + 1).drop_last() =~= s.take(i));
    } else {
        assert(s.take(i) =~= s);
    }
}

/// The value of `s` as a run of decimal digits, if it is one and the value
/// is at most `max`.
pub fn parse_digits(s: &Vec<char>, max: u64) -> (r: Option<u64>)
    ensures
        r matches Some(v) ==> all_digits(s@) && digits_value(s@) <= max && v == digits_value(s@),
        r is None ==> !(all_digits(s@) && digits_value(s@) <= max),
{
    if s.len() == 0 {
        return None;
    }
    let mut i: usize = 0;
    while i < s.len()
        invariant
            i <= s.len(),
            forall|k: int| 0 <= k < i ==> is_digit(#[trigger] s@[k]),
        decreases s.len() - i,
    {
        if !('0' <= s[i] && s[i] <= '9') {
            return None;
        }
        i += 1;
    }
    let mut v: u64 = 0;
    let mut j: usize = 0;
    assert(s@.take(0) =~= Seq::<char>::empty());
    while j < s.len()
        invariant
            j <= s.len(),
            all_digits(s@),
            v as nat == digits_value(s@.take(j as int)),
            v <= max,
        decreases s.len() - j,
    {
        assert(s@.take(j + 1).drop_last() =~= s@.take(j as int));
        assert(s@.take(j + 1).last() == s@[j as int]);
        assert(is_digit(s@[j as int]));
        let d = (s[j] as u32 - '0' as u32) as u64;
        if d > max || v > (max - d) / 10 {
            proof {
                assert(digits_value(s@.take(j + 1)) == v * 10 + d);
                if d <= max {
                    assert(v * 10 + d > max) by (nonlinear_arith)
                        requires
                            v > (max - d) / 10,
                            d <= max,
                    ;
                }
                lemma_digits_value_prefix(s@, j + 1);
            }
            return None;
        }
        assert(v * 10 + d <= max) by (nonlinear_arith)
            requires
                v <= (max - d) / 10,
                d <= max,
        ;
        v = v * 10 + d;
        j += 1;
    }
    assert(s@.take(s@.len() as int) =~= s@);
    Some(v)
}

/// What `str::parse` gives for an unsigned integer type whose largest value
/// is `max`.
pub fn parse_unsigned_chars(s: &Vec<char>, max: u64) -> (r: Option<u64>)
    ensures
        r matches Some(v) ==> parse_unsigned(s@, max as nat) == Some(v as nat),
        r is None ==> parse_unsigned(s@, max as nat) is None,
{
    if s.len() > 0 && s[0] == '+' {
        let body = slice_vec(s, 1, s.len());
        assert(body@ =~= s@.drop_first());
        parse_digits(&body, max)
    } else {
        parse_digits(s, max)
    }
}

/// What `str::parse` gives for a signed integer type of range `[min, max]`.
pub fn parse_signed_chars(s: &Vec<char>, min: i64, max: i64) -> (r: Option<i64>)
    requires
        min < 0 < max,
    ensures
        r matches Some(v) ==> parse_signed(s@, min as int, max as int) == Some(v as int),
        r is None ==> parse_signed(s@, min as int, max as int) is None,
{
    if s.len() > 0 && s[0] == '-' {
        let body = slice_vec(s, 1, s.len());
        assert(body@ =~= s@.drop_first());
        let limit: u64 = (-(min + 1)) as u64 + 1;
        match parse_digits(&body, limit) {
            Some(v) => {
                let neg: i64 = if v == limit {
                    min
                } else {
                    -(v as i64)
                };
                Some(neg)
            },
            None => None,
        }
    } else if s.len() > 0 && s[0] == '+' {
        let body = slice_vec(s, 1, s.len());
        assert(body@ =~= s@.drop_first());
        match parse_digits(&body, max as u64) {
            Some(v) => Some(v as i64),
            None => None,
        }
    } else {
        match parse_digits(s, max as u64) {
            Some(v) => Some(v as i64),
            None => None,
        }
    }
}


// ---------------------------------------------------------------------------
// Finding substrings, case-insensitive comparison, signed numbers
// ---------------------------------------------------------------------------

/// The first position at or after `from` where `p` occurs in `s`.
pub open spec fn find_from(s: Seq<char>, p: Seq<char>, from: int) -> Option<int>
    decreases s.len() + 1 - from,
{
    if from < 0 || from + p.len() > s.len() {
        None
    } else if occurs_at(s, p, from) {
        Some(from)
    } else {
        find_from(s, p, from + 1)
    }
}

/// The first position where `p` occurs in `s`, as `str::find` gives it
/// (counted in characters).
pub open spec fn find_sub(s: Seq<char>, p: Seq<char>) -> Option<int> {
    find_from(s, p, 0)
}

/// The first position where `p` occurs in `s`.
pub fn find_seq(s: &Vec<char>, p: &Vec<char>) -> (r: Option<usize>)
    ensures
        r matches Some(i) ==> find_sub(s@, p@) == Some(i as int),
        r is None ==> find_sub(s@, p@) is None,
{
    if p.len() > s.len() {
        return None;
    }
    let last = s.len() - p.len();
    let mut i: usize = 0;
    while i < last
        invariant
            p@.len() <= s@.len(),
            last == s@.len() - p@.len(),
            i <= last,
            find_from(s@, p@, i as int) == find_from(s@, p@, 0),
        decreases last - i,
    {
        if matches_at(s, p, i) {
            return Some(i);
        }
        i += 1;
    }
    if matches_at(s, p, last) {
        return Some(last);
    }
    assert(find_from(s@, p@, last + 1) is None);
    None
}

/// A character with ASCII upper case folded to lower case, as a number.
pub open spec fn ascii_fold(c: char) -> int {
    if 'A' <= c && c <= 'Z' {
        c as int + 32
    } else {
        c as int
    }
}

/// Equality ignoring ASCII case, as `str::eq_ignore_ascii_case` tests it.
pub open spec fn eq_ascii_case(a: Seq<char>, b: Seq<char>) -> bool {
    a.len() == b.len() && forall|i: int| 0 <= i < a.len() ==> ascii_fold(#[trigger] a[i]) == ascii_fold(b[i])
}

/// Tests `eq_ascii_case`.
pub fn eq_ignore_ascii_case(a: &str, b: &str) -> (r: bool)
    ensures
        r == eq_ascii_case(a@, b@),
{
    let va = char_vec(a);
    let vb = char_vec(b);
    if va.len() != vb.len() {
        return false;
    }
    let mut i: usize = 0;
    while i < va.len()
        invariant
            i <= va@.len(),
            va@.len() == vb@.len(),
            va@ == a@,
            vb@ == b@,
            forall|k: int| 0 <= k < i ==> ascii_fold(#[trigger] va@[k]) == ascii_fold(vb@[k]),
        decreases va.len() - i,
    {
        let x = va[i];
        let y = vb[i];
        let same = if x == y {
            true
        } else if 'A' <= x && x <= 'Z' && 'a' <= y && y <= 'z' {
            x as u32 + 32 == y as u32
        } else if 'a' <= x && x <= 'z' && 'A' <= y && y <= 'Z' {
            x as u32 == y as u32 + 32
        } else {
            false
        };
        assert(same == (ascii_fold(x) == ascii_fold(y)));
        if !same {
            assert(ascii_fold(va@[i as int]) != ascii_fold(vb@[i as int]));
            return false;
        }
        i += 1;
    }
    true
}

/// The decimal representation of an integer, with `-` when negative.
pub open spec fn signed_decimal(n: int) -> Seq<char> {
    if n < 0 {
        seq!['-'] + decimal((-n) as nat)
    } else {
        decimal(n as nat)
    }
}

/// The decimal representation of `n`, as `i64::to_string` gives it.
pub fn signed_decimal_string(n: i64) -> (s: String)
    ensures
        s@ == signed_decimal(n as int),
{
    if n < 0 {
        let m: u64 = (0i128 - n as i128) as u64;
        let d = decimal_string(m);
        let mut v: Vec<char> = Vec::new();
        v.push('-');
        let dv = char_vec(d.as_str());
        append_chars(&mut v, &dv);
        assert(v@ =~= seq!['-'] + decimal((-(n as int)) as nat));
        string_of(&v)
    } else {
        decimal_string(n as u64)
    }
}

/// The decimal representation of `n`, as `u128::to_string` gives it.
pub fn decimal_string_wide(n: u128) -> (s: String)
    ensures
        s@ == decimal(n as nat),
    decreases n,
{
    if n < 10 {
        let v = vec![digit_of(n as u64)];
        let s = string_of(&v);
        assert(v@ =~= seq![digit_char(n as nat)]);
        s
    } else {
        let head = decimal_string_wide(n / 10);
        let mut v = char_vec(head.as_str());
        v.push(digit_of((n % 10) as u64));
        string_of(&v)
    }
}

} // verus!
