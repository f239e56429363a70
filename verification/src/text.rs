//! Character-level text helpers shared by the ledgers and compilers.
//!
//! Every helper works on the `Seq<char>` view of a string, so contracts in the
//! rest of the crate can speak of `contains`, `trim`, prefixes and decimal
//! rendering directly.
use vstd::prelude::*;

verus! {

/// Unicode `White_Space`, the set `char::is_whitespace` recognises.
pub open spec fn is_ws(c: char) -> bool {
    let u = c as u32;
    (9 <= u && u <= 13) || u == 32 || u == 0x85 || u == 0xA0 || u == 0x1680 || (0x2000 <= u
        && u <= 0x200A) || u == 0x2028 || u == 0x2029 || u == 0x202F || u == 0x205F || u == 0x3000
}

/// A text made of whitespace only (what `trim().is_empty()` tests).
pub open spec fn is_blank(s: Seq<char>) -> bool {
    forall|i: int| 0 <= i < s.len() ==> is_ws(#[trigger] s[i])
}

pub open spec fn trim_start(s: Seq<char>) -> Seq<char>
    decreases s.len(),
{
    if s.len() > 0 && is_ws(s[0]) {
        trim_start(s.subrange(1, s.len() as int))
    } else {
        s
    }
}

pub open spec fn trim_end(s: Seq<char>) -> Seq<char>
    decreases s.len(),
{
    if s.len() > 0 && is_ws(s[s.len() - 1]) {
        trim_end(s.subrange(0, s.len() - 1))
    } else {
        s
    }
}

/// Leading and trailing whitespace removed, as `str::trim` does.
pub open spec fn trim(s: Seq<char>) -> Seq<char> {
    trim_end(trim_start(s))
}

/// `needle` occurs in `hay` starting at position `i`.
pub open spec fn occurs_at(hay: Seq<char>, needle: Seq<char>, i: int) -> bool {
    0 <= i && i + needle.len() <= hay.len() && hay.subrange(i, i + needle.len()) == needle
}

/// Substring containment, as `str::contains` with a string pattern.
pub open spec fn contains(hay: Seq<char>, needle: Seq<char>) -> bool {
    exists|i: int| #[trigger] occurs_at(hay, needle, i)
}

pub open spec fn starts_with(s: Seq<char>, prefix: Seq<char>) -> bool {
    occurs_at(s, prefix, 0)
}

pub open spec fn ends_with(s: Seq<char>, suffix: Seq<char>) -> bool {
    suffix.len() <= s.len() && occurs_at(s, suffix, s.len() - suffix.len())
}

pub open spec fn ascii_lower_char(c: char) -> char {
    if 'A' <= c && c <= 'Z' {
        ((c as u32) + 32) as char
    } else {
        c
    }
}

/// `to_ascii_lowercase`: only `A`..`Z` change.
pub open spec fn ascii_lower(s: Seq<char>) -> Seq<char> {
    Seq::new(s.len(), |i: int| ascii_lower_char(s[i]))
}

pub open spec fn digit_char(d: nat) -> char {
    if d == 0 {
        '0'
    } else if d == 1 {
        '1'
    } else if d == 2 {
        '2'
    } else if d == 3 {
        '3'
    } else if d == 4 {
        '4'
    } else if d == 5 {
        '5'
    } else if d == 6 {
        '6'
    } else if d == 7 {
        '7'
    } else if d == 8 {
        '8'
    } else {
        '9'
    }
}

/// Decimal rendering of a natural number, without leading zeros.
pub open spec fn dec(n: nat) -> Seq<char>
    decreases n,
{
    if n < 10 {
        seq![digit_char(n)]
    } else {
        dec(n / 10).push(digit_char(n % 10))
    }
}

/// Decimal rendering padded with zeros to `width` digits (`{:0width$}`).
pub open spec fn dec_padded(n: nat, width: nat) -> Seq<char> {
    let d = dec(n);
    if d.len() >= width {
        d
    } else {
        Seq::new((width - d.len()) as nat, |i: int| '0') + d
    }
}

/// Every occurrence of `c` in `s` replaced by `with`.
pub open spec fn replace_char(s: Seq<char>, c: char, with: Seq<char>) -> Seq<char>
    decreases s.len(),
{
    if s.len() == 0 {
        Seq::empty()
    } else {
        let rest = replace_char(s.subrange(1, s.len() as int), c, with);
        if s[0] == c {
            with + rest
        } else {
            seq![s[0]] + rest
        }
    }
}

/// Items joined by a separator, as `[..].join(sep)` does.
pub open spec fn join(items: Seq<Seq<char>>, sep: Seq<char>) -> Seq<char>
    decreases items.len(),
{
    if items.len() == 0 {
        Seq::empty()
    } else if items.len() == 1 {
        items[0]
    } else {
        join(items.drop_last(), sep) + sep + items.last()
    }
}

/// The text views of a list of strings.
pub open spec fn views(v: Seq<String>) -> Seq<Seq<char>> {
    Seq::new(v.len(), |i: int| v[i]@)
}

pub proof fn lemma_views_push(v: Seq<String>, x: String)
    ensures
        views(v.push(x)) == views(v).push(x@),
{
    assert(views(v.push(x)) =~= views(v).push(x@));
}

pub proof fn lemma_views_subrange(v: Seq<String>, i: int)
    requires
        0 <= i <= v.len(),
    ensures
        views(v.subrange(0, i)) == views(v).subrange(0, i),
{
    assert(views(v.subrange(0, i)) =~= views(v).subrange(0, i));
}

/// The texts in order with later repeats dropped.
pub open spec fn dedupe(s: Seq<Seq<char>>) -> Seq<Seq<char>>
    decreases s.len(),
{
    if s.len() == 0 {
        Seq::empty()
    } else {
        let prev = dedupe(s.drop_last());
        if prev.contains(s.last()) {
            prev
        } else {
            prev.push(s.last())
        }
    }
}

/// `values` with repeats dropped, first occurrences kept in order.
pub fn dedupe_strings(values: &Vec<String>) -> (r: Vec<String>)
    ensures
        views(r@) == dedupe(views(values@)),
{
    let mut out: Vec<String> = Vec::new();
    let mut i: usize = 0;
    while i < values.len()
        invariant
            i <= values.len(),
            views(out@) == dedupe(views(values@.subrange(0, i as int))),
        decreases values.len() - i,
    {
        proof {
            lemma_views_subrange(values@, i + 1);
            lemma_views_subrange(values@, i as int);
            assert(views(values@.subrange(0, i + 1)).drop_last() =~= views(
                values@.subrange(0, i as int),
            ));
            assert(views(values@.subrange(0, i + 1)).last() == values@[i as int]@);
        }
        if !has_text_exec(&out, values[i].as_str()) {
            let ghost prev = out@;
            out.push(values[i].clone());
            proof {
                lemma_views_push(prev, values@[i as int]);
            }
        } else {
            proof {
                let j = choose|j: int| 0 <= j < out@.len() && #[trigger] out@[j]@ == values@[i as int]@;
                assert(views(out@)[j] == values@[i as int]@);
            }
        }
        i = i + 1;
    }
    proof {
        lemma_views_subrange(values@, values@.len() as int);
        assert(views(values@).subrange(0, values@.len() as int) =~= views(values@));
    }
    out
}

/// Some item of `v` has the text `s`.
pub open spec fn has_text(v: Seq<String>, s: Seq<char>) -> bool {
    exists|i: int| 0 <= i < v.len() && #[trigger] v[i]@ == s
}

/// Unicode lowercasing as `str::to_lowercase` performs it.
pub uninterp spec fn unicode_lowercase(s: Seq<char>) -> Seq<char>;

/// Calls `str::to_lowercase`; its result is named `unicode_lowercase` of the
/// input, a function of the text alone (the Unicode case tables are fixed).
#[verifier::external_body]
pub fn to_lowercase(s: &str) -> (r: String)
    ensures
        r@ == unicode_lowercase(s@),
{
    s.to_lowercase()
}

pub fn is_ws_char(c: char) -> (r: bool)
    ensures
        r == is_ws(c),
{
    let u = c as u32;
    (9 <= u && u <= 13) || u == 32 || u == 0x85 || u == 0xA0 || u == 0x1680 || (0x2000 <= u
        && u <= 0x200A) || u == 0x2028 || u == 0x2029 || u == 0x202F || u == 0x205F || u == 0x3000
}

/// The characters of `s`, in order.
pub fn chars_of(s: &str) -> (v: Vec<char>)
    ensures
        v@ == s@,
{
    let n = s.unicode_len();
    let mut v: Vec<char> = Vec::new();
    let mut i: usize = 0;
    while i < n
        invariant
            n == s@.len(),
            i <= n,
            v@ == s@.subrange(0, i as int),
        decreases n - i,
    {
        let c = s.get_char(i);
        v.push(c);
        i = i + 1;
    }
    assert(v@ =~= s@);
    v
}

pub fn is_blank_str(s: &str) -> (r: bool)
    ensures
        r == is_blank(s@),
{
    let n = s.unicode_len();
    let mut i: usize = 0;
    while i < n
        invariant
            n == s@.len(),
            i <= n,
            forall|k: int| 0 <= k < i ==> is_ws(#[trigger] s@[k]),
        decreases n - i,
    {
        let c = s.get_char(i);
        if !is_ws_char(c) {
            return false;
        }
        i = i + 1;
    }
    true
}

proof fn lemma_trim_start_skip(s: Seq<char>, k: int)
    requires
        0 <= k <= s.len(),
        forall|i: int| 0 <= i < k ==> is_ws(#[trigger] s[i]),
    ensures
        trim_start(s) == trim_start(s.subrange(k, s.len() as int)),
    decreases k,
{
    if k == 0 {
        assert(s.subrange(0, s.len() as int) =~= s);
    } else {
        let t = s.subrange(1, s.len() as int);
        assert(is_ws(s[0]));
        assert forall|i: int| 0 <= i < k - 1 implies is_ws(#[trigger] t[i]) by {
            assert(t[i] == s[i + 1]);
        }
        lemma_trim_start_skip(t, k - 1);
        assert(t.subrange(k - 1, t.len() as int) =~= s.subrange(k, s.len() as int));
    }
}

proof fn lemma_trim_end_skip(s: Seq<char>, k: int)
    requires
        0 <= k <= s.len(),
        forall|i: int| k <= i < s.len() ==> is_ws(#[trigger] s[i]),
    ensures
        trim_end(s) == trim_end(s.subrange(0, k)),
    decreases s.len() - k,
{
    if k == s.len() {
        assert(s.subrange(0, k) =~= s);
    } else {
        let t = s.subrange(0, s.len() - 1);
        assert(is_ws(s[s.len() - 1]));
        assert forall|i: int| k <= i < t.len() implies is_ws(#[trigger] t[i]) by {
            assert(t[i] == s[i]);
        }
        lemma_trim_end_skip(t, k);
        assert(t.subrange(0, k) =~= s.subrange(0, k));
    }
}

/// `str::trim`.
pub fn trim_str<'a>(s: &'a str) -> (r: &'a str)
    ensures
        r@ == trim(s@),
{
    let n = s.unicode_len();
    let mut i: usize = 0;
    while i < n && is_ws_char(s.get_char(i))
        invariant
            n == s@.len(),
            i <= n,
            forall|k: int| 0 <= k < i ==> is_ws(#[trigger] s@[k]),
        decreases n - i,
    {
        i = i + 1;
    }
    let mut j: usize = n;
    while j > i && is_ws_char(s.get_char(j - 1))
        invariant
            n == s@.len(),
            i <= j <= n,
            i < n ==> !is_ws(s@[i as int]),
            forall|k: int| j <= k < n ==> is_ws(#[trigger] s@[k]),
        decreases j,
    {
        j = j - 1;
    }
    proof {
        lemma_trim_start_skip(s@, i as int);
        let t = s@.subrange(i as int, n as int);
        if i < n {
            assert(!is_ws(s@[i as int]));
            assert(t[0] == s@[i as int]);
        }
        assert(trim_start(t) == t);
        assert forall|k: int| (j - i) <= k < t.len() implies is_ws(#[trigger] t[k]) by {
            assert(t[k] == s@[k + i]);
        }
        lemma_trim_end_skip(t, (j - i) as int);
        let u = t.subrange(0, (j - i) as int);
        if j > i {
            assert(u[u.len() - 1] == s@[j - 1]);
        }
        assert(trim_end(u) == u);
        assert(u =~= s@.subrange(i as int, j as int));
    }
    s.substring_char(i, j)
}

/// `needle` occurs in `hay` at position `i`.
pub fn matches_at(hay: &Vec<char>, needle: &Vec<char>, i: usize) -> (r: bool)
    requires
        i + needle.len() <= hay.len(),
    ensures
        r == occurs_at(hay@, needle@, i as int),
{
    let mut j: usize = 0;
    while j < needle.len()
        invariant
            i + needle.len() <= hay.len(),
            j <= needle.len(),
            forall|k: int| 0 <= k < j ==> hay@[i + k] == needle@[k],
        decreases needle.len() - j,
    {
        if hay[i + j] != needle[j] {
            assert(hay@.subrange(i as int, i + needle@.len())[j as int] != needle@[j as int]);
            return false;
        }
        j = j + 1;
    }
    assert(hay@.subrange(i as int, i + needle@.len()) =~= needle@);
    true
}

pub fn contains_chars(hay: &Vec<char>, needle: &Vec<char>) -> (r: bool)
    ensures
        r == contains(hay@, needle@),
{
    if needle.len() > hay.len() {
        return false;
    }
    let last = hay.len() - needle.len();
    let mut i: usize = 0;
    loop
        invariant
            needle.len() <= hay.len(),
            last == hay.len() - needle.len(),
            i <= last,
            forall|k: int| 0 <= k < i ==> !occurs_at(hay@, needle@, k),
        decreases last - i,
    {
        if matches_at(hay, needle, i) {
            assert(occurs_at(hay@, needle@, i as int));
            return true;
        }
        if i == last {
            return false;
        }
        i = i + 1;
    }
}

/// `str::contains` with a string pattern.
pub fn contains_str(hay: &str, needle: &str) -> (r: bool)
    ensures
        r == contains(hay@, needle@),
{
    let h = chars_of(hay);
    let n = chars_of(needle);
    contains_chars(&h, &n)
}

/// The text views of a list of string slices.
pub open spec fn str_views(v: Seq<&str>) -> Seq<Seq<char>> {
    Seq::new(v.len(), |i: int| v[i]@)
}

/// Some needle of the list occurs in `hay`.
pub open spec fn contains_any(hay: Seq<char>, needles: Seq<Seq<char>>) -> bool {
    exists|i: int| 0 <= i < needles.len() && contains(hay, #[trigger] needles[i])
}

/// `needles.iter().any(|needle| hay.contains(needle))`.
pub fn contains_any_str(hay: &str, needles: &[&str]) -> (r: bool)
    ensures
        r == contains_any(hay@, str_views(needles@)),
{
    let h = chars_of(hay);
    let mut i: usize = 0;
    while i < needles.len()
        invariant
            h@ == hay@,
            i <= needles@.len(),
            forall|k: int| 0 <= k < i ==> !contains(hay@, #[trigger] str_views(needles@)[k]),
        decreases needles.len() - i,
    {
        let n = chars_of(needles[i]);
        if contains_chars(&h, &n) {
            assert(contains(hay@, str_views(needles@)[i as int]));
            return true;
        }
        i = i + 1;
    }
    false
}

/// Some needle occurs in `hay` as written, or occurs in the ASCII-lowercased
/// `hay` once itself ASCII-lowercased.
pub open spec fn contains_any_ascii_ci(hay: Seq<char>, needles: Seq<Seq<char>>) -> bool {
    exists|i: int|
        0 <= i < needles.len() && (contains(hay, #[trigger] needles[i]) || contains(
            ascii_lower(hay),
            ascii_lower(needles[i]),
        ))
}

/// `needles.iter().any(|n| hay.contains(n) || hay_lower.contains(&n.to_ascii_lowercase()))`.
pub fn contains_any_ascii_ci_str(hay: &str, needles: &[&str]) -> (r: bool)
    ensures
        r == contains_any_ascii_ci(hay@, str_views(needles@)),
{
    let h = chars_of(hay);
    let hl = ascii_lower_chars(hay);
    let mut i: usize = 0;
    while i < needles.len()
        invariant
            h@ == hay@,
            hl@ == ascii_lower(hay@),
            i <= needles@.len(),
            forall|k: int|
                0 <= k < i ==> !(contains(hay@, #[trigger] str_views(needles@)[k]) || contains(
                    ascii_lower(hay@),
                    ascii_lower(str_views(needles@)[k]),
                )),
        decreases needles.len() - i,
    {
        let n = chars_of(needles[i]);
        let nl = ascii_lower_chars(needles[i]);
        if contains_chars(&h, &n) || contains_chars(&hl, &nl) {
            assert(contains(hay@, str_views(needles@)[i as int]) || contains(
                ascii_lower(hay@),
                ascii_lower(str_views(needles@)[i as int]),
            ));
            return true;
        }
        i = i + 1;
    }
    false
}

pub fn starts_with_str(s: &str, prefix: &str) -> (r: bool)
    ensures
        r == starts_with(s@, prefix@),
{
    let a = chars_of(s);
    let b = chars_of(prefix);
    if b.len() > a.len() {
        return false;
    }
    matches_at(&a, &b, 0)
}

pub fn ends_with_str(s: &str, suffix: &str) -> (r: bool)
    ensures
        r == ends_with(s@, suffix@),
{
    let a = chars_of(s);
    let b = chars_of(suffix);
    if b.len() > a.len() {
        return false;
    }
    matches_at(&a, &b, a.len() - b.len())
}

/// `str::strip_prefix` with a string pattern.
pub fn strip_prefix_str<'a>(s: &'a str, prefix: &str) -> (r: Option<&'a str>)
    ensures
        r is Some <==> starts_with(s@, prefix@),
        r matches Some(rest) ==> rest@ == s@.subrange(prefix@.len() as int, s@.len() as int),
{
    if starts_with_str(s, prefix) {
        let n = s.unicode_len();
        let p = prefix.unicode_len();
        Some(s.substring_char(p, n))
    } else {
        None
    }
}

/// `str::strip_suffix` with a string pattern.
pub fn strip_suffix_str<'a>(s: &'a str, suffix: &str) -> (r: Option<&'a str>)
    ensures
        r is Some <==> ends_with(s@, suffix@),
        r matches Some(rest) ==> rest@ == s@.subrange(0, s@.len() - suffix@.len()),
{
    if ends_with_str(s, suffix) {
        let n = s.unicode_len();
        let p = suffix.unicode_len();
        Some(s.substring_char(0, n - p))
    } else {
        None
    }
}

pub fn ascii_lower_of(c: char) -> (r: char)
    ensures
        r == ascii_lower_char(c),
{
    if 'A' <= c && c <= 'Z' {
        let u = (c as u32) + 32;
        assert(u <= 0x7a);
        char_from_ascii(u)
    } else {
        c
    }
}

fn char_from_ascii(u: u32) -> (r: char)
    requires
        u < 128,
    ensures
        r == u as char,
{
    let b = u as u8;
    b as char
}

/// The characters of `s` passed through `to_ascii_lowercase`.
pub fn ascii_lower_chars(s: &str) -> (v: Vec<char>)
    ensures
        v@ == ascii_lower(s@),
{
    let c = chars_of(s);
    let mut v: Vec<char> = Vec::new();
    let mut i: usize = 0;
    while i < c.len()
        invariant
            c@ == s@,
            i <= c.len(),
            v@ == ascii_lower(s@).subrange(0, i as int),
        decreases c.len() - i,
    {
        v.push(ascii_lower_of(c[i]));
        i = i + 1;
    }
    assert(v@ =~= ascii_lower(s@));
    v
}

/// `str::eq_ignore_ascii_case`.
pub fn eq_ignore_ascii_case_str(a: &str, b: &str) -> (r: bool)
    ensures
        r == (ascii_lower(a@) == ascii_lower(b@)),
{
    let x = ascii_lower_chars(a);
    let y = ascii_lower_chars(b);
    if x.len() != y.len() {
        assert(x@.len() != y@.len());
        return false;
    }
    let mut i: usize = 0;
    while i < x.len()
        invariant
            x@ == ascii_lower(a@),
            y@ == ascii_lower(b@),
            x.len() == y.len(),
            i <= x.len(),
            forall|k: int| 0 <= k < i ==> x@[k] == y@[k],
        decreases x.len() - i,
    {
        if x[i] != y[i] {
            assert(x@[i as int] != y@[i as int]);
            return false;
        }
        i = i + 1;
    }
    assert(x@ =~= y@);
    true
}

pub fn digit_str(d: u64) -> (r: &'static str)
    requires
        d < 10,
    ensures
        r@ == seq![digit_char(d as nat)],
{
    proof {
        reveal_strlit("0");
        reveal_strlit("1");
        reveal_strlit("2");
        reveal_strlit("3");
        reveal_strlit("4");
        reveal_strlit("5");
        reveal_strlit("6");
        reveal_strlit("7");
        reveal_strlit("8");
        reveal_strlit("9");
    }
    if d == 0 {
        "0"
    } else if d == 1 {
        "1"
    } else if d == 2 {
        "2"
    } else if d == 3 {
        "3"
    } else if d == 4 {
        "4"
    } else if d == 5 {
        "5"
    } else if d == 6 {
        "6"
    } else if d == 7 {
        "7"
    } else if d == 8 {
        "8"
    } else {
        "9"
    }
}

/// Decimal rendering (`{}` of an unsigned integer).
pub fn dec_string(n: u64) -> (r: String)
    ensures
        r@ == dec(n as nat),
    decreases n,
{
    if n < 10 {
        String::from_str(digit_str(n))
    } else {
        let mut s = dec_string(n / 10);
        s.append(digit_str(n % 10));
        s
    }
}

/// Two-digit zero padded rendering (`{:02}`).
pub fn dec2_string(n: u64) -> (r: String)
    ensures
        r@ == dec_padded(n as nat, 2),
{
    let s = dec_string(n);
    if n < 10 {
        let mut z = String::from_str("0");
        z.append(s.as_str());
        proof {
            reveal_strlit("0");
            assert(dec(n as nat).len() == 1);
            assert(Seq::new((2 - dec(n as nat).len()) as nat, |i: int| '0') =~= seq!['0']);
        }
        z
    } else {
        proof {
            lemma_dec_len_ge2(n as nat);
        }
        s
    }
}

/// Four-digit zero padded rendering (`{:04}`).
pub fn dec4_string(n: u64) -> (r: String)
    ensures
        r@ == dec_padded(n as nat, 4),
{
    let s = dec_string(n);
    let len = s.as_str().unicode_len();
    if len >= 4 {
        return s;
    }
    let mut z = String::new();
    let mut k: usize = 0;
    while k < 4 - len
        invariant
            len < 4,
            k <= 4 - len,
            z@ == Seq::new(k as nat, |i: int| '0'),
        decreases 4 - len - k,
    {
        z.append("0");
        proof {
            reveal_strlit("0");
        }
        assert(z@ =~= Seq::new((k + 1) as nat, |i: int| '0'));
        k = k + 1;
    }
    z.append(s.as_str());
    z
}

proof fn lemma_dec_len_ge2(n: nat)
    requires
        n >= 10,
    ensures
        dec(n).len() >= 2,
    decreases n,
{
    lemma_dec_len_pos(n / 10);
}

pub proof fn lemma_dec_len_pos(n: nat)
    ensures
        dec(n).len() >= 1,
    decreases n,
{
    if n >= 10 {
        lemma_dec_len_pos(n / 10);
    }
}

/// Two strings concatenated.
pub fn concat2(a: &str, b: &str) -> (r: String)
    ensures
        r@ == a@ + b@,
{
    let mut s = String::from_str(a);
    s.append(b);
    s
}

/// Three strings concatenated.
pub fn concat3(a: &str, b: &str, c: &str) -> (r: String)
    ensures
        r@ == a@ + b@ + c@,
{
    let mut s = String::from_str(a);
    s.append(b);
    s.append(c);
    s
}

/// Four strings concatenated.
pub fn concat4(a: &str, b: &str, c: &str, d: &str) -> (r: String)
    ensures
        r@ == a@ + b@ + c@ + d@,
{
    let mut s = String::from_str(a);
    s.append(b);
    s.append(c);
    s.append(d);
    s
}

/// Five strings concatenated.
pub fn concat5(a: &str, b: &str, c: &str, d: &str, e: &str) -> (r: String)
    ensures
        r@ == a@ + b@ + c@ + d@ + e@,
{
    let mut s = String::from_str(a);
    s.append(b);
    s.append(c);
    s.append(d);
    s.append(e);
    s
}

/// A copy of a list of strings.
pub fn clone_strings(v: &Vec<String>) -> (r: Vec<String>)
    ensures
        r@ == v@,
{
    let mut out: Vec<String> = Vec::new();
    let mut i: usize = 0;
    while i < v.len()
        invariant
            i <= v.len(),
            out@ == v@.subrange(0, i as int),
        decreases v.len() - i,
    {
        out.push(v[i].clone());
        i = i + 1;
    }
    assert(out@ =~= v@);
    out
}

/// `items.join(sep)`.
pub fn join_strings(items: &Vec<String>, sep: &str) -> (r: String)
    ensures
        r@ == join(views(items@), sep@),
{
    let mut out = String::new();
    let mut i: usize = 0;
    while i < items.len()
        invariant
            i <= items.len(),
            out@ == join(views(items@.subrange(0, i as int)), sep@),
        decreases items.len() - i,
    {
        let ghost before = views(items@.subrange(0, i as int));
        if i > 0 {
            out.append(sep);
        }
        out.append(items[i].as_str());
        proof {
            let after = views(items@.subrange(0, i + 1));
            assert(after.drop_last() =~= before);
            assert(after.last() == items@[i as int]@);
            if i == 0 {
                assert(after =~= seq![items@[0]@]);
            }
        }
        i = i + 1;
    }
    assert(items@.subrange(0, items.len() as int) =~= items@);
    out
}

/// Text equality of a `String` and a `str`.
pub fn str_eq(a: &str, b: &str) -> (r: bool)
    ensures
        r == (a@ == b@),
{
    let x = chars_of(a);
    let y = chars_of(b);
    if x.len() != y.len() {
        assert(x@.len() != y@.len());
        return false;
    }
    let mut i: usize = 0;
    while i < x.len()
        invariant
            x@ == a@,
            y@ == b@,
            x.len() == y.len(),
            i <= x.len(),
            forall|k: int| 0 <= k < i ==> x@[k] == y@[k],
        decreases x.len() - i,
    {
        if x[i] != y[i] {
            assert(x@[i as int] != y@[i as int]);
            return false;
        }
        i = i + 1;
    }
    assert(x@ =~= y@);
    true
}

/// Some item of `v` has the text `s`.
pub fn has_text_exec(v: &Vec<String>, s: &str) -> (r: bool)
    ensures
        r == has_text(v@, s@),
{
    let mut i: usize = 0;
    while i < v.len()
        invariant
            i <= v.len(),
            forall|k: int| 0 <= k < i ==> v@[k]@ != s@,
        decreases v.len() - i,
    {
        if str_eq(v[i].as_str(), s) {
            return true;
        }
        i = i + 1;
    }
    false
}


/// `a` sorts strictly before `b` in the order of `str`'s `Ord`: code point
/// by code point, a proper prefix first.
pub open spec fn seq_lt(a: Seq<char>, b: Seq<char>) -> bool
    decreases a.len(),
{
    if a.len() == 0 {
        b.len() > 0
    } else if b.len() == 0 {
        false
    } else if a[0] != b[0] {
        (a[0] as int) < (b[0] as int)
    } else {
        seq_lt(a.drop_first(), b.drop_first())
    }
}

proof fn lemma_seq_lt_skip(a: Seq<char>, b: Seq<char>, i: int)
    requires
        0 <= i <= a.len(),
        i <= b.len(),
        a.subrange(0, i) == b.subrange(0, i),
    ensures
        seq_lt(a, b) == seq_lt(a.subrange(i, a.len() as int), b.subrange(i, b.len() as int)),
    decreases i,
{
    if i > 0 {
        assert(a[0] == a.subrange(0, i)[0]);
        assert(b[0] == b.subrange(0, i)[0]);
        assert(a.drop_first().subrange(0, i - 1) =~= a.subrange(0, i).drop_first());
        assert(b.drop_first().subrange(0, i - 1) =~= b.subrange(0, i).drop_first());
        lemma_seq_lt_skip(a.drop_first(), b.drop_first(), i - 1);
        assert(a.drop_first().subrange(i - 1, a.len() - 1) =~= a.subrange(i, a.len() as int));
        assert(b.drop_first().subrange(i - 1, b.len() - 1) =~= b.subrange(i, b.len() as int));
    } else {
        assert(a.subrange(0, a.len() as int) =~= a);
        assert(b.subrange(0, b.len() as int) =~= b);
    }
}

/// Seq order is irreflexive.
pub proof fn lemma_seq_lt_irreflexive(a: Seq<char>)
    ensures
        !seq_lt(a, a),
    decreases a.len(),
{
    if a.len() > 0 {
        lemma_seq_lt_irreflexive(a.drop_first());
    }
}

/// Two distinct strings are ordered one way or the other.
pub proof fn lemma_seq_lt_total(a: Seq<char>, b: Seq<char>)
    requires
        a != b,
    ensures
        seq_lt(a, b) || seq_lt(b, a),
    decreases a.len(),
{
    if a.len() > 0 && b.len() > 0 && a[0] == b[0] {
        if a.drop_first() == b.drop_first() {
            assert(a.len() == a.drop_first().len() + 1);
            assert(b.len() == b.drop_first().len() + 1);
            assert forall|i: int| 0 <= i < a.len() implies a[i] == b[i] by {
                if i > 0 {
                    assert(a[i] == a.drop_first()[i - 1]);
                    assert(b[i] == b.drop_first()[i - 1]);
                }
            }
            assert(a =~= b);
        } else {
            lemma_seq_lt_total(a.drop_first(), b.drop_first());
        }
    } else if a.len() > 0 && b.len() > 0 {
        assert((a[0] as int) != (b[0] as int));
    } else if a.len() == 0 && b.len() == 0 {
        assert(a =~= b);
    }
}

/// Seq order is asymmetric.
pub proof fn lemma_seq_lt_asymmetric(a: Seq<char>, b: Seq<char>)
    ensures
        seq_lt(a, b) ==> !seq_lt(b, a),
    decreases a.len(),
{
    if a.len() > 0 && b.len() > 0 && a[0] == b[0] {
        lemma_seq_lt_asymmetric(a.drop_first(), b.drop_first());
    }
}

/// Seq order is transitive.
pub proof fn lemma_seq_lt_transitive(a: Seq<char>, b: Seq<char>, c: Seq<char>)
    requires
        seq_lt(a, b),
        seq_lt(b, c),
    ensures
        seq_lt(a, c),
    decreases a.len(),
{
    if a.len() > 0 && b.len() > 0 && c.len() > 0 && a[0] == b[0] && b[0] == c[0] {
        lemma_seq_lt_transitive(a.drop_first(), b.drop_first(), c.drop_first());
    }
}

/// `a < b` as `str` orders them.
pub fn str_lt(a: &str, b: &str) -> (r: bool)
    ensures
        r == seq_lt(a@, b@),
{
    let x = chars_of(a);
    let y = chars_of(b);
    let mut i: usize = 0;
    while i < x.len() && i < y.len() && x[i] == y[i]
        invariant
            i <= x@.len(),
            i <= y@.len(),
            x@ == a@,
            y@ == b@,
            x@.subrange(0, i as int) == y@.subrange(0, i as int),
        decreases x.len() - i,
    {
        assert(x@.subrange(0, i + 1) =~= x@.subrange(0, i as int).push(x@[i as int]));
        assert(y@.subrange(0, i + 1) =~= y@.subrange(0, i as int).push(y@[i as int]));
        i = i + 1;
    }
    proof {
        lemma_seq_lt_skip(x@, y@, i as int);
    }
    if i == x.len() {
        i < y.len()
    } else if i == y.len() {
        false
    } else {
        x[i] < y[i]
    }
}


/// Where `x` belongs in a strictly increasing list: before the first entry
/// that is not below it.
pub open spec fn unique_insert_pos(t: Seq<Seq<char>>, x: Seq<char>) -> int
    decreases t.len(),
{
    if t.len() == 0 {
        0
    } else {
        let p = unique_insert_pos(t.drop_last(), x);
        if p < t.len() - 1 {
            p
        } else if seq_lt(t.last(), x) {
            t.len() as int
        } else {
            t.len() - 1
        }
    }
}

/// The texts sorted in `str` order with repeats removed.
pub open spec fn sort_dedup(s: Seq<Seq<char>>) -> Seq<Seq<char>>
    decreases s.len(),
{
    if s.len() == 0 {
        Seq::empty()
    } else {
        let t = sort_dedup(s.drop_last());
        let p = unique_insert_pos(t, s.last());
        if p < t.len() && t[p] == s.last() {
            t
        } else {
            t.insert(p, s.last())
        }
    }
}

pub proof fn lemma_unique_insert_pos_is(t: Seq<Seq<char>>, x: Seq<char>, k: int)
    requires
        0 <= k <= t.len(),
        forall|j: int| 0 <= j < k ==> seq_lt(#[trigger] t[j], x),
        k < t.len() ==> !seq_lt(t[k], x),
    ensures
        unique_insert_pos(t, x) == k,
    decreases t.len(),
{
    if t.len() > 0 {
        let d = t.drop_last();
        assert forall|j: int| 0 <= j < d.len() implies d[j] == t[j] by {}
        if k < t.len() - 1 {
            lemma_unique_insert_pos_is(d, x, k);
        } else {
            lemma_unique_insert_pos_is(d, x, d.len() as int);
        }
    }
}

pub proof fn lemma_unique_insert_pos_bounds(t: Seq<Seq<char>>, x: Seq<char>)
    ensures
        0 <= unique_insert_pos(t, x) <= t.len(),
    decreases t.len(),
{
    if t.len() > 0 {
        lemma_unique_insert_pos_bounds(t.drop_last(), x);
    }
}

/// Where `x` goes: after every entry below it, before the first that is not.
proof fn lemma_unique_insert_pos_spec(t: Seq<Seq<char>>, x: Seq<char>)
    ensures
        0 <= unique_insert_pos(t, x) <= t.len(),
        forall|j: int| 0 <= j < unique_insert_pos(t, x) ==> seq_lt(#[trigger] t[j], x),
        unique_insert_pos(t, x) < t.len() ==> !seq_lt(t[unique_insert_pos(t, x)], x),
    decreases t.len(),
{
    if t.len() > 0 {
        let d = t.drop_last();
        lemma_unique_insert_pos_spec(d, x);
        assert forall|j: int| 0 <= j < d.len() implies d[j] == t[j] by {}
    }
}

/// The list is strictly increasing in `str` order.
pub open spec fn strictly_sorted(t: Seq<Seq<char>>) -> bool {
    forall|i: int, j: int| 0 <= i < j < t.len() ==> seq_lt(#[trigger] t[i], #[trigger] t[j])
}

/// Sorting with repeats removed lists exactly the texts given, each once,
/// in strictly increasing `str` order.
pub proof fn law_sort_dedup_sorted_same_texts(s: Seq<Seq<char>>)
    ensures
        strictly_sorted(sort_dedup(s)),
        forall|x: Seq<char>| #[trigger] sort_dedup(s).contains(x) <==> s.contains(x),
    decreases s.len(),
{
    if s.len() > 0 {
        let d = s.drop_last();
        let x = s.last();
        law_sort_dedup_sorted_same_texts(d);
        let t = sort_dedup(d);
        let p = unique_insert_pos(t, x);
        lemma_unique_insert_pos_spec(t, x);
        assert forall|y: Seq<char>| s.contains(y) <==> d.contains(y) || y == x by {
            if s.contains(y) {
                let k = choose|k: int| 0 <= k < s.len() && s[k] == y;
                if k < s.len() - 1 {
                    assert(d[k] == y);
                }
            }
            if d.contains(y) {
                let k = choose|k: int| 0 <= k < d.len() && d[k] == y;
                assert(s[k] == y);
            }
            if y == x {
                assert(s[s.len() - 1] == y);
            }
        }
        if p < t.len() && t[p] == x {
            assert(sort_dedup(s) == t);
            assert(t.contains(x));
        } else {
            let r = t.insert(p, x);
            assert(sort_dedup(s) == r);
            if p < t.len() {
                lemma_seq_lt_total(t[p], x);
            }
            assert forall|i: int, j: int| 0 <= i < j < r.len() implies seq_lt(#[trigger] r[i], #[trigger] r[j]) by {
                if j < p {
                    assert(r[i] == t[i] && r[j] == t[j]);
                } else if j == p {
                    assert(r[i] == t[i] && r[j] == x);
                } else if i < p {
                    assert(r[i] == t[i] && r[j] == t[j - 1]);
                    lemma_seq_lt_transitive(t[i], x, t[p]);
                    if j - 1 > p {
                        lemma_seq_lt_transitive(t[i], t[p], t[j - 1]);
                    }
                } else if i == p {
                    assert(r[i] == x && r[j] == t[j - 1]);
                    if j - 1 > p {
                        lemma_seq_lt_transitive(x, t[p], t[j - 1]);
                    }
                } else {
                    assert(r[i] == t[i - 1] && r[j] == t[j - 1]);
                }
            }
            assert forall|y: Seq<char>| #[trigger] r.contains(y) <==> t.contains(y) || y == x by {
                if r.contains(y) {
                    let k = choose|k: int| 0 <= k < r.len() && r[k] == y;
                    if k < p {
                        assert(t[k] == y);
                    } else if k > p {
                        assert(t[k - 1] == y);
                    }
                }
                if t.contains(y) {
                    let k = choose|k: int| 0 <= k < t.len() && t[k] == y;
                    if k < p {
                        assert(r[k] == y);
                    } else {
                        assert(r[k + 1] == y);
                    }
                }
                if y == x {
                    assert(r[p] == y);
                }
            }
        }
    }
}

/// Sorts texts in `str` order and drops repeats.
pub fn sort_dedup_strings(v: Vec<String>) -> (r: Vec<String>)
    ensures
        views(r@) == sort_dedup(views(v@)),
{
    let mut out: Vec<String> = Vec::new();
    let mut i: usize = 0;
    while i < v.len()
        invariant
            i <= v@.len(),
            views(out@) == sort_dedup(views(v@.subrange(0, i as int))),
        decreases v.len() - i,
    {
        proof {
            assert(views(v@.subrange(0, i + 1)).drop_last() =~= views(v@.subrange(0, i as int)));
            assert(views(v@.subrange(0, i + 1)).last() == v@[i as int]@);
        }
        let x = v[i].as_str();
        let mut k: usize = 0;
        while k < out.len() && str_lt(out[k].as_str(), x)
            invariant
                k <= out@.len(),
                forall|j: int| 0 <= j < k ==> seq_lt(#[trigger] views(out@)[j], x@),
            decreases out.len() - k,
        {
            k = k + 1;
        }
        proof {
            lemma_unique_insert_pos_is(views(out@), x@, k as int);
        }
        if k < out.len() && str_eq(out[k].as_str(), x) {
            assert(views(out@)[k as int] == x@);
        } else {
            let ghost prev = out@;
            out.insert(k, v[i].clone());
            proof {
                assert(views(out@) =~= views(prev).insert(k as int, x@));
            }
        }
        i = i + 1;
    }
    assert(v@.subrange(0, v@.len() as int) =~= v@);
    out
}


/// Each text trimmed, the blank ones dropped, in order.
pub open spec fn trimmed_nonblank(v: Seq<String>) -> Seq<Seq<char>>
    decreases v.len(),
{
    if v.len() == 0 {
        Seq::empty()
    } else if trim(v.last()@).len() > 0 {
        trimmed_nonblank(v.drop_last()).push(trim(v.last()@))
    } else {
        trimmed_nonblank(v.drop_last())
    }
}

/// The items trimmed, blank ones dropped (see `trimmed_nonblank`).
pub fn trimmed_vec(items: &Vec<String>) -> (r: Vec<String>)
    ensures
        views(r@) == trimmed_nonblank(items@),
{
    let mut out: Vec<String> = Vec::new();
    let mut i: usize = 0;
    while i < items.len()
        invariant
            i <= items@.len(),
            views(out@) == trimmed_nonblank(items@.subrange(0, i as int)),
        decreases items.len() - i,
    {
        proof {
            assert(items@.subrange(0, i + 1).drop_last() =~= items@.subrange(0, i as int));
            assert(items@.subrange(0, i + 1).last() == items@[i as int]);
        }
        let t = trim_str(items[i].as_str());
        if t.unicode_len() > 0 {
            let ghost prev = out@;
            let s = String::from_str(t);
            out.push(s);
            proof {
                lemma_views_push(prev, s);
            }
        }
        i = i + 1;
    }
    assert(items@.subrange(0, items@.len() as int) =~= items@);
    out
}

/// A list has a text exactly when its views contain it.
pub proof fn lemma_has_text_views(v: Seq<String>, s: Seq<char>)
    ensures
        has_text(v, s) <==> views(v).contains(s),
{
    if has_text(v, s) {
        let i = choose|i: int| 0 <= i < v.len() && #[trigger] v[i]@ == s;
        assert(views(v)[i] == s);
    }
    if views(v).contains(s) {
        let i = choose|i: int| 0 <= i < views(v).len() && views(v)[i] == s;
        assert(v[i]@ == s);
    }
}

/// `String::push` appends one `char` to the end of the string, as its
/// documentation states.
pub assume_specification[ String::push ](s: &mut String, ch: char)
    ensures
        final(s)@ == old(s)@.push(ch),
;

/// The text whose characters are `cs`.
pub fn string_of_chars(cs: &Vec<char>) -> (r: String)
    ensures
        r@ == cs@,
{
    let mut out = String::new();
    let mut i: usize = 0;
    while i < cs.len()
        invariant
            i <= cs@.len(),
            out@ == cs@.subrange(0, i as int),
        decreases cs.len() - i,
    {
        out.push(cs[i]);
        assert(out@ =~= cs@.subrange(0, i + 1));
        i = i + 1;
    }
    assert(cs@.subrange(0, cs@.len() as int) =~= cs@);
    out
}
/// Unicode `Alphabetic` or `Numeric`, as `char::is_alphanumeric` decides.
pub uninterp spec fn unicode_alphanumeric(c: char) -> bool;

/// Calls `char::is_alphanumeric`; its answer is named `unicode_alphanumeric`
/// of the character, a function of the character alone (the Unicode tables
/// are fixed).
#[verifier::external_body]
pub fn is_alphanumeric_char(c: char) -> (r: bool)
    ensures
        r == unicode_alphanumeric(c),
{
    c.is_alphanumeric()
}

} // verus!
