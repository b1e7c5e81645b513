//! Character and string helpers: ASCII case folding, case-insensitive
//! comparison, substring search, whitespace trimming, separator splitting,
//! and decimal number parsing.
//!
//! All specifications are stated over `Seq<char>` views.

use vstd::prelude::*;

verus! {

/// An ASCII upper-case letter.
pub open spec fn is_ascii_upper(c: char) -> bool {
    'A' <= c && c <= 'Z'
}

/// ASCII lower-casing of a single character; anything but `A`..`Z` is kept.
pub open spec fn lower_char(c: char) -> char {
    if is_ascii_upper(c) {
        ((c as int) + 32) as char
    } else {
        c
    }
}

/// ASCII lower-casing of a whole string.
pub open spec fn lower(s: Seq<char>) -> Seq<char> {
    Seq::new(s.len(), |i: int| lower_char(s[i]))
}

/// Executable ASCII lower-casing of one character.
pub fn lower_char_exec(c: char) -> (r: char)
    ensures
        r == lower_char(c),
{
    if 'A' <= c && c <= 'Z' {
        (((c as u32) + 32) as u8) as char
    } else {
        c
    }
}

/// True iff the two strings are equal after ASCII lower-casing.
pub fn eq_ignore_ascii_case(a: &str, b: &str) -> (r: bool)
    ensures
        r == (lower(a@) == lower(b@)),
{
    let a_len = a.unicode_len();
    let b_len = b.unicode_len();
    if a_len != b_len {
        assert(lower(a@).len() != lower(b@).len());
        return false;
    }
    let mut i: usize = 0;
    while i < a_len
        invariant
            i <= a_len,
            a_len == a@.len(),
            b_len == b@.len(),
            a_len == b_len,
            forall|j: int| 0 <= j < i ==> lower_char(a@[j]) == lower_char(b@[j]),
        decreases a_len - i,
    {
        let ca = a.get_char(i);
        let cb = b.get_char(i);
        if lower_char_exec(ca) != lower_char_exec(cb) {
            assert(lower(a@)[i as int] != lower(b@)[i as int]);
            return false;
        }
        i = i + 1;
    }
    assert(lower(a@) =~= lower(b@));
    true
}

/// True iff the two strings hold the same characters.
pub fn eq_str(a: &str, b: &str) -> (r: bool)
    ensures
        r == (a@ == b@),
{
    let a_len = a.unicode_len();
    let b_len = b.unicode_len();
    if a_len != b_len {
        return false;
    }
    let mut i: usize = 0;
    while i < a_len
        invariant
            i <= a_len,
            a_len == a@.len(),
            b_len == b@.len(),
            a_len == b_len,
            forall|j: int| 0 <= j < i ==> a@[j] == b@[j],
        decreases a_len - i,
    {
        if a.get_char(i) != b.get_char(i) {
            return false;
        }
        i = i + 1;
    }
    assert(a@ =~= b@);
    true
}

/// The character `c` occurs in `s`.
pub open spec fn contains_char(s: Seq<char>, c: char) -> bool {
    exists|i: int| 0 <= i < s.len() && s[i] == c
}

/// True iff the character `c` occurs in `s`.
pub fn contains_char_str(s: &str, c: char) -> (r: bool)
    ensures
        r == contains_char(s@, c),
{
    let len = s.unicode_len();
    let mut i: usize = 0;
    while i < len
        invariant
            i <= len,
            len == s@.len(),
            forall|j: int| 0 <= j < i ==> s@[j] != c,
        decreases len - i,
    {
        if s.get_char(i) == c {
            return true;
        }
        i = i + 1;
    }
    false
}

/// `needle` occurs as a contiguous run inside `hay`.
pub open spec fn contains_seq(hay: Seq<char>, needle: Seq<char>) -> bool {
    exists|i: int|
        0 <= i && i + needle.len() <= hay.len() && #[trigger] hay.subrange(i, i + needle.len())
            == needle
}

/// Checks whether `needle` matches `hay` at offset `start`, comparing the
/// characters of `hay` through `f`.
fn matches_at(hay: &str, needle: &str, start: usize, fold: bool) -> (r: bool)
    requires
        start + needle@.len() <= hay@.len(),
        hay@.len() <= usize::MAX,
    ensures
        fold ==> r == (lower(hay@).subrange(start as int, start + needle@.len()) == needle@),
        !fold ==> r == (hay@.subrange(start as int, start + needle@.len()) == needle@),
{
    let n = needle.unicode_len();
    let mut j: usize = 0;
    while j < n
        invariant
            j <= n,
            n == needle@.len(),
            start + n <= hay@.len(),
            hay@.len() <= usize::MAX,
            fold ==> forall|k: int| 0 <= k < j ==> lower_char(hay@[start + k]) == needle@[k],
            !fold ==> forall|k: int| 0 <= k < j ==> hay@[start + k] == needle@[k],
        decreases n - j,
    {
        let hc = hay.get_char(start + j);
        let hc = if fold {
            lower_char_exec(hc)
        } else {
            hc
        };
        if hc != needle.get_char(j) {
            if fold {
                assert(lower(hay@).subrange(start as int, start + n)[j as int] != needle@[j as int]);
            } else {
                assert(hay@.subrange(start as int, start + n)[j as int] != needle@[j as int]);
            }
            return false;
        }
        j = j + 1;
    }
    if fold {
        assert(lower(hay@).subrange(start as int, start + n) =~= needle@);
    } else {
        assert(hay@.subrange(start as int, start + n) =~= needle@);
    }
    true
}

/// Whether `needle` matches `hay` character-exactly starting at `start`.
pub fn matches_at_exact(hay: &str, needle: &str, start: usize) -> (r: bool)
    requires
        start + needle@.len() <= hay@.len(),
        hay@.len() <= usize::MAX,
    ensures
        r == (hay@.subrange(start as int, start + needle@.len()) == needle@),
{
    matches_at(hay, needle, start, false)
}

/// True iff `needle` occurs inside `hay` (character-exact).
pub fn contains_str(hay: &str, needle: &str) -> (r: bool)
    ensures
        r == contains_seq(hay@, needle@),
{
    contains_impl(hay, needle, false)
}

/// True iff `needle` occurs inside the ASCII lower-casing of `hay`; the
/// needle itself is compared as given.
pub fn contains_str_folded(hay: &str, needle: &str) -> (r: bool)
    ensures
        r == contains_seq(lower(hay@), needle@),
{
    contains_impl(hay, needle, true)
}

fn contains_impl(hay: &str, needle: &str, fold: bool) -> (r: bool)
    ensures
        fold ==> r == contains_seq(lower(hay@), needle@),
        !fold ==> r == contains_seq(hay@, needle@),
{
    let h = hay.unicode_len();
    let n = needle.unicode_len();
    if n > h {
        return false;
    }
    if n == 0 {
        proof {
            let w: int = 0;
            if fold {
                assert(lower(hay@).subrange(w, w + needle@.len()) =~= needle@);
            } else {
                assert(hay@.subrange(w, w + needle@.len()) =~= needle@);
            }
        }
        return true;
    }
    let mut i: usize = 0;
    while i <= h - n
        invariant
            1 <= n <= h,
            h == hay@.len(),
            n == needle@.len(),
            i <= h - n + 1,
            fold ==> forall|k: int|
                0 <= k < i ==> #[trigger] lower(hay@).subrange(k, k + needle@.len()) != needle@,
            !fold ==> forall|k: int|
                0 <= k < i ==> #[trigger] hay@.subrange(k, k + needle@.len()) != needle@,
        decreases h - i,
    {
        if matches_at(hay, needle, i, fold) {
            proof {
                if fold {
                    assert(contains_seq(lower(hay@), needle@));
                } else {
                    assert(contains_seq(hay@, needle@));
                }
            }
            return true;
        }
        i = i + 1;
    }
    false
}

/// A whitespace character, as trimmed away around list tokens.
pub open spec fn is_space(c: char) -> bool {
    c == ' ' || c == '\t' || c == '\n' || c == '\r'
}

/// The string without its leading whitespace.
pub open spec fn trim_front(s: Seq<char>) -> Seq<char>
    decreases s.len(),
{
    if s.len() > 0 && is_space(s[0]) {
        trim_front(s.drop_first())
    } else {
        s
    }
}

/// The string without its trailing whitespace.
pub open spec fn trim_back(s: Seq<char>) -> Seq<char>
    decreases s.len(),
{
    if s.len() > 0 && is_space(s.last()) {
        trim_back(s.drop_last())
    } else {
        s
    }
}

/// The string without leading and trailing whitespace.
pub open spec fn trim(s: Seq<char>) -> Seq<char> {
    trim_back(trim_front(s))
}

proof fn lemma_trim_front_skip(s: Seq<char>, a: int)
    requires
        0 <= a <= s.len(),
        forall|j: int| 0 <= j < a ==> is_space(s[j]),
        a == s.len() || !is_space(s[a]),
    ensures
        trim_front(s) == s.skip(a),
    decreases a,
{
    if a == 0 {
        assert(s.skip(0) =~= s);
    } else {
        assert(is_space(s[0]));
        lemma_trim_front_skip(s.drop_first(), a - 1);
        assert(s.drop_first().skip(a - 1) =~= s.skip(a));
    }
}

proof fn lemma_trim_back_take(s: Seq<char>, b: int)
    requires
        0 <= b <= s.len(),
        forall|j: int| b <= j < s.len() ==> is_space(s[j]),
        b == 0 || !is_space(s[b - 1]),
    ensures
        trim_back(s) == s.take(b),
    decreases s.len() - b,
{
    if b == s.len() {
        assert(s.take(b) =~= s);
    } else {
        assert(is_space(s.last()));
        lemma_trim_back_take(s.drop_last(), b);
        assert(s.drop_last().take(b) =~= s.take(b));
    }
}

/// Removes whitespace from both ends of `s`.
pub fn trim_str<'a>(s: &'a str) -> (r: &'a str)
    ensures
        r@ == trim(s@),
{
    let len = s.unicode_len();
    let mut a: usize = 0;
    while a < len && is_space_exec(s.get_char(a))
        invariant
            a <= len,
            len == s@.len(),
            forall|j: int| 0 <= j < a ==> is_space(s@[j]),
        decreases len - a,
    {
        a = a + 1;
    }
    proof {
        lemma_trim_front_skip(s@, a as int);
    }
    let mut b: usize = len;
    while b > a && is_space_exec(s.get_char(b - 1))
        invariant
            a <= b <= len,
            len == s@.len(),
            forall|j: int| 0 <= j < a ==> is_space(s@[j]),
            a == len || !is_space(s@[a as int]),
            forall|j: int| b <= j < len ==> is_space(s@[j]),
        decreases b,
    {
        b = b - 1;
    }
    proof {
        let t = s@.skip(a as int);
        if b == a {
            lemma_trim_back_take(t, 0);
        } else {
            assert(!is_space(t[b - a - 1])) by {
                assert(t[b - a - 1] == s@[b - 1]);
            }
            lemma_trim_back_take(t, b - a as int);
        }
        assert(t.take(b - a as int) =~= s@.subrange(a as int, b as int));
    }
    s.substring_char(a, b)
}

fn is_space_exec(c: char) -> (r: bool)
    ensures
        r == is_space(c),
{
    c == ' ' || c == '\t' || c == '\n' || c == '\r'
}

/// The segments of `s` between occurrences of `sep`; always non-empty.
pub open spec fn split_seq(s: Seq<char>, sep: char) -> Seq<Seq<char>>
    decreases s.len(),
{
    if s.len() == 0 {
        seq![s]
    } else if s[0] == sep {
        seq![Seq::empty()] + split_seq(s.drop_first(), sep)
    } else {
        let r = split_seq(s.drop_first(), sep);
        seq![seq![s[0]] + r[0]] + r.skip(1)
    }
}

proof fn lemma_split_nonempty(s: Seq<char>, sep: char)
    ensures
        split_seq(s, sep).len() >= 1,
    decreases s.len(),
{
    if s.len() > 0 {
        lemma_split_nonempty(s.drop_first(), sep);
    }
}

proof fn lemma_split_step(s: Seq<char>, sep: char, k: int)
    requires
        0 <= k < s.len(),
        forall|j: int| 0 <= j < k ==> s[j] != sep,
        s[k] == sep,
    ensures
        split_seq(s, sep) == seq![s.take(k)] + split_seq(s.skip(k + 1), sep),
    decreases k,
{
    if k == 0 {
        assert(s.take(0) =~= Seq::empty());
        assert(s.skip(1) =~= s.drop_first());
        assert(split_seq(s, sep) =~= seq![s.take(0)] + split_seq(s.skip(1), sep));
    } else {
        let d = s.drop_first();
        assert(forall|j: int| 0 <= j < k - 1 ==> d[j] == s[j + 1] && d[j] != sep);
        assert(d[k - 1] == s[k]);
        lemma_split_step(d, sep, k - 1);
        lemma_split_nonempty(d.skip(k), sep);
        let r = split_seq(d, sep);
        assert(r[0] == d.take(k - 1));
        assert(seq![s[0]] + d.take(k - 1) =~= s.take(k));
        assert(d.skip(k) =~= s.skip(k + 1));
        assert(r.skip(1) =~= split_seq(s.skip(k + 1), sep));
        assert(split_seq(s, sep) =~= seq![s.take(k)] + split_seq(s.skip(k + 1), sep));
    }
}

proof fn lemma_split_whole(s: Seq<char>, sep: char)
    requires
        forall|j: int| 0 <= j < s.len() ==> s[j] != sep,
    ensures
        split_seq(s, sep) == seq![s],
    decreases s.len(),
{
    if s.len() > 0 {
        let d = s.drop_first();
        assert(forall|j: int| 0 <= j < d.len() ==> d[j] == s[j + 1] && d[j] != sep);
        lemma_split_whole(d, sep);
        let r = split_seq(d, sep);
        assert(r[0] == d);
        assert(seq![s[0]] + d =~= s);
        assert(r.skip(1) =~= Seq::<Seq<char>>::empty());
        assert(split_seq(s, sep) =~= seq![s]);
    }
}

/// Splits `s` at each occurrence of `sep`.
pub fn split_str<'a>(s: &'a str, sep: char) -> (r: Vec<&'a str>)
    ensures
        r.deep_view() == split_seq(s@, sep),
{
    let len = s.unicode_len();
    let mut out: Vec<&'a str> = Vec::new();
    let mut start: usize = 0;
    let mut i: usize = 0;
    proof {
        assert(s@.skip(0) =~= s@);
        assert(out.deep_view() =~= Seq::<Seq<char>>::empty());
        assert(Seq::<Seq<char>>::empty() + split_seq(s@, sep) =~= split_seq(s@, sep));
    }
    while i < len
        invariant
            start <= i <= len,
            len == s@.len(),
            forall|j: int| start <= j < i ==> s@[j] != sep,
            split_seq(s@, sep) == out.deep_view() + split_seq(s@.skip(start as int), sep),
        decreases len - i,
    {
        if s.get_char(i) == sep {
            let token = s.substring_char(start, i);
            let ghost prev = out.deep_view();
            proof {
                let rest = s@.skip(start as int);
                assert(forall|j: int| 0 <= j < i - start ==> rest[j] == s@[start + j]);
                assert(rest[i - start] == s@[i as int]);
                lemma_split_step(rest, sep, i - start as int);
                assert(rest.take(i - start as int) =~= s@.subrange(start as int, i as int));
                assert(rest.skip(i - start + 1) =~= s@.skip(i + 1));
            }
            out.push(token);
            proof {
                assert(out.deep_view() =~= prev + seq![token@]);
                assert((prev + seq![token@]) + split_seq(s@.skip(i + 1), sep) =~= prev + (seq![
                    token@,
                ] + split_seq(s@.skip(i + 1), sep)));
            }
            start = i + 1;
        }
        i = i + 1;
    }
    let token = s.substring_char(start, len);
    let ghost prev = out.deep_view();
    proof {
        let rest = s@.skip(start as int);
        assert(forall|j: int| 0 <= j < rest.len() ==> rest[j] == s@[start + j]);
        lemma_split_whole(rest, sep);
        assert(rest =~= s@.subrange(start as int, len as int));
    }
    out.push(token);
    proof {
        assert(out.deep_view() =~= prev + seq![token@]);
        assert(prev + seq![token@] =~= prev + split_seq(s@.skip(start as int), sep));
    }
    out
}

/// A decimal digit.
pub open spec fn is_digit(c: char) -> bool {
    '0' <= c && c <= '9'
}

/// The numeric value of a decimal digit.
pub open spec fn digit_val(c: char) -> int {
    (c as int) - 48
}

/// Every character of `s` is a decimal digit.
pub open spec fn all_digits(s: Seq<char>) -> bool {
    forall|i: int| 0 <= i < s.len() ==> is_digit(s[i])
}

/// The value of a string of decimal digits, most significant first.
pub open spec fn dec_val(s: Seq<char>) -> int
    decreases s.len(),
{
    if s.len() == 0 {
        0
    } else {
        10 * dec_val(s.drop_last()) + digit_val(s.last())
    }
}

proof fn lemma_dec_val_nonneg(s: Seq<char>)
    requires
        all_digits(s),
    ensures
        dec_val(s) >= 0,
    decreases s.len(),
{
    if s.len() > 0 {
        lemma_dec_val_nonneg(s.drop_last());
    }
}

proof fn lemma_dec_val_take_step(s: Seq<char>, i: int)
    requires
        0 <= i < s.len(),
    ensures
        dec_val(s.take(i + 1)) == 10 * dec_val(s.take(i)) + digit_val(s[i]),
{
    assert(s.take(i + 1).drop_last() =~= s.take(i));
    assert(s.take(i + 1).last() == s[i]);
}

proof fn lemma_dec_val_take_mono(s: Seq<char>, i: int, j: int)
    requires
        all_digits(s),
        0 <= i <= j <= s.len(),
    ensures
        dec_val(s.take(i)) <= dec_val(s.take(j)),
    decreases j - i,
{
    if i < j {
        lemma_dec_val_take_mono(s, i, j - 1);
        lemma_dec_val_take_step(s, j - 1);
        assert(forall|k: int| 0 <= k < s.len() ==> is_digit(s[k]));
        assert(is_digit(s[j - 1]));
        lemma_dec_val_nonneg(s.take(j - 1));
    }
}

/// The result of parsing `s` as a decimal number no greater than `max`:
/// an optional leading `+`, then at least one digit, and no overflow.
pub open spec fn parse_dec(s: Seq<char>, max: int) -> Option<int> {
    let t = if s.len() > 0 && s[0] == '+' {
        s.drop_first()
    } else {
        s
    };
    if t.len() > 0 && all_digits(t) && dec_val(t) <= max {
        Some(dec_val(t))
    } else {
        None
    }
}

/// Parses a decimal number of at most `max`, mirroring `parse_dec`.
pub fn parse_dec_str(s: &str, max: u64) -> (r: Option<u64>)
    ensures
        r is Some <==> parse_dec(s@, max as int) is Some,
        r is Some ==> r->0 == parse_dec(s@, max as int)->0,
{
    let len = s.unicode_len();
    let ghost t = if s@.len() > 0 && s@[0] == '+' {
        s@.drop_first()
    } else {
        s@
    };
    let offset: usize = if len > 0 && s.get_char(0) == '+' {
        1
    } else {
        0
    };
    assert(t =~= s@.skip(offset as int));
    if len == offset {
        return None;
    }
    let mut acc: u128 = 0;
    let mut i: usize = offset;
    while i < len
        invariant
            offset <= i <= len,
            len == s@.len(),
            len > offset,
            t == s@.skip(offset as int),
            t == (if s@.len() > 0 && s@[0] == '+' {
                s@.drop_first()
            } else {
                s@
            }),
            forall|j: int| 0 <= j < i - offset ==> is_digit(t[j]),
            acc == dec_val(t.take(i - offset)),
            acc <= max,
        decreases len - i,
    {
        let c = s.get_char(i);
        if c < '0' || c > '9' {
            assert(!is_digit(t[i - offset]));
            assert(!all_digits(t));
            return None;
        }
        let d: u128 = ((c as u32) - 48) as u128;
        proof {
            lemma_dec_val_take_step(t, i - offset);
        }
        let next: u128 = acc * 10 + d;
        if next > max as u128 {
            proof {
                assert(forall|j: int| 0 <= j < i + 1 - offset ==> is_digit(t[j]));
                assert(all_digits(t.take(i + 1 - offset)));
                assert(dec_val(t.take(i + 1 - offset)) > max);
                assert(t.take(t.len() as int) =~= t);
                lemma_dec_val_take_mono_helper(t, i + 1 - offset);
            }
            return None;
        }
        acc = next;
        i = i + 1;
    }
    proof {
        assert(t.take(i - offset) =~= t);
        assert(all_digits(t));
    }
    Some(acc as u64)
}

proof fn lemma_dec_val_take_mono_helper(t: Seq<char>, i: int)
    requires
        0 <= i <= t.len(),
        forall|j: int| 0 <= j < i ==> is_digit(t[j]),
    ensures
        all_digits(t) ==> dec_val(t) >= dec_val(t.take(i)),
{
    if all_digits(t) {
        lemma_dec_val_take_mono(t, i, t.len() as int);
        assert(t.take(t.len() as int) =~= t);
    }
}

/// Parsing `s` as a 16-bit status code.
pub open spec fn parse_u16_spec(s: Seq<char>) -> Option<u16> {
    match parse_dec(s, u16::MAX as int) {
        Some(v) => Some(v as u16),
        None => None,
    }
}

/// Parses a 16-bit number, mirroring `parse_u16_spec`.
pub fn parse_u16_str(s: &str) -> (r: Option<u16>)
    ensures
        r == parse_u16_spec(s@),
{
    match parse_dec_str(s, 65535) {
        Some(v) => Some(v as u16),
        None => None,
    }
}

} // verus!
