use vstd::prelude::*;

verus! {

// Text is handled as sequences of `char`: a `&str` is turned into a `Vec<char>`
// once, and every step of the parsers below works on those characters.

/// `c` has the Unicode White_Space property: the characters that
/// `char::is_whitespace` accepts and that `str::trim` removes.
pub open spec fn is_space(c: char) -> bool {
    ||| '\u{9}' <= c <= '\u{d}'
    ||| c == ' '
    ||| c == '\u{85}'
    ||| c == '\u{a0}'
    ||| c == '\u{1680}'
    ||| '\u{2000}' <= c <= '\u{200a}'
    ||| c == '\u{2028}'
    ||| c == '\u{2029}'
    ||| c == '\u{202f}'
    ||| c == '\u{205f}'
    ||| c == '\u{3000}'
}

/// `s` without its leading white space.
pub open spec fn trim_start(s: Seq<char>) -> Seq<char>
    decreases s.len(),
{
    if s.len() > 0 && is_space(s[0]) {
        trim_start(s.drop_first())
    } else {
        s
    }
}

/// `s` without its trailing white space.
pub open spec fn trim_end(s: Seq<char>) -> Seq<char>
    decreases s.len(),
{
    if s.len() > 0 && is_space(s.last()) {
        trim_end(s.drop_last())
    } else {
        s
    }
}

/// `s` without leading and trailing white space, as `str::trim` gives it.
pub open spec fn trim(s: Seq<char>) -> Seq<char> {
    trim_end(trim_start(s))
}

/// The pieces of `s` between occurrences of `sep`, as `str::split` with a
/// `char` pattern yields them: `k` separators give `k + 1` pieces, empty
/// pieces included.
pub open spec fn split_on(s: Seq<char>, sep: char) -> Seq<Seq<char>>
    decreases s.len(),
{
    if s.len() == 0 {
        seq![Seq::<char>::empty()]
    } else {
        let prev = split_on(s.drop_last(), sep);
        if s.last() == sep {
            prev.push(Seq::<char>::empty())
        } else {
            prev.update(prev.len() - 1, prev.last().push(s.last()))
        }
    }
}

/// The index of the first `c` in `s`, if there is one.
pub open spec fn find_char(s: Seq<char>, c: char) -> Option<nat>
    decreases s.len(),
{
    if s.len() == 0 {
        None
    } else if s[0] == c {
        Some(0)
    } else {
        match find_char(s.drop_first(), c) {
            Some(i) => Some(i + 1),
            None => None,
        }
    }
}

/// `s` holds the scheme separator "://" at index `i`.
pub open spec fn scheme_sep_at(s: Seq<char>, i: int) -> bool {
    &&& 0 <= i
    &&& i + 3 <= s.len()
    &&& s[i] == ':'
    &&& s[i + 1] == '/'
    &&& s[i + 2] == '/'
}

/// The index of the first "://" in `s`, if there is one.
pub open spec fn find_scheme_sep(s: Seq<char>) -> Option<nat>
    decreases s.len(),
{
    if s.len() < 3 {
        None
    } else if scheme_sep_at(s, 0) {
        Some(0)
    } else {
        match find_scheme_sep(s.drop_first()) {
            Some(i) => Some(i + 1),
            None => None,
        }
    }
}

/// An ASCII decimal digit.
pub open spec fn is_digit(c: char) -> bool {
    '0' <= c <= '9'
}

/// Every character of `s` is an ASCII decimal digit.
pub open spec fn all_digits(s: Seq<char>) -> bool {
    forall|i: int| 0 <= i < s.len() ==> is_digit(#[trigger] s[i])
}

/// The value of a decimal digit.
pub open spec fn digit_value(c: char) -> int {
    (c as int) - ('0' as int)
}

/// The number that the decimal digits `s` spell, most significant first.
pub open spec fn digits_value(s: Seq<char>) -> nat
    decreases s.len(),
{
    if s.len() == 0 {
        0
    } else {
        (digits_value(s.drop_last()) * 10 + digit_value(s.last())) as nat
    }
}

/// What remains of a number's text once an optional leading '+' is dropped.
pub open spec fn unsigned_digits(s: Seq<char>) -> Seq<char> {
    if s.len() > 0 && s[0] == '+' {
        s.drop_first()
    } else {
        s
    }
}

/// What `str::parse::<u16>` gives for `s`: an optional '+', then at least one
/// ASCII digit and nothing else, of value at most 65535.
pub open spec fn parse_u16_spec(s: Seq<char>) -> Option<u16> {
    let d = unsigned_digits(s);
    if d.len() > 0 && all_digits(d) && digits_value(d) <= 65535 {
        Some(digits_value(d) as u16)
    } else {
        None
    }
}

/// The character of the decimal digit `d`.
pub open spec fn digit_char(d: nat) -> char {
    if d == 0 {
        '0'
    } else if d == 1 {
        '1'
    } else if d == 2 {
        '2'
    } else if d == 3 {
        '3'
    } else if d == 4 {
        '4'
    } else if d == 5 {
        '5'
    } else if d == 6 {
        '6'
    } else if d == 7 {
        '7'
    } else if d == 8 {
        '8'
    } else {
        '9'
    }
}

/// The decimal text of `n`, without sign or leading zeros, as `format!("{}", n)`
/// writes it.
pub open spec fn decimal(n: nat) -> Seq<char>
    decreases n,
{
    if n < 10 {
        seq![digit_char(n)]
    } else {
        decimal(n / 10).push(digit_char(n % 10))
    }
}

/// The name for what `str::to_lowercase` returns: the Unicode lowercase
/// mapping of the characters.
pub uninterp spec fn spec_to_lowercase(s: Seq<char>) -> Seq<char>;

/// Calls `str::to_lowercase`. Claimed: the result is the lowercase mapping of
/// exactly the characters of `s`; nothing is said of what that mapping is.
#[verifier::external_body]
fn lowercase(s: &str) -> (res: String)
    ensures
        res@ == spec_to_lowercase(s@),
{
    s.to_lowercase()
}

/// Collects characters into a `String` with `FromIterator`. Claimed: the
/// string holds exactly those characters, in order.
#[verifier::external_body]
fn string_from_chars(cs: &Vec<char>) -> (res: String)
    ensures
        res@ == cs@,
{
    cs.iter().collect()
}

/// The characters of `s`, in order.
pub fn chars_of(s: &str) -> (res: Vec<char>)
    ensures
        res@ == s@,
{
    let mut res: Vec<char> = Vec::new();
    for c in it: s.chars()
        invariant
            res@ == it.seq().take(it.index() as int),
    {
        res.push(c);
    }
    res
}

/// The `String` made of the characters `cs`.
pub fn to_string(cs: &Vec<char>) -> (res: String)
    ensures
        res@ == cs@,
{
    string_from_chars(cs)
}

/// The lowercase form of the text `cs`, as `str::to_lowercase` gives it.
pub fn to_lowercase(cs: &Vec<char>) -> (res: String)
    ensures
        res@ == spec_to_lowercase(cs@),
{
    let s = string_from_chars(cs);
    lowercase(s.as_str())
}

/// Whether `c` is white space, as `char::is_whitespace` decides it.
pub fn is_space_char(c: char) -> (res: bool)
    ensures
        res == is_space(c),
{
    ('\u{9}' <= c && c <= '\u{d}') || c == ' ' || c == '\u{85}' || c == '\u{a0}' || c
        == '\u{1680}' || ('\u{2000}' <= c && c <= '\u{200a}') || c == '\u{2028}' || c
        == '\u{2029}' || c == '\u{202f}' || c == '\u{205f}' || c == '\u{3000}'
}

/// The characters of `v` from index `lo` up to, not including, `hi`.
pub fn copy_range(v: &Vec<char>, lo: usize, hi: usize) -> (res: Vec<char>)
    requires
        lo <= hi <= v.len(),
    ensures
        res@ == v@.subrange(lo as int, hi as int),
{
    let mut res: Vec<char> = Vec::new();
    let mut k = lo;
    while k < hi
        invariant
            lo <= k <= hi <= v.len(),
            res@ == v@.subrange(lo as int, k as int),
        decreases hi - k,
    {
        res.push(v[k]);
        k += 1;
        assert(res@ =~= v@.subrange(lo as int, k as int));
    }
    res
}

proof fn lemma_trim_start_skip(s: Seq<char>, i: int)
    requires
        0 <= i <= s.len(),
        forall|k: int| 0 <= k < i ==> is_space(#[trigger] s[k]),
        i == s.len() || !is_space(s[i]),
    ensures
        trim_start(s) == s.skip(i),
    decreases i,
{
    if i == 0 {
        assert(s.skip(0) =~= s);
    } else {
        let t = s.drop_first();
        assert forall|k: int| 0 <= k < i - 1 implies is_space(#[trigger] t[k]) by {
            assert(t[k] == s[k + 1]);
        }
        lemma_trim_start_skip(t, i - 1);
        assert(t.skip(i - 1) =~= s.skip(i));
    }
}

proof fn lemma_trim_end_take(s: Seq<char>, j: int)
    requires
        0 <= j <= s.len(),
        forall|k: int| j <= k < s.len() ==> is_space(#[trigger] s[k]),
        j == 0 || !is_space(s[j - 1]),
    ensures
        trim_end(s) == s.take(j),
    decreases s.len() - j,
{
    if j == s.len() {
        assert(s.take(j) =~= s);
    } else {
        let t = s.drop_last();
        lemma_trim_end_take(t, j);
        assert(t.take(j) =~= s.take(j));
    }
}

/// `v` without leading and trailing white space.
pub fn trim_chars(v: &Vec<char>) -> (res: Vec<char>)
    ensures
        res@ == trim(v@),
{
    let n = v.len();
    let mut i: usize = 0;
    while i < n && is_space_char(v[i])
        invariant
            i <= n,
            n == v.len(),
            forall|k: int| 0 <= k < i ==> is_space(#[trigger] v@[k]),
        decreases n - i,
    {
        i += 1;
    }
    let mut j: usize = n;
    while j > i && is_space_char(v[j - 1])
        invariant
            i <= j <= n,
            n == v.len(),
            forall|k: int| j <= k < n ==> is_space(#[trigger] v@[k]),
        decreases j,
    {
        j -= 1;
    }
    proof {
        lemma_trim_start_skip(v@, i as int);
        let t = v@.skip(i as int);
        assert forall|k: int| j - i <= k < t.len() implies is_space(#[trigger] t[k]) by {
            assert(t[k] == v@[k + i]);
        }
        lemma_trim_end_take(t, j - i);
        assert(t.take(j - i) =~= v@.subrange(i as int, j as int));
    }
    copy_range(v, i, j)
}

proof fn lemma_split_nonempty(s: Seq<char>, sep: char)
    ensures
        split_on(s, sep).len() >= 1,
    decreases s.len(),
{
    if s.len() > 0 {
        lemma_split_nonempty(s.drop_last(), sep);
    }
}

/// The pieces of `v` between occurrences of `sep`.
pub fn split_chars(v: &Vec<char>, sep: char) -> (res: Vec<Vec<char>>)
    ensures
        res.len() == split_on(v@, sep).len(),
        forall|i: int| 0 <= i < res.len() ==> (#[trigger] res[i])@ == split_on(v@, sep)[i],
{
    let mut parts: Vec<Vec<char>> = Vec::new();
    let mut cur: Vec<char> = Vec::new();
    let mut k: usize = 0;
    assert(v@.take(0) =~= Seq::<char>::empty());
    while k < v.len()
        invariant
            k <= v.len(),
            split_on(v@.take(k as int), sep).len() == parts.len() + 1,
            forall|i: int|
                0 <= i < parts.len() ==> (#[trigger] parts[i])@ == split_on(v@.take(k as int), sep)[i],
            cur@ == split_on(v@.take(k as int), sep)[parts.len() as int],
        decreases v.len() - k,
    {
        let ghost before = v@.take(k as int);
        proof {
            assert(v@.take(k + 1).drop_last() =~= before);
        }
        let c = v[k];
        if c == sep {
            parts.push(cur);
            cur = Vec::new();
        } else {
            cur.push(c);
        }
        k += 1;
    }
    parts.push(cur);
    assert(v@.take(v.len() as int) =~= v@);
    parts
}

proof fn lemma_find_char(s: Seq<char>, c: char, i: int)
    requires
        0 <= i <= s.len(),
        forall|k: int| 0 <= k < i ==> #[trigger] s[k] != c,
        i == s.len() || s[i] == c,
    ensures
        find_char(s, c) == (if i == s.len() { None } else { Some(i as nat) }),
    decreases i,
{
    if i > 0 {
        let t = s.drop_first();
        assert forall|k: int| 0 <= k < i - 1 implies #[trigger] t[k] != c by {
            assert(t[k] == s[k + 1]);
        }
        lemma_find_char(t, c, i - 1);
    }
}

/// The index of the first `c` in `v`, if there is one.
pub fn find_char_index(v: &Vec<char>, c: char) -> (res: Option<usize>)
    ensures
        match res {
            Some(i) => find_char(v@, c) == Some(i as nat) && i < v.len(),
            None => find_char(v@, c) is None,
        },
{
    let mut k: usize = 0;
    while k < v.len() && v[k] != c
        invariant
            k <= v.len(),
            forall|m: int| 0 <= m < k ==> #[trigger] v@[m] != c,
        decreases v.len() - k,
    {
        k += 1;
    }
    proof {
        lemma_find_char(v@, c, k as int);
    }
    if k < v.len() {
        Some(k)
    } else {
        None
    }
}

proof fn lemma_find_scheme_sep(s: Seq<char>, i: int)
    requires
        0 <= i,
        i + 3 <= s.len() + 1,
        forall|k: int| 0 <= k < i ==> !#[trigger] scheme_sep_at(s, k),
        i + 3 == s.len() + 1 || scheme_sep_at(s, i),
    ensures
        find_scheme_sep(s) == (if i + 3 == s.len() + 1 { None } else { Some(i as nat) }),
    decreases i,
{
    if i > 0 {
        let t = s.drop_first();
        assert forall|k: int| 0 <= k < i - 1 implies !#[trigger] scheme_sep_at(t, k) by {
            assert(!scheme_sep_at(s, k + 1));
        }
        if i + 3 != s.len() + 1 {
            assert(scheme_sep_at(t, i - 1));
        }
        assert(!scheme_sep_at(s, 0));
        lemma_find_scheme_sep(t, i - 1);
    }
}

/// The index of the first "://" in `v`, if there is one.
pub fn find_scheme_sep_index(v: &Vec<char>) -> (res: Option<usize>)
    ensures
        match res {
            Some(i) => find_scheme_sep(v@) == Some(i as nat) && i + 3 <= v.len(),
            None => find_scheme_sep(v@) is None,
        },
{
    if v.len() < 3 {
        return None;
    }
    let last = v.len() - 2;
    let mut k: usize = 0;
    while k < last && !(v[k] == ':' && v[k + 1] == '/' && v[k + 2] == '/')
        invariant
            k <= last,
            last + 2 == v.len(),
            forall|m: int| 0 <= m < k ==> !#[trigger] scheme_sep_at(v@, m),
        decreases last - k,
    {
        k += 1;
    }
    proof {
        lemma_find_scheme_sep(v@, k as int);
    }
    if k < last {
        Some(k)
    } else {
        None
    }
}

proof fn lemma_digits_value_prefix(s: Seq<char>, k: int)
    requires
        all_digits(s),
        0 <= k <= s.len(),
    ensures
        digits_value(s.take(k)) <= digits_value(s),
    decreases s.len(),
{
    if k < s.len() {
        let t = s.drop_last();
        assert(is_digit(s[s.len() - 1]));
        assert(all_digits(t)) by {
            assert forall|i: int| 0 <= i < t.len() implies is_digit(#[trigger] t[i]) by {
                assert(t[i] == s[i]);
            }
        }
        lemma_digits_value_prefix(t, k);
        assert(t.take(k) =~= s.take(k));
    } else {
        assert(s.take(k) =~= s);
    }
}

/// Reads a port number from `v`, as `str::parse::<u16>` does.
pub fn parse_u16_chars(v: &Vec<char>) -> (res: Option<u16>)
    ensures
        res == parse_u16_spec(v@),
{
    let n = v.len();
    if n == 0 {
        return None;
    }
    let start: usize = if v[0] == '+' {
        1
    } else {
        0
    };
    let ghost d = unsigned_digits(v@);
    assert(d =~= v@.subrange(start as int, n as int));
    if start == n {
        return None;
    }
    let mut val: u32 = 0;
    let mut k: usize = start;
    assert(v@.subrange(start as int, start as int) =~= Seq::<char>::empty());
    while k < n
        invariant
            start <= k <= n,
            n == v.len(),
            d == v@.subrange(start as int, n as int),
            d == unsigned_digits(v@),
            val == digits_value(v@.subrange(start as int, k as int)),
            val <= 65535,
            all_digits(v@.subrange(start as int, k as int)),
        decreases n - k,
    {
        let c = v[k];
        if !('0' <= c && c <= '9') {
            assert(!is_digit(d[k - start]));
            return None;
        }
        let ghost prefix = v@.subrange(start as int, k + 1);
        assert(prefix.drop_last() =~= v@.subrange(start as int, k as int));
        assert(all_digits(prefix)) by {
            assert forall|i: int| 0 <= i < prefix.len() implies is_digit(#[trigger] prefix[i]) by {
                if i < prefix.len() - 1 {
                    assert(prefix[i] == v@.subrange(start as int, k as int)[i]);
                }
            }
        }
        let digit: u32 = (c as u32) - ('0' as u32);
        val = val * 10 + digit;
        if val > 65535 {
            proof {
                if all_digits(d) {
                    assert(d.take(k + 1 - start) =~= prefix);
                    lemma_digits_value_prefix(d, k + 1 - start);
                }
            }
            return None;
        }
        k += 1;
    }
    Some(val as u16)
}

proof fn lemma_digit_char(d: nat)
    requires
        d < 10,
    ensures
        is_digit(digit_char(d)),
        digit_value(digit_char(d)) == d,
{
}

/// Appends the decimal text of `n` to `out`.
pub fn push_decimal(out: &mut Vec<char>, n: u16)
    ensures
        final(out)@ == old(out)@ + decimal(n as nat),
    decreases n,
{
    if n >= 10 {
        push_decimal(out, n / 10);
    }
    let d = n % 10;
    let c = if d == 0 {
        '0'
    } else if d == 1 {
        '1'
    } else if d == 2 {
        '2'
    } else if d == 3 {
        '3'
    } else if d == 4 {
        '4'
    } else if d == 5 {
        '5'
    } else if d == 6 {
        '6'
    } else if d == 7 {
        '7'
    } else if d == 8 {
        '8'
    } else {
        '9'
    };
    out.push(c);
    assert(out@ =~= old(out)@ + decimal(n as nat));
}

/// `pat` occurs in `s` starting at index `i`.
pub open spec fn occurs_at(s: Seq<char>, pat: Seq<char>, i: int) -> bool {
    0 <= i && i + pat.len() <= s.len() && s.subrange(i, i + pat.len()) == pat
}

/// `pat` occurs somewhere in `s`, as `str::contains` with a string pattern
/// decides it.
pub open spec fn contains_text(s: Seq<char>, pat: Seq<char>) -> bool {
    exists|i: int| occurs_at(s, pat, i)
}

/// Whether `pat` occurs in `s`.
pub fn text_contains(s: &Vec<char>, pat: &Vec<char>) -> (res: bool)
    ensures
        res == contains_text(s@, pat@),
{
    let n = s.len();
    let m = pat.len();
    if m > n {
        assert forall|i: int| !occurs_at(s@, pat@, i) by {}
        return false;
    }
    let mut i: usize = 0;
    while i <= n - m
        invariant
            m <= n,
            n == s.len(),
            m == pat.len(),
            forall|k: int| 0 <= k < i ==> !#[trigger] occurs_at(s@, pat@, k),
        decreases n - m + 1 - i,
    {
        let mut j: usize = 0;
        while j < m && s[i + j] == pat[j]
            invariant
                j <= m,
                i + m <= n,
                n == s.len(),
                m == pat.len(),
                forall|q: int| 0 <= q < j ==> s@[i + q] == pat@[q],
            decreases m - j,
        {
            j += 1;
        }
        if j == m {
            assert(s@.subrange(i as int, i + m) =~= pat@);
            assert(occurs_at(s@, pat@, i as int));
            return true;
        }
        assert(s@.subrange(i as int, i + m)[j as int] != pat@[j as int]);
        i += 1;
    }
    assert forall|k: int| !occurs_at(s@, pat@, k) by {
        if 0 <= k < i {
        }
    }
    false
}

/// Reading back the decimal text of a number gives the number: the text that
/// `push_decimal` writes is what `parse_u16_chars` accepts, with the same value.
pub proof fn law_decimal_parses_back(n: u16)
    ensures
        parse_u16_spec(decimal(n as nat)) == Some(n),
        decimal(n as nat).len() > 0,
        all_digits(decimal(n as nat)),
{
    lemma_decimal(n as nat);
}

proof fn lemma_decimal(n: nat)
    ensures
        decimal(n).len() > 0,
        all_digits(decimal(n)),
        digits_value(decimal(n)) == n,
    decreases n,
{
    if n < 10 {
        lemma_digit_char(n);
        assert(decimal(n).drop_last() =~= Seq::<char>::empty());
        assert(decimal(n).last() == digit_char(n));
        assert(digits_value(decimal(n)) == digits_value(Seq::<char>::empty()) * 10 + digit_value(
            digit_char(n),
        ));
    } else {
        lemma_decimal(n / 10);
        lemma_digit_char(n % 10);
        let d = decimal(n);
        assert(d.drop_last() =~= decimal(n / 10));
        assert(d.last() == digit_char(n % 10));
        assert(n == (n / 10) * 10 + n % 10);
        assert(digits_value(d) == digits_value(decimal(n / 10)) * 10 + digit_value(
            digit_char(n % 10),
        ));
        assert forall|i: int| 0 <= i < d.len() implies is_digit(#[trigger] d[i]) by {
            if i < d.len() - 1 {
                assert(d[i] == decimal(n / 10)[i]);
            }
        }
    }
}

/// Splitting text joined at a separator gives the pieces of each side, the
/// last piece of the left side and the first of the right kept apart.
pub proof fn lemma_split_append(a: Seq<char>, b: Seq<char>, sep: char)
    ensures
        split_on(a + seq![sep] + b, sep) == split_on(a, sep) + split_on(b, sep),
    decreases b.len(),
{
    let s = a + seq![sep] + b;
    if b.len() == 0 {
        assert(s.drop_last() =~= a);
        assert(split_on(b, sep) =~= seq![Seq::<char>::empty()]);
        assert(split_on(s, sep) =~= split_on(a, sep) + split_on(b, sep));
    } else {
        let b0 = b.drop_last();
        assert(s.drop_last() =~= a + seq![sep] + b0);
        lemma_split_append(a, b0, sep);
        lemma_split_nonempty(b0, sep);
        lemma_split_nonempty(a, sep);
        let x = split_on(a, sep);
        let y = split_on(b0, sep);
        assert(s.last() == b.last());
        if b.last() == sep {
            assert(split_on(s, sep) =~= x + split_on(b, sep));
        } else {
            let xy = x + y;
            assert(xy.last() == y.last());
            assert(xy.update(xy.len() - 1, xy.last().push(b.last())) =~= x + y.update(
                y.len() - 1,
                y.last().push(b.last()),
            ));
        }
    }
}

/// Text without the separator is a single piece.
pub proof fn lemma_split_no_sep(s: Seq<char>, sep: char)
    requires
        forall|i: int| 0 <= i < s.len() ==> s[i] != sep,
    ensures
        split_on(s, sep) == seq![s],
    decreases s.len(),
{
    if s.len() > 0 {
        lemma_split_no_sep(s.drop_last(), sep);
        assert(s.last() != sep);
        assert(s.drop_last().push(s.last()) =~= s);
        assert(seq![s.drop_last()].update(0, s.drop_last().push(s.last())) =~= seq![s]);
    } else {
        assert(s =~= Seq::<char>::empty());
    }
}

/// The first `c` of text whose first `i` characters hold none, followed by `c`.
pub proof fn lemma_find_char_at(s: Seq<char>, c: char, i: int)
    requires
        0 <= i < s.len(),
        forall|k: int| 0 <= k < i ==> #[trigger] s[k] != c,
        s[i] == c,
    ensures
        find_char(s, c) == Some(i as nat),
{
    lemma_find_char(s, c, i);
}

/// Text without "://" has no scheme separator.
pub proof fn lemma_no_scheme_sep(s: Seq<char>)
    requires
        forall|k: int| !#[trigger] scheme_sep_at(s, k),
    ensures
        find_scheme_sep(s) is None,
{
    if s.len() >= 2 {
        lemma_find_scheme_sep(s, s.len() - 2);
    }
}

/// The first "://" of text whose first `i` positions hold none.
pub proof fn lemma_scheme_sep_at(s: Seq<char>, i: int)
    requires
        0 <= i,
        forall|k: int| 0 <= k < i ==> !#[trigger] scheme_sep_at(s, k),
        scheme_sep_at(s, i),
    ensures
        find_scheme_sep(s) == Some(i as nat),
{
    lemma_find_scheme_sep(s, i);
}

/// The first `c` found is a `c`, and none comes before it.
pub proof fn lemma_find_char_found(s: Seq<char>, c: char)
    ensures
        find_char(s, c) matches Some(j) ==> j < s.len() && s[j as int] == c && forall|k: int|
            0 <= k < j ==> #[trigger] s[k] != c,
    decreases s.len(),
{
    if s.len() > 0 && s[0] != c {
        let t = s.drop_first();
        lemma_find_char_found(t, c);
        if let Some(j) = find_char(t, c) {
            assert forall|k: int| 0 <= k < j + 1 implies #[trigger] s[k] != c by {
                if k > 0 {
                    assert(s[k] == t[k - 1]);
                }
            }
        }
    }
}

/// No piece of a split holds the separator.
pub proof fn lemma_split_pieces_lack_sep(s: Seq<char>, sep: char)
    ensures
        forall|i: int, k: int|
            0 <= i < split_on(s, sep).len() && 0 <= k < split_on(s, sep)[i].len()
                ==> #[trigger] split_on(s, sep)[i][k] != sep,
    decreases s.len(),
{
    if s.len() > 0 {
        let prev = split_on(s.drop_last(), sep);
        lemma_split_pieces_lack_sep(s.drop_last(), sep);
        lemma_split_nonempty(s.drop_last(), sep);
        let cur = split_on(s, sep);
        assert forall|i: int, k: int|
            0 <= i < cur.len() && 0 <= k < cur[i].len() implies #[trigger] cur[i][k] != sep by {
            if s.last() == sep {
                if i < prev.len() {
                    assert(cur[i] == prev[i]);
                }
            } else {
                if i < prev.len() - 1 {
                    assert(cur[i] == prev[i]);
                } else {
                    assert(cur[i] == prev.last().push(s.last()));
                    if k < prev.last().len() {
                        assert(cur[i][k] == prev[prev.len() - 1][k]);
                    }
                }
            }
        }
    }
}

proof fn trim_start_index(s: Seq<char>) -> (i: int)
    ensures
        0 <= i <= s.len(),
        forall|k: int| 0 <= k < i ==> is_space(#[trigger] s[k]),
        i == s.len() || !is_space(s[i]),
        trim_start(s) == s.skip(i),
    decreases s.len(),
{
    if s.len() > 0 && is_space(s[0]) {
        let t = s.drop_first();
        let j = trim_start_index(t);
        assert forall|k: int| 0 <= k < j + 1 implies is_space(#[trigger] s[k]) by {
            if k > 0 {
                assert(s[k] == t[k - 1]);
            }
        }
        assert(t.skip(j) =~= s.skip(j + 1));
        j + 1
    } else {
        assert(s.skip(0) =~= s);
        0
    }
}

proof fn trim_end_index(s: Seq<char>) -> (j: int)
    ensures
        0 <= j <= s.len(),
        forall|k: int| j <= k < s.len() ==> is_space(#[trigger] s[k]),
        j == 0 || !is_space(s[j - 1]),
        trim_end(s) == s.take(j),
    decreases s.len(),
{
    if s.len() > 0 && is_space(s.last()) {
        let t = s.drop_last();
        let j = trim_end_index(t);
        assert forall|k: int| j <= k < s.len() implies is_space(#[trigger] s[k]) by {
            if k < s.len() - 1 {
                assert(s[k] == t[k]);
            }
        }
        assert(t.take(j) =~= s.take(j));
        j
    } else {
        assert(s.take(s.len() as int) =~= s);
        s.len() as int
    }
}

/// Trimming keeps a stretch of the text and removes only white space around
/// it: the result is `s[i..j]` with everything before `i` and from `j` on white
/// space, and the result is empty or starts and ends with a character that is
/// not white space.
pub proof fn law_trim_removes_only_outer_space(s: Seq<char>)
    ensures
        exists|i: int, j: int|
            #![trigger s.subrange(i, j)]
            0 <= i <= j <= s.len() && trim(s) == s.subrange(i, j) && (forall|k: int|
                0 <= k < i ==> is_space(#[trigger] s[k])) && (forall|k: int|
                j <= k < s.len() ==> is_space(#[trigger] s[k])),
        trim(s).len() == 0 || (!is_space(trim(s)[0]) && !is_space(trim(s).last())),
{
    let i = trim_start_index(s);
    let t = s.skip(i);
    let j = trim_end_index(t);
    assert(t.take(j) =~= s.subrange(i, i + j));
    assert forall|k: int| i + j <= k < s.len() implies is_space(#[trigger] s[k]) by {
        assert(s[k] == t[k - i]);
    }
    if j > 0 {
        assert(trim(s)[0] == s[i]);
        assert(trim(s).last() == t[j - 1]);
    }
    assert(0 <= i <= i + j <= s.len() && trim(s) == s.subrange(i, i + j));
}

/// A port text of an optional '+' and decimal digits of value at most 65535 is
/// read as that value, leading zeros allowed; digits of a larger value are
/// refused.
pub proof fn law_port_text_accepted(n: u16, big: nat)
    ensures
        parse_u16_spec(decimal(n as nat)) == Some(n),
        parse_u16_spec(seq!['+'] + decimal(n as nat)) == Some(n),
        parse_u16_spec(seq!['0'] + decimal(n as nat)) == Some(n),
        big > 65535 ==> parse_u16_spec(decimal(big)) is None,
{
    lemma_decimal(n as nat);
    lemma_decimal(big);
    let d = decimal(n as nat);
    assert((seq!['+'] + d).drop_first() =~= d);
    let z = seq!['0'] + d;
    assert(z[0] == '0');
    assert(all_digits(z)) by {
        assert forall|i: int| 0 <= i < z.len() implies is_digit(#[trigger] z[i]) by {
            if i > 0 {
                assert(z[i] == d[i - 1]);
            }
        }
    }
    lemma_leading_zero(d);
    assert(d[0] != '+') by {
        assert(is_digit(d[0]));
    }
    assert(decimal(big)[0] != '+') by {
        assert(is_digit(decimal(big)[0]));
    }
}

proof fn lemma_leading_zero(d: Seq<char>)
    requires
        all_digits(d),
    ensures
        digits_value(seq!['0'] + d) == digits_value(d),
    decreases d.len(),
{
    if d.len() == 0 {
        let z = seq!['0'];
        assert(z.drop_last() =~= Seq::<char>::empty());
        assert(seq!['0'] + d =~= z);
        assert(digits_value(z) == digits_value(Seq::<char>::empty()) * 10 + digit_value('0'));
    } else {
        let z = seq!['0'] + d;
        assert(z.drop_last() =~= seq!['0'] + d.drop_last());
        assert(z.last() == d.last());
        assert(is_digit(d[d.len() - 1]));
        assert(all_digits(d.drop_last())) by {
            assert forall|i: int| 0 <= i < d.len() - 1 implies is_digit(#[trigger] d.drop_last()[i]) by {
                assert(d.drop_last()[i] == d[i]);
            }
        }
        lemma_leading_zero(d.drop_last());
        assert(digits_value(z) == digits_value(z.drop_last()) * 10 + digit_value(z.last()));
        assert(digits_value(d) == digits_value(d.drop_last()) * 10 + digit_value(d.last()));
    }
}

/// A port text is refused when it is empty, is a lone '+', or holds a
/// character that is not an ASCII digit anywhere but a leading '+'.
pub proof fn law_port_text_refused(s: Seq<char>, i: int)
    ensures
        parse_u16_spec(Seq::<char>::empty()) is None,
        parse_u16_spec(seq!['+']) is None,
        0 <= i < s.len() && !('0' <= s[i] <= '9') && !(i == 0 && s[i] == '+') ==> parse_u16_spec(
            s,
        ) is None,
{
    assert(seq!['+'].drop_first() =~= Seq::<char>::empty());
    if 0 <= i < s.len() && !('0' <= s[i] <= '9') && !(i == 0 && s[i] == '+') {
        let d = unsigned_digits(s);
        if s.len() > 0 && s[0] == '+' {
            assert(d[i - 1] == s[i]);
            assert(!is_digit(d[i - 1]));
        } else {
            assert(!is_digit(d[i]));
        }
    }
}

proof fn lemma_decimal_first(n: nat)
    ensures
        n >= 1 ==> decimal(n)[0] != '0',
        decimal(n).len() >= 1,
    decreases n,
{
    if n >= 10 {
        lemma_decimal_first(n / 10);
        assert(decimal(n)[0] == decimal(n / 10)[0]);
    }
}

/// The decimal text of a number is its digits without leading zeros: it spells
/// the number, and only zero itself starts with '0'.
pub proof fn law_decimal_is_canonical(n: nat)
    ensures
        all_digits(decimal(n)),
        digits_value(decimal(n)) == n,
        decimal(n).len() >= 1,
        decimal(n).len() > 1 || n < 10,
        n >= 1 ==> decimal(n)[0] != '0',
    decreases n,
{
    lemma_decimal(n);
    lemma_decimal_first(n);
    if n >= 10 {
        lemma_decimal_first(n / 10);
    }
}

} // verus!
