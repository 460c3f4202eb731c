use vstd::prelude::*;

verus! {

/// Unicode `White_Space` code points, the characters that `char::is_whitespace` accepts.
pub open spec fn is_white_space(c: char) -> bool {
    let n = c as u32;
    ||| 0x09 <= n <= 0x0d
    ||| n == 0x20
    ||| n == 0x85
    ||| n == 0xa0
    ||| n == 0x1680
    ||| 0x2000 <= n <= 0x200a
    ||| n == 0x2028
    ||| n == 0x2029
    ||| n == 0x202f
    ||| n == 0x205f
    ||| n == 0x3000
}

/// `s` without its leading white space.
pub open spec fn trim_start(s: Seq<char>) -> Seq<char>
    decreases s.len(),
{
    if s.len() > 0 && is_white_space(s[0]) {
        trim_start(s.drop_first())
    } else {
        s
    }
}

/// `s` without its trailing white space.
pub open spec fn trim_end(s: Seq<char>) -> Seq<char>
    decreases s.len(),
{
    if s.len() > 0 && is_white_space(s.last()) {
        trim_end(s.drop_last())
    } else {
        s
    }
}

/// `s` without leading and trailing white space, as `str::trim` gives it.
pub open spec fn trim(s: Seq<char>) -> Seq<char> {
    trim_end(trim_start(s))
}

/// An ASCII upper-case letter mapped to its lower-case form; every other character unchanged.
pub open spec fn ascii_lower(c: char) -> char {
    if 'A' <= c <= 'Z' {
        ((c as u32) + 32) as char
    } else {
        c
    }
}

/// `s` with every ASCII upper-case letter lowered, as `str::to_ascii_lowercase` gives it.
pub open spec fn ascii_lowercase(s: Seq<char>) -> Seq<char> {
    s.map_values(|c: char| ascii_lower(c))
}

/// `s` with every `from` replaced by `to`.
pub open spec fn replace_char(s: Seq<char>, from: char, to: char) -> Seq<char> {
    s.map_values(|c: char| if c == from { to } else { c })
}

/// `s` with the non-overlapping occurrences of `pattern`, found from the left, replaced by
/// `replacement`, as `str::replace` gives it for a non-empty pattern.
pub open spec fn replace_all(s: Seq<char>, pattern: Seq<char>, replacement: Seq<char>) -> Seq<char>
    decreases s.len(),
{
    if pattern.len() == 0 || s.len() < pattern.len() {
        s
    } else if s.take(pattern.len() as int) == pattern {
        replacement + replace_all(s.skip(pattern.len() as int), pattern, replacement)
    } else {
        seq![s[0]] + replace_all(s.drop_first(), pattern, replacement)
    }
}

/// Replacing a pattern leaves alone a text that never holds the pattern's first character.
pub proof fn lemma_replace_all_without_first_char(
    s: Seq<char>,
    pattern: Seq<char>,
    replacement: Seq<char>,
)
    requires
        pattern.len() > 0,
        forall|k: int| 0 <= k < s.len() ==> s[k] != pattern[0],
    ensures
        replace_all(s, pattern, replacement) == s,
    decreases s.len(),
{
    if s.len() >= pattern.len() {
        assert(s.take(pattern.len() as int)[0] == s[0]);
        assert(s.take(pattern.len() as int) != pattern);
        assert forall|k: int| 0 <= k < s.drop_first().len() implies s.drop_first()[k] != pattern[0] by {
            assert(s.drop_first()[k] == s[k + 1]);
        }
        lemma_replace_all_without_first_char(s.drop_first(), pattern, replacement);
        assert(seq![s[0]] + s.drop_first() =~= s);
    }
}

/// Whether `s` begins with `prefix`.
pub open spec fn has_prefix(s: Seq<char>, prefix: Seq<char>) -> bool {
    prefix.len() <= s.len() && s.take(prefix.len() as int) == prefix
}

/// The characters of `s`, in order.
pub fn chars_of(s: &str) -> (chars: Vec<char>)
    ensures
        chars@ == s@,
{
    let n = s.unicode_len();
    let mut chars: Vec<char> = Vec::new();
    let mut i: usize = 0;
    while i < n
        invariant
            n == s@.len(),
            i <= n,
            chars@ == s@.take(i as int),
        decreases n - i,
    {
        let c = s.get_char(i);
        chars.push(c);
        i = i + 1;
        assert(chars@ =~= s@.take(i as int));
    }
    assert(s@.take(n as int) =~= s@);
    chars
}

/// Lower-cases one ASCII letter.
pub fn lower_ascii_char(c: char) -> (lowered: char)
    ensures
        lowered == ascii_lower(c),
{
    if 'A' <= c && c <= 'Z' {
        let code: u8 = (c as u8) + 32;
        code as char
    } else {
        c
    }
}


/// The decimal digit character of `d` (which is below ten).
pub open spec fn digit_char(d: nat) -> char {
    (('0' as u32) + d) as char
}

/// The decimal representation of `n`, without sign or leading zeros, as `Display` writes it.
pub open spec fn decimal(n: nat) -> Seq<char>
    decreases n,
{
    if n < 10 {
        seq![digit_char(n)]
    } else {
        decimal(n / 10).push(digit_char(n % 10))
    }
}

/// The number that a string of decimal digits stands for.
pub open spec fn digits_value(s: Seq<char>) -> int
    decreases s.len(),
{
    if s.len() == 0 {
        0
    } else {
        digits_value(s.drop_last()) * 10 + ((s.last() as u32) - ('0' as u32))
    }
}

/// A number's decimal text is made of digits only, has no leading zero (but for zero
/// itself), and reads back as the number.
pub proof fn lemma_decimal_reads_back(n: nat)
    ensures
        decimal(n).len() > 0,
        forall|k: int| 0 <= k < decimal(n).len() ==> '0' <= #[trigger] decimal(n)[k] <= '9',
        n > 0 ==> decimal(n)[0] != '0',
        digits_value(decimal(n)) == n,
    decreases n,
{
    let last = digit_char(n % 10);
    assert((last as u32) == 48 + n % 10);
    if n < 10 {
        assert(('0' as u32) == 48);
        assert(decimal(n).drop_last().len() == 0);
        assert(digits_value(decimal(n).drop_last()) == 0);
    }
    if n >= 10 {
        lemma_decimal_reads_back(n / 10);
        let d = decimal(n);
        assert(d.drop_last() =~= decimal(n / 10));
        assert(d[0] == decimal(n / 10)[0]);
        assert(n == (n / 10) * 10 + n % 10);
        assert(('0' as u32) == 48);
        assert(d.last() == last);
        assert(digits_value(d) == digits_value(d.drop_last()) * 10 + ((d.last() as u32) - ('0' as u32)));
        assert forall|k: int| 0 <= k < d.len() implies '0' <= #[trigger] d[k] <= '9' by {
            if k < d.len() - 1 {
                assert(d[k] == decimal(n / 10)[k]);
            }
        }
    }
}

/// Whether `c` is white space in the sense of `char::is_whitespace`.
pub fn white_space(c: char) -> (ws: bool)
    ensures
        ws == is_white_space(c),
{
    let n = c as u32;
    (0x09 <= n && n <= 0x0d) || n == 0x20 || n == 0x85 || n == 0xa0 || n == 0x1680 || (0x2000
        <= n && n <= 0x200a) || n == 0x2028 || n == 0x2029 || n == 0x202f || n == 0x205f || n
        == 0x3000
}

proof fn lemma_trim_start_skip(s: Seq<char>, i: int)
    requires
        0 <= i <= s.len(),
        forall|k: int| 0 <= k < i ==> is_white_space(#[trigger] s[k]),
    ensures
        trim_start(s) == trim_start(s.skip(i)),
    decreases i,
{
    if i > 0 {
        assert(s.drop_first().skip(i - 1) =~= s.skip(i));
        lemma_trim_start_skip(s.drop_first(), i - 1);
    } else {
        assert(s.skip(0) =~= s);
    }
}

proof fn lemma_trim_end_take(s: Seq<char>, m: int)
    requires
        0 <= m <= s.len(),
        forall|k: int| m <= k < s.len() ==> is_white_space(#[trigger] s[k]),
    ensures
        trim_end(s) == trim_end(s.take(m)),
    decreases s.len() - m,
{
    if m < s.len() {
        assert(s.drop_last().take(m) =~= s.take(m));
        lemma_trim_end_take(s.drop_last(), m);
    } else {
        assert(s.take(m) =~= s);
    }
}

/// `chars` without leading and trailing white space.
pub fn trimmed(chars: &Vec<char>) -> (out: Vec<char>)
    ensures
        out@ == trim(chars@),
{
    let n = chars.len();
    let mut i: usize = 0;
    while i < n && white_space(chars[i])
        invariant
            n == chars@.len(),
            i <= n,
            forall|k: int| 0 <= k < i ==> is_white_space(#[trigger] chars@[k]),
        decreases n - i,
    {
        i = i + 1;
    }
    proof {
        lemma_trim_start_skip(chars@, i as int);
    }
    let ghost rest = chars@.skip(i as int);
    assert(trim_start(chars@) == rest) by {
        if rest.len() > 0 {
            assert(rest[0] == chars@[i as int]);
        }
    }
    let mut j: usize = n;
    while j > i && white_space(chars[j - 1])
        invariant
            n == chars@.len(),
            i <= j <= n,
            rest == chars@.skip(i as int),
            forall|k: int| j <= k < n ==> is_white_space(#[trigger] chars@[k]),
        decreases j,
    {
        j = j - 1;
    }
    proof {
        assert forall|k: int| (j - i) <= k < rest.len() implies is_white_space(#[trigger] rest[k]) by {
            assert(rest[k] == chars@[k + i]);
        }
        lemma_trim_end_take(rest, (j - i) as int);
        let t = rest.take((j - i) as int);
        if t.len() > 0 {
            assert(t.last() == chars@[j - 1]);
        }
    }
    let mut out: Vec<char> = Vec::new();
    let mut k: usize = i;
    while k < j
        invariant
            n == chars@.len(),
            i <= k <= j <= n,
            out@ == chars@.subrange(i as int, k as int),
        decreases j - k,
    {
        out.push(chars[k]);
        k = k + 1;
        assert(out@ =~= chars@.subrange(i as int, k as int));
    }
    assert(out@ =~= rest.take((j - i) as int));
    out
}

/// `chars` with every ASCII upper-case letter lowered.
pub fn lowercased(chars: &Vec<char>) -> (out: Vec<char>)
    ensures
        out@ == ascii_lowercase(chars@),
{
    let mut out: Vec<char> = Vec::new();
    let mut k: usize = 0;
    while k < chars.len()
        invariant
            k <= chars@.len(),
            out@ == ascii_lowercase(chars@.take(k as int)),
        decreases chars@.len() - k,
    {
        let c = lower_ascii_char(chars[k]);
        out.push(c);
        k = k + 1;
        assert(out@ =~= ascii_lowercase(chars@.take(k as int)));
    }
    assert(chars@.take(k as int) =~= chars@);
    out
}

/// `chars` with every `from` replaced by `to`.
pub fn with_char_replaced(chars: &Vec<char>, from: char, to: char) -> (out: Vec<char>)
    ensures
        out@ == replace_char(chars@, from, to),
{
    let mut out: Vec<char> = Vec::new();
    let mut k: usize = 0;
    while k < chars.len()
        invariant
            k <= chars@.len(),
            out@ == replace_char(chars@.take(k as int), from, to),
        decreases chars@.len() - k,
    {
        let c = chars[k];
        if c == from {
            out.push(to);
        } else {
            out.push(c);
        }
        k = k + 1;
        assert(out@ =~= replace_char(chars@.take(k as int), from, to));
    }
    assert(chars@.take(k as int) =~= chars@);
    out
}

/// Whether `chars` holds `pattern` at position `at`.
pub fn matches_at(chars: &Vec<char>, at: usize, pattern: &Vec<char>) -> (found: bool)
    requires
        at + pattern@.len() <= chars@.len(),
    ensures
        found == (chars@.subrange(at as int, at + pattern@.len()) == pattern@),
{
    let n = chars.len();
    let mut k: usize = 0;
    while k < pattern.len()
        invariant
            n == chars@.len(),
            at + pattern@.len() <= chars@.len(),
            k <= pattern@.len(),
            forall|m: int| 0 <= m < k ==> chars@[at + m] == pattern@[m],
        decreases pattern@.len() - k,
    {
        if chars[at + k] != pattern[k] {
            assert(chars@.subrange(at as int, at + pattern@.len())[k as int] != pattern@[k as int]);
            return false;
        }
        k = k + 1;
    }
    assert(chars@.subrange(at as int, at + pattern@.len()) =~= pattern@);
    true
}

/// Whether `chars` begins with `prefix`.
pub fn starts_with(chars: &Vec<char>, prefix: &Vec<char>) -> (found: bool)
    ensures
        found == has_prefix(chars@, prefix@),
{
    if prefix.len() > chars.len() {
        false
    } else {
        matches_at(chars, 0, prefix)
    }
}

/// Whether `a` and `b` hold the same characters.
pub fn same_chars(a: &Vec<char>, b: &Vec<char>) -> (equal: bool)
    ensures
        equal == (a@ == b@),
{
    if a.len() != b.len() {
        false
    } else {
        let r = matches_at(a, 0, b);
        assert(a@.subrange(0, b@.len() as int) =~= a@);
        r
    }
}

/// Appends the characters of `more` to `out`.
pub fn push_all(out: &mut Vec<char>, more: &Vec<char>)
    ensures
        final(out)@ == old(out)@ + more@,
{
    let mut k: usize = 0;
    while k < more.len()
        invariant
            k <= more@.len(),
            out@ == old(out)@ + more@.take(k as int),
        decreases more@.len() - k,
    {
        out.push(more[k]);
        k = k + 1;
        assert(out@ =~= old(out)@ + more@.take(k as int));
    }
    assert(more@.take(k as int) =~= more@);
}

/// `chars` with the non-overlapping occurrences of the non-empty `pattern`, found from the
/// left, replaced by `replacement`.
pub fn replaced(chars: &Vec<char>, pattern: &Vec<char>, replacement: &Vec<char>) -> (out: Vec<
    char,
>)
    requires
        pattern@.len() > 0,
    ensures
        out@ == replace_all(chars@, pattern@, replacement@),
{
    let n = chars.len();
    let p = pattern.len();
    let mut out: Vec<char> = Vec::new();
    let mut i: usize = 0;
    assert(chars@.skip(0) =~= chars@);
    assert(out@ + replace_all(chars@, pattern@, replacement@) =~= replace_all(chars@, pattern@, replacement@));
    while i < n
        invariant
            n == chars@.len(),
            p == pattern@.len(),
            p > 0,
            i <= n,
            out@ + replace_all(chars@.skip(i as int), pattern@, replacement@) == replace_all(
                chars@,
                pattern@,
                replacement@,
            ),
        decreases n - i,
    {
        let ghost rest = chars@.skip(i as int);
        if n - i >= p && matches_at(chars, i, pattern) {
            assert(rest.take(p as int) =~= chars@.subrange(i as int, i + p));
            assert(rest.skip(p as int) =~= chars@.skip(i + p));
            push_all(&mut out, replacement);
            i = i + p;
            assert(out@ + replace_all(chars@.skip(i as int), pattern@, replacement@) =~= replace_all(
                chars@,
                pattern@,
                replacement@,
            ));
        } else {
            assert(rest.len() >= p as nat ==> rest.take(p as int) =~= chars@.subrange(i as int, i + p));
            assert(rest.drop_first() =~= chars@.skip(i + 1));
            proof {
                if rest.len() < p {
                    assert(replace_all(rest, pattern@, replacement@) == rest);
                }
            }
            out.push(chars[i]);
            i = i + 1;
            assert(out@ + replace_all(chars@.skip(i as int), pattern@, replacement@) =~= replace_all(
                chars@,
                pattern@,
                replacement@,
            ));
        }
    }
    assert(chars@.skip(n as int) =~= Seq::<char>::empty());
    assert(out@ + Seq::<char>::empty() =~= out@);
    out
}

/// Appends the decimal representation of `n` to `out`.
pub fn push_decimal(out: &mut Vec<char>, n: u64)
    ensures
        final(out)@ == old(out)@ + decimal(n as nat),
    decreases n,
{
    if n >= 10 {
        push_decimal(out, n / 10);
    }
    let d: u8 = (n % 10) as u8;
    let c: char = (48u8 + d) as char;
    out.push(c);
    assert(out@ =~= old(out)@ + decimal(n as nat));
}

/// A `String` holding the characters of `chars`.
///
/// Calls `String`'s `FromIterator<&char>`; the contract claims that the string holds exactly
/// those characters in order, as its documentation says.
#[verifier::external_body]
pub(crate) fn string_from_chars(chars: &Vec<char>) -> (s: String)
    ensures
        s@ == chars@,
{
    chars.iter().collect()
}

} // verus!
