//! Character-level building blocks shared by the parsers and renderers.

use vstd::prelude::*;

verus! {

/// `c` is one of the ASCII decimal digits `0`..=`9`.
pub open spec fn is_digit(c: char) -> bool {
    '0' <= c <= '9'
}

/// Every character of `s` is an ASCII decimal digit.
pub open spec fn all_digits(s: Seq<char>) -> bool {
    forall|i: int| 0 <= i < s.len() ==> is_digit(#[trigger] s[i])
}

/// The value of the digit character `c`.
pub open spec fn digit_value(c: char) -> nat {
    ((c as int) - ('0' as int)) as nat
}

/// The number written in decimal by the digit sequence `s` (most significant first).
pub open spec fn decimal_value(s: Seq<char>) -> nat
    decreases s.len(),
{
    if s.len() == 0 {
        0
    } else {
        10 * decimal_value(s.drop_last()) + digit_value(s.last())
    }
}

/// What `str::parse::<u32>` gives back for the characters `s`: an optional
/// leading `+`, then one or more ASCII digits whose value fits in a `u32`.
pub open spec fn spec_parse_u32(s: Seq<char>) -> Option<u32> {
    let d = if s.len() > 0 && s[0] == '+' { s.drop_first() } else { s };
    if d.len() > 0 && all_digits(d) && decimal_value(d) <= u32::MAX {
        Some(decimal_value(d) as u32)
    } else {
        None
    }
}

/// A prefix of a digit sequence never has a larger value than the whole.
pub proof fn lemma_decimal_prefix_le(s: Seq<char>, k: int)
    requires
        all_digits(s),
        0 <= k <= s.len(),
    ensures
        decimal_value(s.take(k)) <= decimal_value(s),
    decreases s.len(),
{
    if k < s.len() {
        assert(all_digits(s.drop_last()));
        lemma_decimal_prefix_le(s.drop_last(), k);
        assert(s.drop_last().take(k) =~= s.take(k));
    } else {
        assert(s.take(k) =~= s);
    }
}

/// A leading zero does not change the value of a digit sequence.
proof fn lemma_decimal_value_leading_zero(s: Seq<char>)
    ensures
        decimal_value(seq!['0'] + s) == decimal_value(s),
    decreases s.len(),
{
    if s.len() == 0 {
        assert(seq!['0'] + s =~= seq!['0']);
        assert(seq!['0'].drop_last() =~= Seq::<char>::empty());
        assert(decimal_value(Seq::<char>::empty()) == 0);
        assert(seq!['0'].last() == '0');
        assert(decimal_value(seq!['0']) == 0);
    } else {
        lemma_decimal_value_leading_zero(s.drop_last());
        assert((seq!['0'] + s).drop_last() =~= seq!['0'] + s.drop_last());
        assert((seq!['0'] + s).last() == s.last());
    }
}

/// A single ASCII digit reads as its value.
pub proof fn lemma_parse_single_digit(c: char)
    requires
        '0' <= c <= '9',
    ensures
        spec_parse_u32(seq![c]) == Some(((c as u32) - ('0' as u32)) as u32),
{
    let s = seq![c];
    assert(s.drop_last() =~= Seq::<char>::empty());
    assert(decimal_value(Seq::<char>::empty()) == 0);
    assert(all_digits(s));
}

/// Writing one more digit after a number multiplies it by ten and adds the
/// digit, or leaves the `u32` range and is refused.
pub proof fn lemma_parse_push_digit(s: Seq<char>, c: char, n: u32)
    requires
        spec_parse_u32(s) == Some(n),
        '0' <= c <= '9',
    ensures
        spec_parse_u32(s.push(c)) == (if 10 * n + ((c as int) - ('0' as int)) <= u32::MAX {
            Some((10 * n + ((c as int) - ('0' as int))) as u32)
        } else {
            None
        }),
{
    let d = if s.len() > 0 && s[0] == '+' { s.drop_first() } else { s };
    let t = s.push(c);
    assert(t.len() > 0 && t[0] == s[0]);
    let e = if t.len() > 0 && t[0] == '+' { t.drop_first() } else { t };
    assert(e =~= d.push(c));
    assert(e.drop_last() =~= d);
    assert(e.last() == c);
    assert(all_digits(e)) by {
        assert forall|i: int| 0 <= i < e.len() implies is_digit(#[trigger] e[i]) by {
            if i < d.len() {
                assert(e[i] == d[i]);
            }
        }
    }
}

/// Leading zeros do not change the number that a run of ASCII digits reads as.
pub proof fn lemma_parse_leading_zero(s: Seq<char>)
    requires
        s.len() > 0,
        forall|i: int| 0 <= i < s.len() ==> '0' <= #[trigger] s[i] <= '9',
    ensures
        spec_parse_u32(seq!['0'] + s) == spec_parse_u32(s),
{
    lemma_decimal_value_leading_zero(s);
    let z = seq!['0'] + s;
    assert(z[0] == '0');
    assert(s[0] != '+');
    assert(all_digits(s));
    assert(all_digits(z)) by {
        assert forall|i: int| 0 <= i < z.len() implies is_digit(#[trigger] z[i]) by {
            if i > 0 {
                assert(z[i] == s[i - 1]);
            }
        }
    }
}

/// Making ASCII capitals small keeps the length, moves each capital to the
/// small letter 32 places later, and keeps every other character.
pub proof fn lemma_ascii_lowercase_chars(s: Seq<char>)
    ensures
        ascii_lowercase(s).len() == s.len(),
        forall|i: int|
            0 <= i < s.len() ==> if 'A' <= s[i] <= 'Z' {
                (#[trigger] ascii_lowercase(s)[i]) as u32 == (s[i] as u32) + 32
            } else {
                ascii_lowercase(s)[i] == s[i]
            },
{
}

/// The characters of `s`, in order.
pub fn chars_of(s: &str) -> (v: Vec<char>)
    ensures
        v@ == s@,
{
    broadcast use vstd::string::group_string_axioms;
    let mut v: Vec<char> = Vec::new();
    for c in it: s.chars()
        invariant
            v@ == it.seq().take(it.index()),
            it.seq() == s@,
    {
        v.push(c);
    }
    v
}

/// Parses the characters `s[lo..hi]` as `str::parse::<u32>` would.
pub fn parse_u32_range(s: &Vec<char>, lo: usize, hi: usize) -> (r: Option<u32>)
    requires
        lo <= hi <= s@.len(),
    ensures
        r == spec_parse_u32(s@.subrange(lo as int, hi as int)),
{
    let ghost whole = s@.subrange(lo as int, hi as int);
    let mut start = lo;
    if lo < hi && s[lo] == '+' {
        start = lo + 1;
    }
    let ghost d = s@.subrange(start as int, hi as int);
    assert(d =~= (if whole.len() > 0 && whole[0] == '+' { whole.drop_first() } else { whole }));
    if start == hi {
        return None;
    }
    let mut acc: u64 = 0;
    let mut i = start;
    while i < hi
        invariant
            lo <= start <= i <= hi <= s@.len(),
            d == s@.subrange(start as int, hi as int),
            d.len() > 0,
            d =~= (if whole.len() > 0 && whole[0] == '+' { whole.drop_first() } else { whole }),
            whole == s@.subrange(lo as int, hi as int),
            all_digits(s@.subrange(start as int, i as int)),
            acc == decimal_value(s@.subrange(start as int, i as int)),
            acc <= u32::MAX,
        decreases hi - i,
    {
        let c = s[i];
        if !('0' <= c && c <= '9') {
            assert(d[i - start] == c);
            return None;
        }
        let dv: u64 = ((c as u32) - ('0' as u32)) as u64;
        let ghost prev = s@.subrange(start as int, i as int);
        let ghost next = s@.subrange(start as int, i + 1);
        assert(next.drop_last() =~= prev);
        assert(next.last() == c);
        acc = acc * 10 + dv;
        assert(all_digits(next));
        if acc > 0xffff_ffffu64 {
            proof {
                if all_digits(d) {
                    assert(d.take((i + 1 - start) as int) =~= next);
                    lemma_decimal_prefix_le(d, (i + 1 - start) as int);
                }
            }
            return None;
        }
        i = i + 1;
    }
    assert(s@.subrange(start as int, i as int) =~= d);
    Some(acc as u32)
}

/// The character of the decimal digit `d`.
pub open spec fn digit_char(d: nat) -> char {
    ((d + ('0' as int)) as u32) as char
}

/// The decimal numeral of `n`, without leading zeros (`0` is written `0`).
pub open spec fn decimal_chars(n: nat) -> Seq<char>
    decreases n,
{
    if n < 10 {
        seq![digit_char(n)]
    } else {
        decimal_chars(n / 10).push(digit_char(n % 10))
    }
}

/// The numeral of `n` is a non-empty run of digits whose value is `n`.
pub proof fn lemma_decimal_chars(n: nat)
    ensures
        decimal_chars(n).len() > 0,
        all_digits(decimal_chars(n)),
        decimal_value(decimal_chars(n)) == n,
    decreases n,
{
    let d = (n % 10) as nat;
    assert(digit_value(digit_char(d)) == d);
    let s = decimal_chars(n);
    if n < 10 {
        assert(s.drop_last() =~= Seq::<char>::empty());
        assert(decimal_value(s.drop_last()) == 0);
        assert(s.last() == digit_char(d));
    } else {
        lemma_decimal_chars(n / 10);
        assert(s.drop_last() =~= decimal_chars(n / 10));
        assert(s.last() == digit_char(d));
        assert(n == 10 * (n / 10) + n % 10);
    }
}

/// Reading back the numeral that `decimal_chars` writes for a `u32` gives the number.
pub proof fn lemma_parse_decimal_chars(n: u32)
    ensures
        spec_parse_u32(decimal_chars(n as nat)) == Some(n),
{
    lemma_decimal_chars(n as nat);
}

/// Appends `c` to the end of `s`. Trusted: the body is `String::push`, which the
/// standard library documents as appending the character to the end of the string.
#[verifier::external_body]
pub fn push_char(s: &mut String, c: char)
    ensures
        final(s)@ == old(s)@.push(c),
{
    s.push(c);
}

/// Appends the decimal numeral of `n` to `s`.
pub fn push_decimal(s: &mut String, n: u32)
    ensures
        final(s)@ == old(s)@ + decimal_chars(n as nat),
    decreases n,
{
    if n >= 10 {
        push_decimal(s, n / 10);
    }
    let d: u8 = (n % 10) as u8;
    let c: char = (d + 48u8) as char;
    assert(c == digit_char((n % 10) as nat));
    push_char(s, c);
    assert(decimal_chars(n as nat) =~= (if n < 10 { seq![digit_char(n as nat)] } else { decimal_chars((n / 10) as nat).push(digit_char((n % 10) as nat)) }));
}

/// The pieces of `s` between occurrences of `sep`, as `str::split` with a
/// character separator gives them: one more piece than there are separators.
pub open spec fn split_on(s: Seq<char>, sep: char) -> Seq<Seq<char>>
    decreases s.len(),
{
    if s.len() == 0 {
        seq![Seq::<char>::empty()]
    } else {
        let prev = split_on(s.drop_last(), sep);
        if s.last() == sep {
            prev.push(Seq::<char>::empty())
        } else {
            prev.update(prev.len() - 1, prev.last().push(s.last()))
        }
    }
}

/// `split_on` never gives an empty list of pieces.
pub proof fn lemma_split_on_nonempty(s: Seq<char>, sep: char)
    ensures
        split_on(s, sep).len() >= 1,
    decreases s.len(),
{
    if s.len() > 0 {
        lemma_split_on_nonempty(s.drop_last(), sep);
    }
}

/// `s` holds no occurrence of `c`.
pub open spec fn free_of(s: Seq<char>, c: char) -> bool {
    forall|i: int| 0 <= i < s.len() ==> s[i] != c
}

/// Appending text without a separator extends the last piece.
pub proof fn lemma_split_on_append_plain(p: Seq<char>, x: Seq<char>, sep: char)
    requires
        free_of(x, sep),
    ensures
        split_on(p + x, sep).len() == split_on(p, sep).len(),
        split_on(p + x, sep) == split_on(p, sep).update(
            split_on(p, sep).len() - 1,
            split_on(p, sep).last() + x,
        ),
    decreases x.len(),
{
    lemma_split_on_nonempty(p, sep);
    if x.len() == 0 {
        assert(p + x =~= p);
        assert(split_on(p, sep).last() + x =~= split_on(p, sep).last());
        assert(split_on(p, sep).update(split_on(p, sep).len() - 1, split_on(p, sep).last())
            =~= split_on(p, sep));
    } else {
        let y = x.drop_last();
        assert(free_of(y, sep));
        lemma_split_on_append_plain(p, y, sep);
        lemma_split_on_nonempty(p + y, sep);
        assert((p + x).drop_last() =~= p + y);
        assert((p + x).last() == x.last());
        let pp = split_on(p, sep);
        let prev = split_on(p + y, sep);
        assert(prev == pp.update(pp.len() - 1, pp.last() + y));
        assert(prev.last() == pp.last() + y);
        assert(x.last() != sep);
        assert(split_on(p + x, sep) == prev.update(prev.len() - 1, prev.last().push(x.last())));
        assert((pp.last() + y).push(x.last()) =~= pp.last() + x);
        assert(split_on(p + x, sep) =~= split_on(p, sep).update(
            split_on(p, sep).len() - 1,
            split_on(p, sep).last() + x,
        ));
    }
}

/// Appending a separator starts a new, empty piece.
pub proof fn lemma_split_on_append_sep(p: Seq<char>, sep: char)
    ensures
        split_on(p.push(sep), sep) == split_on(p, sep).push(Seq::<char>::empty()),
{
    assert(p.push(sep).drop_last() =~= p);
}

/// The bounds within `s` of each piece of `split_on(s@, sep)`.
pub fn split_ranges(s: &Vec<char>, sep: char) -> (r: Vec<(usize, usize)>)
    ensures
        r@.len() == split_on(s@, sep).len(),
        forall|k: int|
            0 <= k < r@.len() ==> {
                &&& (#[trigger] r@[k]).0 <= r@[k].1 <= s@.len()
                &&& s@.subrange(r@[k].0 as int, r@[k].1 as int) == split_on(s@, sep)[k]
            },
{
    let mut done: Vec<(usize, usize)> = Vec::new();
    let mut start: usize = 0;
    let mut i: usize = 0;
    while i < s.len()
        invariant
            start <= i <= s@.len(),
            split_on(s@.take(i as int), sep).len() == done@.len() + 1,
            forall|k: int|
                0 <= k < done@.len() ==> {
                    &&& (#[trigger] done@[k]).0 <= done@[k].1 <= s@.len()
                    &&& s@.subrange(done@[k].0 as int, done@[k].1 as int) == split_on(
                        s@.take(i as int),
                        sep,
                    )[k]
                },
            s@.subrange(start as int, i as int) == split_on(s@.take(i as int), sep).last(),
        decreases s@.len() - i,
    {
        let ghost prev = split_on(s@.take(i as int), sep);
        assert(s@.take(i + 1).drop_last() =~= s@.take(i as int));
        assert(s@.take(i + 1).last() == s@[i as int]);
        if s[i] == sep {
            done.push((start, i));
            start = i + 1;
            assert(s@.subrange(start as int, i + 1) =~= Seq::<char>::empty());
        } else {
            assert(s@.subrange(start as int, i + 1) =~= s@.subrange(start as int, i as int).push(
                s@[i as int],
            ));
        }
        i = i + 1;
    }
    assert(s@.take(i as int) =~= s@);
    done.push((start, i));
    done
}

/// Unicode `White_Space`, the property that `char::is_whitespace` tests.
pub open spec fn is_whitespace(c: char) -> bool {
    ||| '\u{9}' <= c <= '\u{d}'
    ||| c == ' '
    ||| c == '\u{85}'
    ||| c == '\u{a0}'
    ||| c == '\u{1680}'
    ||| '\u{2000}' <= c <= '\u{200a}'
    ||| c == '\u{2028}'
    ||| c == '\u{2029}'
    ||| c == '\u{202f}'
    ||| c == '\u{205f}'
    ||| c == '\u{3000}'
}

/// Whether `c` is Unicode white space.
pub fn whitespace(c: char) -> (b: bool)
    ensures
        b == is_whitespace(c),
{
    ('\u{9}' <= c && c <= '\u{d}') || c == ' ' || c == '\u{85}' || c == '\u{a0}' || c
        == '\u{1680}' || ('\u{2000}' <= c && c <= '\u{200a}') || c == '\u{2028}' || c
        == '\u{2029}' || c == '\u{202f}' || c == '\u{205f}' || c == '\u{3000}'
}

/// `s` without its leading white space.
pub open spec fn trim_start(s: Seq<char>) -> Seq<char>
    decreases s.len(),
{
    if s.len() > 0 && is_whitespace(s[0]) {
        trim_start(s.drop_first())
    } else {
        s
    }
}

/// `s` without its trailing white space.
pub open spec fn trim_end(s: Seq<char>) -> Seq<char>
    decreases s.len(),
{
    if s.len() > 0 && is_whitespace(s.last()) {
        trim_end(s.drop_last())
    } else {
        s
    }
}

/// `s` without leading and trailing white space, as `str::trim` gives it.
pub open spec fn trim(s: Seq<char>) -> Seq<char> {
    trim_end(trim_start(s))
}

/// Every character of `s` is white space.
pub open spec fn all_whitespace(s: Seq<char>) -> bool {
    forall|i: int| 0 <= i < s.len() ==> is_whitespace(#[trigger] s[i])
}

/// Leading white space is dropped whatever follows it.
pub proof fn lemma_trim_start_after_whitespace(p: Seq<char>, x: Seq<char>)
    requires
        all_whitespace(p),
    ensures
        trim_start(p + x) == trim_start(x),
    decreases p.len(),
{
    if p.len() > 0 {
        assert((p + x)[0] == p[0]);
        assert((p + x).drop_first() =~= p.drop_first() + x);
        assert(all_whitespace(p.drop_first()));
        lemma_trim_start_after_whitespace(p.drop_first(), x);
    } else {
        assert(p + x =~= x);
    }
}

/// Trailing white space is dropped whatever comes before it.
pub proof fn lemma_trim_end_before_whitespace(x: Seq<char>, q: Seq<char>)
    requires
        all_whitespace(q),
    ensures
        trim_end(x + q) == trim_end(x),
    decreases q.len(),
{
    if q.len() > 0 {
        assert((x + q).last() == q.last());
        assert((x + q).drop_last() =~= x + q.drop_last());
        assert(all_whitespace(q.drop_last()));
        lemma_trim_end_before_whitespace(x, q.drop_last());
    } else {
        assert(x + q =~= x);
    }
}

/// Trimming the start of `x + q`: `q` stays unless `x` is all white space.
pub proof fn lemma_trim_start_append(x: Seq<char>, q: Seq<char>)
    ensures
        trim_start(x).len() > 0 ==> trim_start(x + q) == trim_start(x) + q,
        trim_start(x).len() == 0 ==> trim_start(x + q) == trim_start(q),
    decreases x.len(),
{
    if x.len() == 0 {
        assert(x + q =~= q);
    } else {
        assert((x + q)[0] == x[0]);
        if is_whitespace(x[0]) {
            assert((x + q).drop_first() =~= x.drop_first() + q);
            lemma_trim_start_append(x.drop_first(), q);
        }
    }
}

/// White space around a text does not change its trimmed form.
pub proof fn lemma_trim_surrounded(p: Seq<char>, s: Seq<char>, q: Seq<char>)
    requires
        all_whitespace(p),
        all_whitespace(q),
    ensures
        trim(p + s + q) == trim(s),
{
    assert(p + s + q =~= p + (s + q));
    lemma_trim_start_after_whitespace(p, s + q);
    lemma_trim_start_append(s, q);
    if trim_start(s).len() > 0 {
        lemma_trim_end_before_whitespace(trim_start(s), q);
    } else {
        lemma_trim_start_after_whitespace(q, Seq::<char>::empty());
        assert(q + Seq::<char>::empty() =~= q);
    }
}

/// A text that neither starts nor ends with white space is its own trimmed form.
pub proof fn lemma_trim_unchanged(s: Seq<char>)
    requires
        s.len() > 0,
        !is_whitespace(s[0]),
        !is_whitespace(s.last()),
    ensures
        trim(s) == s,
{
}

/// The bounds of `trim(s[lo..hi])` within `s`.
pub fn trim_range(s: &Vec<char>, lo: usize, hi: usize) -> (r: (usize, usize))
    requires
        lo <= hi <= s@.len(),
    ensures
        lo <= r.0 <= r.1 <= hi,
        s@.subrange(r.0 as int, r.1 as int) == trim(s@.subrange(lo as int, hi as int)),
{
    let ghost whole = s@.subrange(lo as int, hi as int);
    let mut a = lo;
    while a < hi && whitespace(s[a])
        invariant
            lo <= a <= hi <= s@.len(),
            trim_start(whole) == trim_start(s@.subrange(a as int, hi as int)),
        decreases hi - a,
    {
        assert(s@.subrange(a as int, hi as int).drop_first() =~= s@.subrange(a + 1, hi as int));
        a = a + 1;
    }
    let ghost started = s@.subrange(a as int, hi as int);
    assert(trim_start(started) == started);
    let mut b = hi;
    while b > a && whitespace(s[b - 1])
        invariant
            lo <= a <= b <= hi <= s@.len(),
            trim_end(started) == trim_end(s@.subrange(a as int, b as int)),
        decreases b - a,
    {
        assert(s@.subrange(a as int, b as int).drop_last() =~= s@.subrange(a as int, b - 1));
        b = b - 1;
    }
    (a, b)
}

/// `c` is an ASCII letter or digit.
pub open spec fn is_ascii_alphanumeric(c: char) -> bool {
    ||| 'a' <= c <= 'z'
    ||| 'A' <= c <= 'Z'
    ||| '0' <= c <= '9'
}

/// Whether `c` is an ASCII letter or digit.
pub fn ascii_alphanumeric(c: char) -> (b: bool)
    ensures
        b == is_ascii_alphanumeric(c),
{
    ('a' <= c && c <= 'z') || ('A' <= c && c <= 'Z') || ('0' <= c && c <= '9')
}

/// `c` with an ASCII capital letter mapped to its small letter, as
/// `char::to_ascii_lowercase` gives it.
pub open spec fn ascii_lower(c: char) -> char {
    if 'A' <= c <= 'Z' {
        ((c as u32) + 32) as char
    } else {
        c
    }
}

/// `s` with every ASCII capital letter mapped to its small letter.
pub open spec fn ascii_lowercase(s: Seq<char>) -> Seq<char> {
    s.map_values(|c: char| ascii_lower(c))
}

/// The small-letter form of `c`.
pub fn to_ascii_lower(c: char) -> (r: char)
    ensures
        r == ascii_lower(c),
{
    if 'A' <= c && c <= 'Z' {
        let b: u8 = (c as u8) + 32u8;
        b as char
    } else {
        c
    }
}

} // verus!
