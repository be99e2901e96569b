//! Characters, decimal numbers and whitespace-separated words.

use vstd::prelude::*;
use vstd::string::*;

verus! {

/// Appends one character to a string (`String::push`).
#[verifier::external_body]
pub(crate) fn push_char(s: &mut String, c: char)
    ensures
        final(s)@ == old(s)@.push(c),
{
    s.push(c);
}

/// The characters of `s`, in order.
pub fn chars_of(s: &str) -> (v: Vec<char>)
    ensures
        v@ == s@,
{
    broadcast use vstd::string::group_string_axioms;

    let mut v: Vec<char> = Vec::new();
    for c in it: s.chars()
        invariant
            v@ == it.seq().take(it.index()),
    {
        v.push(c);
    }
    v
}

/// A string holding exactly the given characters.
pub fn string_of(chars: &[char]) -> (s: String)
    ensures
        s@ == chars@,
{
    let mut s = String::new();
    let mut i: usize = 0;
    while i < chars.len()
        invariant
            i <= chars@.len(),
            s@ == chars@.take(i as int),
        decreases chars@.len() - i,
    {
        push_char(&mut s, chars[i]);
        i = i + 1;
        assert(s@ =~= chars@.take(i as int));
    }
    assert(s@ =~= chars@);
    s
}


/// The character of decimal digit `d` (`d < 10`).
pub open spec fn digit_char(d: nat) -> char {
    ((d + 48) as u32) as char
}

/// True when `c` is one of the ASCII digits `0`..`9`.
pub open spec fn is_digit(c: char) -> bool {
    '0' <= c <= '9'
}

/// The value of an ASCII digit.
pub open spec fn digit_value(c: char) -> nat {
    ((c as u32) - 48) as nat
}

/// The decimal notation of `n`, without sign or leading zeros.
pub open spec fn decimal(n: nat) -> Seq<char>
    decreases n,
{
    if n < 10 {
        seq![digit_char(n)]
    } else {
        decimal(n / 10).push(digit_char(n % 10))
    }
}

/// True when every character of `s` is an ASCII digit.
pub open spec fn all_digits(s: Seq<char>) -> bool {
    forall|i: int| 0 <= i < s.len() ==> is_digit(#[trigger] s[i])
}

/// The number written by the digit sequence `s`, most significant first.
pub open spec fn digits_value(s: Seq<char>) -> nat
    decreases s.len(),
{
    if s.len() == 0 {
        0
    } else {
        digits_value(s.drop_last()) * 10 + digit_value(s.last())
    }
}

/// `s` with one leading `+` removed, if it has one.
pub open spec fn unsigned_digits(s: Seq<char>) -> Seq<char> {
    if s.len() > 0 && s[0] == '+' {
        s.drop_first()
    } else {
        s
    }
}

/// What `u64::from_str` gives for `s`: an optional `+`, then one or more ASCII
/// digits whose value fits in a `u64`; anything else is refused.
pub open spec fn spec_parse_u64(s: Seq<char>) -> Option<u64> {
    let d = unsigned_digits(s);
    if d.len() > 0 && all_digits(d) && digits_value(d) <= u64::MAX {
        Some(digits_value(d) as u64)
    } else {
        None
    }
}

proof fn lemma_digit_char(d: nat)
    requires
        d < 10,
    ensures
        is_digit(digit_char(d)),
        digit_value(digit_char(d)) == d,
        digit_char(d) != '+',
        digit_char(d) != '.',
        digit_char(d) != '/',
{
    assert(((d + 48) as u32) as char == ((d + 48) as u32) as char);
}

/// The decimal notation is a non-empty run of digits that reads back as `n`.
pub proof fn lemma_decimal(n: nat)
    ensures
        decimal(n).len() > 0,
        all_digits(decimal(n)),
        digits_value(decimal(n)) == n,
        decimal(n)[0] != '+',
    decreases n,
{
    if n < 10 {
        lemma_digit_char(n);
        assert(decimal(n).drop_last() =~= Seq::<char>::empty());
        assert(digits_value(Seq::<char>::empty()) == 0);
        assert(digits_value(decimal(n)) == digits_value(decimal(n).drop_last()) * 10 + digit_value(
            decimal(n).last(),
        ));
    } else {
        lemma_decimal(n / 10);
        lemma_digit_char(n % 10);
        assert(decimal(n).drop_last() =~= decimal(n / 10));
        assert(decimal(n).last() == digit_char(n % 10));
        assert(digits_value(decimal(n)) == digits_value(decimal(n).drop_last()) * 10 + digit_value(
            decimal(n).last(),
        ));
        assert(all_digits(decimal(n))) by {
            assert forall|i: int| 0 <= i < decimal(n).len() implies is_digit(#[trigger] decimal(n)[i]) by {
                if i < decimal(n / 10).len() {
                    assert(decimal(n)[i] == decimal(n / 10)[i]);
                }
            }
        }
    }
}

/// Reading back the decimal notation of a `u64` gives the number.
pub proof fn lemma_parse_decimal(n: u64)
    ensures
        spec_parse_u64(decimal(n as nat)) == Some(n),
{
    lemma_decimal(n as nat);
}

proof fn lemma_digits_value_prefix(s: Seq<char>, k: int)
    requires
        0 <= k <= s.len(),
    ensures
        digits_value(s.take(k)) <= digits_value(s),
    decreases s.len() - k,
{
    if k < s.len() {
        lemma_digits_value_prefix(s, k + 1);
        assert(s.take(k + 1).drop_last() =~= s.take(k));
    } else {
        assert(s.take(k) =~= s);
    }
}

/// The decimal notation of `n`.
pub fn u128_to_decimal(n: u128) -> (s: String)
    ensures
        s@ == decimal(n as nat),
{
    let mut rev: Vec<char> = Vec::new();
    let mut m: u128 = n;
    let ghost mut tail: Seq<char> = Seq::empty();
    // `rev` holds the low digits of `n`, least significant first
    loop
        invariant_except_break
            decimal(n as nat) == decimal(m as nat) + tail,
        invariant
            rev@.len() == tail.len(),
            forall|i: int| 0 <= i < tail.len() ==> #[trigger] rev@[i] == tail[tail.len() - 1 - i],
        ensures
            decimal(n as nat) == tail,
        decreases m,
    {
        let d: u128 = m % 10;
        let c: char = if d == 0 { '0' } else if d == 1 { '1' } else if d == 2 { '2' } else if d == 3 {
            '3'
        } else if d == 4 { '4' } else if d == 5 { '5' } else if d == 6 { '6' } else if d == 7 {
            '7'
        } else if d == 8 { '8' } else { '9' };
        assert(c == digit_char(d as nat));
        rev.push(c);
        proof {
            if m >= 10 {
                assert(decimal(m as nat) == decimal((m / 10) as nat).push(c));
                assert(decimal(m as nat) + tail =~= decimal((m / 10) as nat) + seq![c].add(tail));
            } else {
                assert(decimal(m as nat) =~= seq![c]);
            }
            tail = seq![c].add(tail);
        }
        if m < 10 {
            assert(decimal(n as nat) =~= tail);
            break;
        }
        m = m / 10;
    }
    let mut s = String::new();
    let mut j: usize = rev.len();
    while j > 0
        invariant
            j <= rev@.len(),
            rev@.len() == tail.len(),
            forall|i: int| 0 <= i < tail.len() ==> #[trigger] rev@[i] == tail[tail.len() - 1 - i],
            s@ == tail.take(tail.len() - j),
            decimal(n as nat) == tail,
        decreases j,
    {
        j = j - 1;
        push_char(&mut s, rev[j]);
        assert(s@ =~= tail.take(tail.len() - j));
    }
    assert(s@ =~= tail);
    s
}

/// The decimal notation of `n`.
pub fn u64_to_decimal(n: u64) -> (s: String)
    ensures
        s@ == decimal(n as nat),
{
    u128_to_decimal(n as u128)
}

/// Parses `s` as `u64::from_str` does: an optional `+` and then decimal digits.
pub fn parse_u64(s: &str) -> (r: Option<u64>)
    ensures
        r == spec_parse_u64(s@),
{
    let cs = chars_of(s);
    parse_u64_chars(&cs)
}

/// Parses the characters `cs` as `u64::from_str` does.
pub fn parse_u64_chars(cs: &Vec<char>) -> (r: Option<u64>)
    ensures
        r == spec_parse_u64(cs@),
{
    let mut start: usize = 0;
    if cs.len() > 0 && cs[0] == '+' {
        start = 1;
    }
    let ghost d = unsigned_digits(cs@);
    assert(d =~= cs@.skip(start as int));
    if start >= cs.len() {
        return None;
    }
    let mut value: u64 = 0;
    let mut i: usize = start;
    while i < cs.len()
        invariant
            start <= i <= cs@.len(),
            d == cs@.skip(start as int),
            d == unsigned_digits(cs@),
            start < cs@.len(),
            value == digits_value(d.take(i - start)),
            all_digits(d.take(i - start)),
        decreases cs@.len() - i,
    {
        let c = cs[i];
        assert(d.take(i + 1 - start).drop_last() =~= d.take(i - start));
        if !('0' <= c && c <= '9') {
            assert(!is_digit(d[i - start]));
            assert(!all_digits(d));
            return None;
        }
        let dv: u64 = (c as u32 - 48) as u64;
        if value > 1844674407370955161 || (value == 1844674407370955161 && dv > 5) {
            proof {
                lemma_digits_value_prefix(d, i + 1 - start);
            }
            return None;
        }
        value = value * 10 + dv;
        i = i + 1;
    }
    assert(d.take(i - start) =~= d);
    Some(value)
}


/// Unicode `White_Space`, the property that `char::is_whitespace` tests:
/// U+0009..U+000D, U+0020, U+0085, U+00A0, U+1680, U+2000..U+200A,
/// U+2028, U+2029, U+202F, U+205F and U+3000.
pub open spec fn is_ws(c: char) -> bool {
    ||| '\u{9}' <= c <= '\u{d}'
    ||| c == ' '
    ||| c == '\u{85}'
    ||| c == '\u{a0}'
    ||| c == '\u{1680}'
    ||| '\u{2000}' <= c <= '\u{200a}'
    ||| c == '\u{2028}'
    ||| c == '\u{2029}'
    ||| c == '\u{202f}'
    ||| c == '\u{205f}'
    ||| c == '\u{3000}'
}

/// Whether `c` is white space (as `char::is_whitespace`).
pub fn is_whitespace_char(c: char) -> (b: bool)
    ensures
        b == is_ws(c),
{
    ('\u{9}' <= c && c <= '\u{d}') || c == ' ' || c == '\u{85}' || c == '\u{a0}' || c == '\u{1680}'
        || ('\u{2000}' <= c && c <= '\u{200a}') || c == '\u{2028}' || c == '\u{2029}' || c
        == '\u{202f}' || c == '\u{205f}' || c == '\u{3000}'
}

/// Length of the run of non-white-space characters at the start of `s`.
pub open spec fn word_len(s: Seq<char>) -> nat
    decreases s.len(),
{
    if s.len() == 0 || is_ws(s[0]) {
        0
    } else {
        1 + word_len(s.drop_first())
    }
}

/// The words of `s`, as `str::split_whitespace` yields them: skip white space,
/// take the longest run of other characters, and go on after it.
pub open spec fn words(s: Seq<char>) -> Seq<Seq<char>>
    decreases s.len(),
{
    if s.len() == 0 {
        Seq::empty()
    } else if is_ws(s[0]) {
        words(s.drop_first())
    } else {
        proof {
            lemma_word_len_bound(s);
        }
        seq![s.take(word_len(s) as int)] + words(s.skip(word_len(s) as int))
    }
}

/// True when `s` holds no white space.
pub open spec fn no_ws(s: Seq<char>) -> bool {
    forall|i: int| 0 <= i < s.len() ==> !is_ws(#[trigger] s[i])
}

/// The first word lies within `s` and is followed by white space or the end.
pub proof fn lemma_word_len_bound(s: Seq<char>)
    ensures
        word_len(s) <= s.len(),
        forall|i: int| 0 <= i < word_len(s) ==> !is_ws(#[trigger] s[i]),
        word_len(s) < s.len() ==> is_ws(s[word_len(s) as int]),
    decreases s.len(),
{
    if s.len() > 0 && !is_ws(s[0]) {
        lemma_word_len_bound(s.drop_first());
        assert forall|i: int| 0 <= i < word_len(s) implies !is_ws(#[trigger] s[i]) by {
            if i > 0 {
                assert(s[i] == s.drop_first()[i - 1]);
            }
        }
    }
}

/// Every word is non-empty and holds no white space.
pub proof fn lemma_words_are_words(s: Seq<char>)
    ensures
        forall|k: int|
            0 <= k < words(s).len() ==> #[trigger] words(s)[k].len() > 0 && no_ws(words(s)[k]),
    decreases s.len(),
{
    if s.len() == 0 {
        assert(words(s).len() == 0);
    } else {
        if is_ws(s[0]) {
            lemma_words_are_words(s.drop_first());
            assert(words(s) == words(s.drop_first()));
        } else {
            lemma_word_len_bound(s);
            let n = word_len(s);
            lemma_words_are_words(s.skip(n as int));
            let w = words(s);
            let rest = words(s.skip(n as int));
            assert(w == seq![s.take(n as int)] + rest);
            assert forall|k: int| 0 <= k < w.len() implies #[trigger] w[k].len() > 0 && no_ws(
                w[k],
            ) by {
                if k == 0 {
                    assert(w[0] == s.take(n as int));
                    assert(n > 0);
                } else {
                    assert(w[k] == rest[k - 1]);
                }
            }
        }
    }
}

/// A word followed by white space (or by nothing) is taken whole.
pub proof fn lemma_word_len_of(a: Seq<char>, b: Seq<char>)
    requires
        no_ws(a),
        b.len() == 0 || is_ws(b[0]),
    ensures
        word_len(a + b) == a.len(),
    decreases a.len(),
{
    if a.len() > 0 {
        assert((a + b).drop_first() =~= a.drop_first() + b);
        lemma_word_len_of(a.drop_first(), b);
    } else {
        assert(a + b =~= b);
    }
}

/// A non-empty run without white space is one word.
pub proof fn lemma_words_single(a: Seq<char>)
    requires
        a.len() > 0,
        no_ws(a),
    ensures
        words(a) == seq![a],
{
    lemma_word_len_of(a, Seq::empty());
    assert(a + Seq::<char>::empty() =~= a);
    assert(a.take(a.len() as int) =~= a);
    assert(a.skip(a.len() as int) =~= Seq::<char>::empty());
    assert(!is_ws(a[0]));
    assert(words(Seq::<char>::empty()) == Seq::<Seq<char>>::empty());
    assert(words(a) =~= seq![a]);
}

/// A word, one white-space character, and the rest: the word comes first.
pub proof fn lemma_words_cons(a: Seq<char>, sep: char, b: Seq<char>)
    requires
        a.len() > 0,
        no_ws(a),
        is_ws(sep),
    ensures
        words(a + seq![sep] + b) == seq![a] + words(b),
{
    let s = a + seq![sep] + b;
    lemma_word_len_of(a, seq![sep] + b);
    assert(s =~= a + (seq![sep] + b));
    assert(s.take(a.len() as int) =~= a);
    let rest = s.skip(a.len() as int);
    assert(rest =~= seq![sep] + b);
    assert(rest.drop_first() =~= b);
    assert(rest[0] == sep);
    assert(!is_ws(s[0])) by {
        assert(s[0] == a[0]);
    }
    assert(words(rest) == words(b));
    assert(words(s) == seq![a] + words(rest));
}

/// The words of `cs`, in order (as `str::split_whitespace`).
pub fn split_words(cs: &Vec<char>) -> (r: Vec<Vec<char>>)
    ensures
        r@.len() == words(cs@).len(),
        forall|k: int| 0 <= k < r@.len() ==> #[trigger] r@[k]@ == words(cs@)[k],
{
    let n = cs.len();
    let mut r: Vec<Vec<char>> = Vec::new();
    let mut i: usize = 0;
    let ghost mut done: Seq<Seq<char>> = Seq::empty();
    assert(cs@.skip(0) =~= cs@);
    assert(done + words(cs@) =~= words(cs@));
    while i < n
        invariant
            n == cs@.len(),
            i <= n,
            r@.len() == done.len(),
            forall|k: int| 0 <= k < r@.len() ==> #[trigger] r@[k]@ == done[k],
            done + words(cs@.skip(i as int)) == words(cs@),
        decreases n - i,
    {
        let ghost rest = cs@.skip(i as int);
        if is_whitespace_char(cs[i]) {
            assert(rest.drop_first() =~= cs@.skip(i + 1));
            i = i + 1;
        } else {
            let mut w: Vec<char> = Vec::new();
            let mut j: usize = i;
            while j < n && !is_whitespace_char(cs[j])
                invariant
                    n == cs@.len(),
                    i <= j <= n,
                    w@ == cs@.subrange(i as int, j as int),
                    no_ws(w@),
                decreases n - j,
            {
                w.push(cs[j]);
                j = j + 1;
                assert(w@ =~= cs@.subrange(i as int, j as int));
            }
            proof {
                let b = cs@.skip(j as int);
                assert(rest =~= w@ + b);
                lemma_word_len_of(w@, b);
                assert(rest.take(w@.len() as int) =~= w@);
                assert(rest.skip(w@.len() as int) =~= b);
                assert(words(rest) == seq![w@] + words(b));
                done = done.push(w@);
                assert(done + words(b) =~= (done.drop_last() + seq![w@]) + words(b));
            }
            r.push(w);
            i = j;
        }
    }
    assert(cs@.skip(n as int) =~= Seq::<char>::empty());
    assert(done + Seq::<Seq<char>>::empty() =~= done);
    r
}


/// Whether the characters `a` spell out `s`.
pub fn chars_eq_str(a: &Vec<char>, s: &str) -> (b: bool)
    ensures
        b == (a@ == s@),
{
    let t = chars_of(s);
    if a.len() != t.len() {
        return false;
    }
    let mut i: usize = 0;
    while i < a.len()
        invariant
            a@.len() == t@.len(),
            t@ == s@,
            i <= a@.len(),
            a@.take(i as int) == t@.take(i as int),
        decreases a@.len() - i,
    {
        if a[i] != t[i] {
            assert(a@[i as int] != s@[i as int]);
            return false;
        }
        i = i + 1;
        assert(a@.take(i as int) =~= t@.take(i as int)) by {
            assert forall|k: int| 0 <= k < i implies a@.take(i as int)[k] == t@.take(i as int)[k] by {
                if k < i - 1 {
                    assert(a@.take(i - 1)[k] == t@.take(i - 1)[k]);
                }
            }
        }
    }
    assert(a@ =~= a@.take(i as int));
    assert(t@ =~= t@.take(i as int));
    true
}

/// Whether two strings hold the same characters.
pub fn str_eq(a: &str, b: &str) -> (r: bool)
    ensures
        r == (a@ == b@),
{
    let ca = chars_of(a);
    chars_eq_str(&ca, b)
}

/// A new string holding the characters of `a` followed by those of `b`.
pub fn concat_str(a: &str, b: &str) -> (s: String)
    ensures
        s@ == a@ + b@,
{
    let mut s = a.to_owned();
    s.append(b);
    s
}

} // verus!
