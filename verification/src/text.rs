//! Strings as sequences of characters: the few operations on text that the
//! rest of the library is specified with.

use vstd::prelude::*;
use vstd::string::*;

verus! {

/// The characters of every string of a list.
pub open spec fn texts(v: Seq<String>) -> Seq<Seq<char>> {
    v.map_values(|s: String| s@)
}

/// Whether `c`, which is not ASCII, has the Unicode property `White_Space`.
pub uninterp spec fn unicode_white_space(c: char) -> bool;

/// Whether `c` is the space, or an ASCII control character from the tab to the
/// carriage return.
pub open spec fn ascii_white_space(c: char) -> bool {
    c == ' ' || '\t' as int <= c as int <= '\r' as int
}

/// Whether `c` has the Unicode property `White_Space`.
pub open spec fn white_space(c: char) -> bool {
    if (c as int) < 128 {
        ascii_white_space(c)
    } else {
        unicode_white_space(c)
    }
}

/// `char::is_whitespace` decides the property `White_Space`. In ASCII the space
/// and the control characters from the tab to the carriage return have it.
pub assume_specification[ char::is_whitespace ](c: char) -> (b: bool)
    ensures
        (c as int) < 128 ==> b == ascii_white_space(c),
        c as int >= 128 ==> b == unicode_white_space(c),
;

/// Whether `c`, which is not ASCII, has one of the Unicode properties
/// `Alphabetic` and `Numeric`.
pub uninterp spec fn unicode_alphanumeric(c: char) -> bool;

/// Whether `c` is an ASCII letter or digit.
pub open spec fn ascii_alphanumeric(c: char) -> bool {
    ||| 'a' as int <= c as int <= 'z' as int
    ||| 'A' as int <= c as int <= 'Z' as int
    ||| '0' as int <= c as int <= '9' as int
}

/// Whether `c` has one of the Unicode properties `Alphabetic` and `Numeric`.
pub open spec fn alphanumeric(c: char) -> bool {
    if (c as int) < 128 {
        ascii_alphanumeric(c)
    } else {
        unicode_alphanumeric(c)
    }
}

/// `char::is_alphanumeric` decides the properties `Alphabetic` and `Numeric`. In
/// ASCII the letters and the digits have them.
pub assume_specification[ char::is_alphanumeric ](c: char) -> (b: bool)
    ensures
        (c as int) < 128 ==> b == ascii_alphanumeric(c),
        c as int >= 128 ==> b == unicode_alphanumeric(c),
;

/// `String::push` appends one character.
pub assume_specification[ String::push ](s: &mut String, c: char)
    ensures
        final(s)@ == old(s)@.push(c),
;

/// `str`'s `==` compares the characters.
pub assume_specification[ <str as PartialEq>::eq ](a: &str, b: &str) -> (same: bool)
    ensures
        same == (a@ == b@),
;

/// The characters of `s`, in order.
pub fn chars_of(s: &str) -> (v: Vec<char>)
    ensures
        v@ == s@,
{
    let mut v: Vec<char> = Vec::new();
    for c in it: s.chars()
        invariant
            it.seq() == s@,
            v@ == s@.take(it.index() as int),
    {
        v.push(c);
    }
    assert(s@.take(s@.len() as int) =~= s@);
    v
}

/// Appends `chars[from..to]` to `out`.
pub fn append_range(out: &mut String, chars: &Vec<char>, from: usize, to: usize)
    requires
        from <= to <= chars@.len(),
    ensures
        final(out)@ == old(out)@ + chars@.subrange(from as int, to as int),
{
    let mut i: usize = from;
    assert(chars@.subrange(from as int, from as int) =~= Seq::<char>::empty());
    while i < to
        invariant
            from <= i <= to <= chars@.len(),
            out@ == old(out)@ + chars@.subrange(from as int, i as int),
        decreases to - i,
    {
        out.push(chars[i]);
        assert(chars@.subrange(from as int, i + 1) =~= chars@.subrange(from as int, i as int).push(
            chars@[i as int],
        ));
        i += 1;
    }
}

/// The string of `chars[from..to]`.
pub fn text_range(chars: &Vec<char>, from: usize, to: usize) -> (s: String)
    requires
        from <= to <= chars@.len(),
    ensures
        s@ == chars@.subrange(from as int, to as int),
{
    let mut s = String::new();
    append_range(&mut s, chars, from, to);
    assert(s@ =~= chars@.subrange(from as int, to as int));
    s
}

/// `a` followed by `b`.
pub fn joined(a: &str, b: &str) -> (s: String)
    ensures
        s@ == a@ + b@,
{
    let mut s = a.to_owned();
    s.append(b);
    s
}

/// Whether `s` begins with `prefix`.
pub open spec fn begins_with(s: Seq<char>, prefix: Seq<char>) -> bool {
    s.len() >= prefix.len() && s.take(prefix.len() as int) == prefix
}

/// Decides [`begins_with`].
pub fn has_prefix(s: &Vec<char>, prefix: &Vec<char>) -> (b: bool)
    ensures
        b == begins_with(s@, prefix@),
{
    if s.len() < prefix.len() {
        return false;
    }
    let mut i: usize = 0;
    while i < prefix.len()
        invariant
            i <= prefix@.len() <= s@.len(),
            forall|j: int| 0 <= j < i ==> s@[j] == prefix@[j],
        decreases prefix@.len() - i,
    {
        if s[i] != prefix[i] {
            assert(s@.take(prefix@.len() as int)[i as int] != prefix@[i as int]);
            return false;
        }
        i += 1;
    }
    assert(s@.take(prefix@.len() as int) =~= prefix@);
    true
}

/// `s` without its leading white space.
pub open spec fn skip_white(s: Seq<char>) -> Seq<char>
    decreases s.len(),
{
    if s.len() > 0 && white_space(s[0]) {
        skip_white(s.drop_first())
    } else {
        s
    }
}

/// `s` without its trailing white space.
pub open spec fn skip_white_end(s: Seq<char>) -> Seq<char>
    decreases s.len(),
{
    if s.len() > 0 && white_space(s.last()) {
        skip_white_end(s.drop_last())
    } else {
        s
    }
}

/// `s` without its leading and its trailing white space.
pub open spec fn trimmed(s: Seq<char>) -> Seq<char> {
    skip_white_end(skip_white(s))
}

/// White space at the end of a text is none of its trimmed text.
pub proof fn lemma_trimmed_push(s: Seq<char>, c: char)
    requires
        white_space(c),
    ensures
        trimmed(s.push(c)) == trimmed(s),
{
    lemma_skip_white_push(s, c);
    if skip_white(s).len() > 0 {
        assert(skip_white(s).push(c).drop_last() =~= skip_white(s));
    }
}

proof fn lemma_skip_white_push(s: Seq<char>, c: char)
    requires
        white_space(c),
    ensures
        skip_white(s.push(c)) == if skip_white(s).len() > 0 {
            skip_white(s).push(c)
        } else {
            Seq::empty()
        },
    decreases s.len(),
{
    if s.len() == 0 {
        assert(s.push(c).drop_first() =~= Seq::empty());
        assert(skip_white(Seq::<char>::empty()) =~= Seq::empty());
    } else {
        assert(s.push(c).drop_first() =~= s.drop_first().push(c));
        if white_space(s[0]) {
            lemma_skip_white_push(s.drop_first(), c);
        }
    }
}

/// The position of the first character of `chars` that is no white space.
pub fn white_end(chars: &Vec<char>) -> (i: usize)
    ensures
        i <= chars@.len(),
        skip_white(chars@) == chars@.skip(i as int),
        i < chars@.len() ==> !white_space(chars@[i as int]),
{
    let mut i: usize = 0;
    assert(chars@.skip(0) =~= chars@);
    while i < chars.len() && chars[i].is_whitespace()
        invariant
            i <= chars@.len(),
            skip_white(chars@) == skip_white(chars@.skip(i as int)),
        decreases chars@.len() - i,
    {
        assert(chars@.skip(i as int).drop_first() =~= chars@.skip(i + 1));
        i += 1;
    }
    i
}

/// `s` without its leading and its trailing white space.
pub fn trim_text(s: &str) -> (t: String)
    ensures
        t@ == trimmed(s@),
{
    let chars = chars_of(s);
    let from = white_end(&chars);
    let mut to: usize = chars.len();
    let ghost inner = chars@.skip(from as int);
    assert(inner.take(inner.len() as int) =~= inner);
    while from < to && chars[to - 1].is_whitespace()
        invariant
            from <= to <= chars@.len(),
            inner == chars@.skip(from as int),
            skip_white_end(inner) == skip_white_end(inner.take(to - from)),
        decreases to - from,
    {
        assert(inner.take(to - from).drop_last() =~= inner.take(to - from - 1));
        to -= 1;
    }
    assert(inner.take(to - from) =~= chars@.subrange(from as int, to as int));
    text_range(&chars, from, to)
}

/// The longest beginning of `s` without white space.
pub open spec fn until_white(s: Seq<char>) -> Seq<char>
    decreases s.len(),
{
    if s.len() > 0 && !white_space(s[0]) {
        seq![s[0]] + until_white(s.drop_first())
    } else {
        Seq::empty()
    }
}

/// The first word of `s`, empty where `s` holds nothing but white space.
pub open spec fn first_word(s: Seq<char>) -> Seq<char> {
    until_white(skip_white(s))
}

/// Computes [`first_word`].
pub fn first_word_of(chars: &Vec<char>) -> (w: String)
    ensures
        w@ == first_word(chars@),
{
    let from = white_end(chars);
    let mut to: usize = from;
    let ghost inner = chars@.skip(from as int);
    assert(inner.skip(0) =~= inner);
    assert(inner.take(0) + until_white(inner.skip(0)) =~= until_white(inner));
    while to < chars.len() && !chars[to].is_whitespace()
        invariant
            from <= to <= chars@.len(),
            inner == chars@.skip(from as int),
            until_white(inner) == inner.take(to - from) + until_white(inner.skip(to - from)),
        decreases chars@.len() - to,
    {
        assert(inner.skip(to - from).drop_first() =~= inner.skip(to - from + 1));
        assert(inner.take(to - from + 1) =~= inner.take(to - from) + seq![inner[to - from]]);
        assert(inner.take(to - from) + (seq![inner[to - from]] + until_white(
            inner.skip(to - from + 1),
        )) =~= inner.take(to - from + 1) + until_white(inner.skip(to - from + 1)));
        to += 1;
    }
    assert(until_white(inner.skip(to - from)) =~= Seq::<char>::empty());
    assert(inner.take(to - from) + Seq::<char>::empty() =~= chars@.subrange(
        from as int,
        to as int,
    ));
    text_range(chars, from, to)
}

/// The decimal digit of value `d`.
pub open spec fn digit_char(d: int) -> char {
    ('0' as int + d) as char
}

/// `n` in decimal, without leading zeros.
pub open spec fn decimal_text(n: nat) -> Seq<char>
    decreases n,
{
    if n < 10 {
        seq![digit_char(n as int)]
    } else {
        decimal_text(n / 10).push(digit_char((n % 10) as int))
    }
}

fn digit(d: u64) -> (c: char)
    requires
        d < 10,
    ensures
        c == digit_char(d as int),
{
    if d == 0 {
        '0'
    } else if d == 1 {
        '1'
    } else if d == 2 {
        '2'
    } else if d == 3 {
        '3'
    } else if d == 4 {
        '4'
    } else if d == 5 {
        '5'
    } else if d == 6 {
        '6'
    } else if d == 7 {
        '7'
    } else if d == 8 {
        '8'
    } else {
        '9'
    }
}

/// `n` in decimal.
pub fn decimal(n: u64) -> (s: String)
    ensures
        s@ == decimal_text(n as nat),
    decreases n,
{
    if n < 10 {
        let mut s = String::new();
        s.push(digit(n));
        assert(s@ =~= decimal_text(n as nat));
        s
    } else {
        let mut s = decimal(n / 10);
        s.push(digit(n % 10));
        s
    }
}

/// Whether `c` is one of the ten decimal digits.
pub open spec fn is_digit(c: char) -> bool {
    '0' as int <= c as int <= '9' as int
}

/// The number that a sequence of decimal digits denotes.
pub open spec fn digits_value(s: Seq<char>) -> int
    decreases s.len(),
{
    if s.len() == 0 {
        0
    } else {
        digits_value(s.drop_last()) * 10 + (s.last() as int - '0' as int)
    }
}

/// Whether `s` is made of decimal digits alone.
pub open spec fn all_digits(s: Seq<char>) -> bool {
    forall|i: int| 0 <= i < s.len() ==> is_digit(#[trigger] s[i])
}

/// `s` without one leading plus sign.
pub open spec fn unsigned_body(s: Seq<char>) -> Seq<char> {
    if s.len() > 0 && s[0] == '+' {
        s.drop_first()
    } else {
        s
    }
}

/// The unsigned decimal number that `s` spells: digits, after an optional
/// plus sign, and nothing else.
pub open spec fn parsed_unsigned(s: Seq<char>) -> Option<int> {
    if unsigned_body(s).len() > 0 && all_digits(unsigned_body(s)) {
        Some(digits_value(unsigned_body(s)))
    } else {
        None
    }
}

proof fn lemma_digits_grow(s: Seq<char>, k: int)
    requires
        0 <= k <= s.len(),
        all_digits(s),
    ensures
        digits_value(s.take(k)) <= digits_value(s),
        0 <= digits_value(s.take(k)),
    decreases s.len(),
{
    if k == s.len() {
        assert(s.take(k) =~= s);
        if k > 0 {
            lemma_digits_grow(s.drop_last(), k - 1);
            assert(s.drop_last().take(k - 1) =~= s.drop_last());
            assert(is_digit(s[k - 1]));
        }
    } else {
        lemma_digits_grow(s.drop_last(), k);
        assert(s.drop_last().take(k) =~= s.take(k));
        assert(is_digit(s[s.len() - 1]));
    }
}

/// What digits spell is not negative.
pub proof fn lemma_parsed_nonnegative(s: Seq<char>)
    ensures
        parsed_unsigned(s) matches Some(n) ==> n >= 0,
{
    let body = unsigned_body(s);
    if all_digits(body) {
        lemma_digits_grow(body, body.len() as int);
        assert(body.take(body.len() as int) =~= body);
    }
}

/// The `u16` that `s` spells, if it spells one.
pub fn parse_u16(s: &str) -> (r: Option<u16>)
    ensures
        r == (match parsed_unsigned(s@) {
            Some(n) if n <= u16::MAX => Some(n as u16),
            _ => None,
        }),
{
    let chars = chars_of(s);
    let from: usize = if chars.len() > 0 && chars[0] == '+' {
        1
    } else {
        0
    };
    let ghost body = unsigned_body(s@);
    assert(body =~= s@.skip(from as int));
    if from == chars.len() {
        return None;
    }
    let mut value: u32 = 0;
    let mut i: usize = from;
    assert(body.take(0) =~= Seq::<char>::empty());
    while i < chars.len()
        invariant
            from <= i <= chars@.len(),
            chars@ == s@,
            body == s@.skip(from as int),
            body == unsigned_body(s@),
            forall|j: int| 0 <= j < i - from ==> is_digit(#[trigger] body[j]),
            value == digits_value(body.take(i - from)),
            value <= u16::MAX,
        decreases chars@.len() - i,
    {
        let c = chars[i];
        if !('0' <= c && c <= '9') {
            assert(!is_digit(body[i - from]));
            return None;
        }
        let ghost prev = value;
        value = value * 10 + (c as u32 - '0' as u32);
        assert(body.take(i - from + 1).drop_last() =~= body.take(i - from));
        assert(value == digits_value(body.take(i - from + 1)));
        i += 1;
        if value > u16::MAX as u32 {
            proof {
                if all_digits(body) {
                    lemma_digits_grow(body, i - from);
                }
            }
            return None;
        }
    }
    assert(body.take(i - from) =~= body);
    assert(all_digits(body));
    Some(value as u16)
}

/// Whether `s` is made of white space alone.
pub open spec fn all_white(s: Seq<char>) -> bool {
    forall|i: int| 0 <= i < s.len() ==> white_space(#[trigger] s[i])
}

/// Trimming takes off white space at both ends, all of it and nothing else: the
/// text is what is left between two stretches of white space, and what is left
/// neither begins nor ends with white space.
pub proof fn law_trimming_takes_white_ends(s: Seq<char>) -> (r: (int, int))
    ensures
        0 <= r.0 <= r.1 <= s.len(),
        trimmed(s) == s.subrange(r.0, r.1),
        all_white(s.take(r.0)),
        all_white(s.skip(r.1)),
        r.0 < r.1 ==> !white_space(s[r.0]) && !white_space(s[r.1 - 1]),
{
    let from = lemma_skip_white(s);
    let inner = s.skip(from);
    let n = lemma_skip_white_end(inner);
    assert(inner.take(n) =~= s.subrange(from, from + n));
    assert forall|i: int| 0 <= i < s.skip(from + n).len() implies white_space(
        #[trigger] s.skip(from + n)[i],
    ) by {
        assert(s.skip(from + n)[i] == inner.skip(n)[i]);
    }
    if n > 0 {
        assert(inner[0] == s[from]);
        assert(inner[n - 1] == s[from + n - 1]);
    }
    (from, from + n)
}

proof fn lemma_skip_white(s: Seq<char>) -> (k: int)
    ensures
        0 <= k <= s.len(),
        skip_white(s) == s.skip(k),
        all_white(s.take(k)),
        k < s.len() ==> !white_space(s[k]),
    decreases s.len(),
{
    if s.len() > 0 && white_space(s[0]) {
        let rest = s.drop_first();
        let k = lemma_skip_white(rest);
        assert(rest.skip(k) =~= s.skip(k + 1));
        assert forall|i: int| 0 <= i < s.take(k + 1).len() implies white_space(
            #[trigger] s.take(k + 1)[i],
        ) by {
            if i > 0 {
                assert(s.take(k + 1)[i] == rest.take(k)[i - 1]);
            }
        }
        k + 1
    } else {
        assert(s.skip(0) =~= s);
        0
    }
}

proof fn lemma_skip_white_end(s: Seq<char>) -> (n: int)
    ensures
        0 <= n <= s.len(),
        skip_white_end(s) == s.take(n),
        all_white(s.skip(n)),
        n > 0 ==> !white_space(s[n - 1]),
    decreases s.len(),
{
    if s.len() > 0 && white_space(s.last()) {
        let rest = s.drop_last();
        let n = lemma_skip_white_end(rest);
        assert(rest.take(n) =~= s.take(n));
        assert forall|i: int| 0 <= i < s.skip(n).len() implies white_space(
            #[trigger] s.skip(n)[i],
        ) by {
            if i < rest.len() - n {
                assert(s.skip(n)[i] == rest.skip(n)[i]);
            }
        }
        n
    } else {
        assert(s.take(s.len() as int) =~= s);
        s.len() as int
    }
}

/// A text without white space at its ends is trimmed already.
pub proof fn law_trimmed_stays(s: Seq<char>)
    requires
        s.len() > 0 ==> !white_space(s[0]) && !white_space(s.last()),
    ensures
        trimmed(s) == s,
{
}

/// The first word is what stands between the white space at the beginning and the
/// next white space, or the end.
pub proof fn law_first_word_ends_at_white_space(s: Seq<char>) -> (r: (int, int))
    ensures
        0 <= r.0 <= r.1 <= s.len(),
        first_word(s) == s.subrange(r.0, r.1),
        all_white(s.take(r.0)),
        forall|i: int| r.0 <= i < r.1 ==> !white_space(#[trigger] s[i]),
        r.1 < s.len() ==> white_space(s[r.1]) && r.0 < r.1,
{
    let from = lemma_skip_white(s);
    let inner = s.skip(from);
    let n = lemma_until_white(inner);
    assert(inner.take(n) =~= s.subrange(from, from + n));
    assert forall|i: int| from <= i < from + n implies !white_space(#[trigger] s[i]) by {
        assert(s[i] == inner[i - from]);
    }
    if from + n < s.len() {
        assert(inner[n] == s[from + n]);
    }
    (from, from + n)
}

proof fn lemma_until_white(s: Seq<char>) -> (n: int)
    ensures
        0 <= n <= s.len(),
        until_white(s) == s.take(n),
        forall|i: int| 0 <= i < n ==> !white_space(#[trigger] s[i]),
        n < s.len() ==> white_space(s[n]),
    decreases s.len(),
{
    if s.len() > 0 && !white_space(s[0]) {
        let rest = s.drop_first();
        let n = lemma_until_white(rest);
        assert(seq![s[0]] + rest.take(n) =~= s.take(n + 1));
        assert forall|i: int| 0 <= i < n + 1 implies !white_space(#[trigger] s[i]) by {
            if i > 0 {
                assert(s[i] == rest[i - 1]);
            }
        }
        n + 1
    } else {
        assert(s.take(0) =~= Seq::empty());
        0
    }
}

/// A text begins with another just where it is the other with something behind.
pub proof fn law_prefix_and_rest(s: Seq<char>, prefix: Seq<char>, rest: Seq<char>)
    ensures
        begins_with(prefix + rest, prefix),
        begins_with(s, prefix) ==> s == prefix + s.skip(prefix.len() as int),
{
    assert((prefix + rest).take(prefix.len() as int) =~= prefix);
    if begins_with(s, prefix) {
        assert(s =~= s.take(prefix.len() as int) + s.skip(prefix.len() as int));
    }
}

/// A number reads back as it was written, in digits alone and without a leading
/// zero.
pub proof fn law_decimal_reads_back(n: nat)
    ensures
        parsed_unsigned(decimal_text(n)) == Some(n as int),
        all_digits(decimal_text(n)),
        decimal_text(n).len() > 1 ==> decimal_text(n)[0] != '0',
{
    lemma_decimal_value(n);
    assert(is_digit(decimal_text(n)[0]));
}

proof fn lemma_decimal_value(n: nat)
    ensures
        digits_value(decimal_text(n)) == n,
        all_digits(decimal_text(n)),
        decimal_text(n).len() > 0,
        n > 0 ==> decimal_text(n)[0] != '0',
    decreases n,
{
    if n < 10 {
        let s = decimal_text(n);
        assert(s.drop_last() =~= Seq::empty());
        assert(digits_value(s.drop_last()) == 0);
    } else {
        let s = decimal_text(n);
        lemma_decimal_value(n / 10);
        assert(s.drop_last() =~= decimal_text(n / 10));
        assert(s[0] == decimal_text(n / 10)[0]);
    }
}

/// A digit more makes ten times the number and the digit.
pub proof fn law_digit_more_is_ten_times(s: Seq<char>, c: char)
    requires
        s.len() > 0,
        all_digits(s),
        is_digit(c),
    ensures
        parsed_unsigned(s) matches Some(n) && parsed_unsigned(s.push(c)) == Some(
            n * 10 + (c as int - '0' as int),
        ),
        parsed_unsigned(seq![c]) == Some(c as int - '0' as int),
        parsed_unsigned(seq!['+'] + s) == parsed_unsigned(s),
{
    let more = s.push(c);
    assert(more.drop_last() =~= s);
    assert(is_digit(s[0]));
    assert forall|i: int| 0 <= i < more.len() implies is_digit(#[trigger] more[i]) by {
        if i < s.len() {
            assert(more[i] == s[i]);
        }
    }
    let one = seq![c];
    assert(one.drop_last() =~= Seq::empty());
    assert(digits_value(one.drop_last()) == 0);
    assert((seq!['+'] + s).drop_first() =~= s);
}

/// What is no digit, but for one plus sign in front, makes a text no number; and
/// no number is nothing, or a sign alone.
pub proof fn law_no_digit_no_number(s: Seq<char>, i: int)
    ensures
        0 <= i < s.len() && !('0' <= s[i] <= '9') && !(i == 0 && s[i] == '+') ==> parsed_unsigned(
            s,
        ) is None,
        s.len() == 0 ==> parsed_unsigned(s) is None,
        s == seq!['+'] ==> parsed_unsigned(s) is None,
{
    if 0 <= i < s.len() && !('0' <= s[i] <= '9') && !(i == 0 && s[i] == '+') {
        let body = unsigned_body(s);
        let k = if s[0] == '+' {
            i - 1
        } else {
            i
        };
        assert(body[k] == s[i]);
    }
}

/// Of the characters of ASCII, those that leave nothing visible but a gap are white
/// space; letters, digits, signs and the other control characters are not. A digit is
/// none of the characters around the ten.
pub proof fn law_gaps_are_white_space(c: char)
    ensures
        " \t\n\r\u{b}\u{c}"@.contains(c) ==> white_space(c),
        c < '\t' || '\r' < c < ' ' || ' ' < c && (c as int) < 128 ==> !white_space(c),
        "0123456789"@.contains(c) ==> is_digit(c),
        c < '0' || c > '9' ==> !is_digit(c),
{
    reveal_strlit(" \t\n\r\u{b}\u{c}");
    reveal_strlit("0123456789");
}

} // verus!
