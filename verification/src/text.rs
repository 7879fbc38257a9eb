//! Text as sequences of characters: words, lines, trimming and decimal
//! numbers.
use vstd::prelude::*;
use vstd::string::StrSliceExecFns;

verus! {

/// `String::push` adds one character at the end.
pub assume_specification[ String::push ](s: &mut String, c: char)
    ensures
        final(s)@ == old(s)@.push(c),
;

/// The characters with the Unicode `White_Space` property.
pub open spec fn space(c: char) -> bool {
    let u = c as int;
    ||| 0x09 <= u <= 0x0D
    ||| u == 0x20
    ||| u == 0x85
    ||| u == 0xA0
    ||| u == 0x1680
    ||| 0x2000 <= u <= 0x200A
    ||| u == 0x2028
    ||| u == 0x2029
    ||| u == 0x202F
    ||| u == 0x205F
    ||| u == 0x3000
}

/// The code point of a character.
pub fn code_point(c: char) -> (u: u32)
    ensures
        u == c as int,
{
    c as u32
}

pub fn is_space(c: char) -> (b: bool)
    ensures
        b == space(c),
{
    let u: u32 = c as u32;
    (0x09 <= u && u <= 0x0D) || u == 0x20 || u == 0x85 || u == 0xA0 || u == 0x1680 || (0x2000 <= u
        && u <= 0x200A) || u == 0x2028 || u == 0x2029 || u == 0x202F || u == 0x205F || u == 0x3000
}

/// Bytes that a character takes in UTF-8.
pub open spec fn utf8_len(c: char) -> int {
    let u = c as int;
    if u < 0x80 {
        1
    } else if u < 0x800 {
        2
    } else if u < 0x1_0000 {
        3
    } else {
        4
    }
}

/// Bytes that a text takes in UTF-8.
pub open spec fn byte_len(s: Seq<char>) -> int
    decreases s.len(),
{
    if s.len() == 0 {
        0
    } else {
        byte_len(s.drop_last()) + utf8_len(s.last())
    }
}

/// A letter in capitals, within ASCII.
pub open spec fn ascii_upper(c: char) -> char {
    if 'a' <= c <= 'z' {
        (c as int - 32) as char
    } else {
        c
    }
}

pub fn char_bytes(c: char) -> (n: usize)
    ensures
        n == utf8_len(c),
        1 <= n <= 4,
{
    let u: u32 = c as u32;
    if u < 0x80 {
        1
    } else if u < 0x800 {
        2
    } else if u < 0x1_0000 {
        3
    } else {
        4
    }
}

// ---------------------------------------------------------------------
// Conversions and comparison
// ---------------------------------------------------------------------

/// The characters of a string.
pub fn chars_of(s: &str) -> (v: Vec<char>)
    ensures
        v@ == s@,
{
    let mut v: Vec<char> = Vec::new();
    for c in it: s.chars()
        invariant
            v@ == it.seq().take(it.index()),
            it.seq() == s@,
    {
        v.push(c);
    }
    v
}

/// The string of some characters.
pub fn string_of(v: &[char]) -> (s: String)
    ensures
        s@ == v@,
{
    let mut s: String = String::new();
    for i in 0..v.len()
        invariant
            s@ == v@.take(i as int),
    {
        s.push(v[i]);
        assert(v@.take(i + 1) =~= v@.take(i as int).push(v@[i as int]));
    }
    assert(v@.take(v@.len() as int) =~= v@);
    s
}

/// Adds the characters of a string.
pub fn push_str(v: &mut Vec<char>, s: &str)
    ensures
        final(v)@ == old(v)@ + s@,
{
    let mut more: Vec<char> = chars_of(s);
    v.append(&mut more);
}

/// Whether some characters are those of a string.
pub fn is_text(v: &[char], s: &str) -> (b: bool)
    ensures
        b == (v@ == s@),
{
    let n: usize = s.unicode_len();
    if v.len() != n {
        return false;
    }
    for i in 0..n
        invariant
            n == v@.len(),
            n == s@.len(),
            v@.take(i as int) == s@.take(i as int),
    {
        if v[i] != s.get_char(i) {
            assert(v@[i as int] != s@[i as int]);
            return false;
        }
        assert(v@.take(i + 1) =~= v@.take(i as int).push(v@[i as int]));
        assert(s@.take(i + 1) =~= s@.take(i as int).push(s@[i as int]));
    }
    assert(v@.take(n as int) =~= v@);
    assert(s@.take(n as int) =~= s@);
    true
}

/// A copy of the characters from `i` up to `j`.
pub fn slice_of(v: &[char], i: usize, j: usize) -> (s: Vec<char>)
    requires
        i <= j <= v@.len(),
    ensures
        s@ == v@.subrange(i as int, j as int),
{
    let mut s: Vec<char> = Vec::new();
    let mut k: usize = i;
    while k < j
        invariant
            i <= k <= j <= v@.len(),
            s@ == v@.subrange(i as int, k as int),
        decreases j - k,
    {
        s.push(v[k]);
        k = k + 1;
        assert(s@ =~= v@.subrange(i as int, k as int));
    }
    s
}

// ---------------------------------------------------------------------
// Words
// ---------------------------------------------------------------------

/// Number of spaces at the front.
pub open spec fn leading_spaces(s: Seq<char>) -> int
    decreases s.len(),
{
    if s.len() == 0 || !space(s[0]) {
        0
    } else {
        1 + leading_spaces(s.skip(1))
    }
}

/// Number of characters before the first space.
pub open spec fn word_len(s: Seq<char>) -> int
    decreases s.len(),
{
    if s.len() == 0 || space(s[0]) {
        0
    } else {
        1 + word_len(s.skip(1))
    }
}

pub open spec fn trim_start(s: Seq<char>) -> Seq<char> {
    s.skip(leading_spaces(s))
}

/// `s` without the spaces at its end.
pub open spec fn trim_end(s: Seq<char>) -> Seq<char>
    decreases s.len(),
{
    if s.len() == 0 || !space(s.last()) {
        s
    } else {
        trim_end(s.drop_last())
    }
}

pub open spec fn trim(s: Seq<char>) -> Seq<char> {
    trim_end(trim_start(s))
}

pub proof fn lemma_leading_spaces_bounds(s: Seq<char>)
    ensures
        0 <= leading_spaces(s) <= s.len(),
        forall|i: int| 0 <= i < leading_spaces(s) ==> space(#[trigger] s[i]),
        leading_spaces(s) < s.len() ==> !space(s[leading_spaces(s)]),
    decreases s.len(),
{
    if s.len() > 0 && space(s[0]) {
        lemma_leading_spaces_bounds(s.skip(1));
        assert forall|i: int| 0 <= i < leading_spaces(s) implies space(#[trigger] s[i]) by {
            if i > 0 {
                assert(s[i] == s.skip(1)[i - 1]);
            }
        }
    }
}

pub proof fn lemma_word_len_bounds(s: Seq<char>)
    ensures
        0 <= word_len(s) <= s.len(),
        s.len() > 0 && !space(s[0]) ==> word_len(s) >= 1,
        forall|i: int| 0 <= i < word_len(s) ==> !space(#[trigger] s[i]),
    decreases s.len(),
{
    if s.len() > 0 && !space(s[0]) {
        lemma_word_len_bounds(s.skip(1));
        assert forall|i: int| 0 <= i < word_len(s) implies !space(#[trigger] s[i]) by {
            if i > 0 {
                assert(s[i] == s.skip(1)[i - 1]);
            }
        }
    }
}

/// The words of a text, separated by any run of spaces.
pub open spec fn words(s: Seq<char>) -> Seq<Seq<char>>
    decreases s.len(),
    via words_decreases
{
    let t = trim_start(s);
    if t.len() == 0 {
        Seq::empty()
    } else {
        seq![t.take(word_len(t))] + words(t.skip(word_len(t)))
    }
}

#[via_fn]
proof fn words_decreases(s: Seq<char>) {
    lemma_leading_spaces_bounds(s);
    let t = trim_start(s);
    if t.len() > 0 {
        lemma_word_len_bounds(t);
    }
}

/// Word `n` of a text, or no characters where there are fewer words.
pub open spec fn word(s: Seq<char>, n: int) -> Seq<char> {
    if n < words(s).len() {
        words(s)[n]
    } else {
        Seq::empty()
    }
}

fn count_spaces(v: &[char], from: usize) -> (n: usize)
    requires
        from <= v@.len(),
    ensures
        n == leading_spaces(v@.skip(from as int)),
        from + n <= v@.len(),
{
    let mut k: usize = from;
    assert(v@.skip(from as int) =~= v@.skip(k as int));
    while k < v.len() && is_space(v[k])
        invariant
            from <= k <= v@.len(),
            leading_spaces(v@.skip(from as int)) == k - from + leading_spaces(v@.skip(k as int)),
        decreases v@.len() - k,
    {
        assert(v@.skip(k as int).skip(1) =~= v@.skip(k + 1));
        k = k + 1;
    }
    k - from
}

fn count_word(v: &[char], from: usize) -> (n: usize)
    requires
        from <= v@.len(),
    ensures
        n == word_len(v@.skip(from as int)),
        from + n <= v@.len(),
{
    let mut k: usize = from;
    while k < v.len() && !is_space(v[k])
        invariant
            from <= k <= v@.len(),
            word_len(v@.skip(from as int)) == k - from + word_len(v@.skip(k as int)),
        decreases v@.len() - k,
    {
        assert(v@.skip(k as int).skip(1) =~= v@.skip(k + 1));
        k = k + 1;
    }
    k - from
}

/// Splits a text into its words.
pub fn split_words(v: &[char]) -> (w: Vec<Vec<char>>)
    ensures
        w@.map_values(|x: Vec<char>| x@) == words(v@),
        w@.len() == words(v@).len(),
        forall|i: int| 0 <= i < w@.len() ==> (#[trigger] w@[i])@ == words(v@)[i],
{
    let mut w: Vec<Vec<char>> = Vec::new();
    let total: usize = v.len();
    let mut at: usize = 0;
    let ghost mut done: Seq<Seq<char>> = Seq::empty();
    assert(v@.skip(0) =~= v@);
    assert(done + words(v@) =~= words(v@));
    loop
        invariant_except_break
            total == v@.len(),
            at <= v@.len(),
            words(v@) == done + words(v@.skip(at as int)),
        invariant
            w@.len() == done.len(),
            forall|i: int| 0 <= i < w@.len() ==> (#[trigger] w@[i])@ == done[i],
        ensures
            done == words(v@),
        decreases v@.len() - at,
    {
        let gap: usize = count_spaces(v, at);
        let ghost rest = v@.skip(at as int);
        let start: usize = at + gap;
        assert(trim_start(rest) =~= v@.skip(start as int));
        if start == total {
            assert(done + Seq::<Seq<char>>::empty() =~= done);
            break;
        }
        let n: usize = count_word(v, start);
        proof {
            lemma_leading_spaces_bounds(rest);
            assert(v@.skip(start as int)[0] == rest[gap as int]);
            lemma_word_len_bounds(v@.skip(start as int));
        }
        let one: Vec<char> = slice_of(v, start, start + n);
        proof {
            let t = v@.skip(start as int);
            assert(one@ =~= t.take(n as int));
            assert(t.skip(n as int) =~= v@.skip(start + n));
            assert(done + (seq![one@] + words(v@.skip(start + n))) =~= done.push(one@) + words(
                v@.skip(start + n),
            ));
            done = done.push(one@);
        }
        w.push(one);
        at = start + n;
    }
    assert(w@.map_values(|x: Vec<char>| x@) =~= words(v@));
    w
}

/// Removes the spaces at the start.
pub fn trimmed_start(v: &[char]) -> (t: Vec<char>)
    ensures
        t@ == trim_start(v@),
{
    assert(v@.skip(0) =~= v@);
    let start: usize = count_spaces(v, 0);
    assert(v@.skip(start as int) =~= v@.subrange(start as int, v@.len() as int));
    slice_of(v, start, v.len())
}

/// Removes the spaces at both ends.
pub fn trimmed(v: &[char]) -> (t: Vec<char>)
    ensures
        t@ == trim(v@),
{
    assert(v@.skip(0) =~= v@);
    let start: usize = count_spaces(v, 0);
    let mut end: usize = v.len();
    let ghost s = trim_start(v@);
    assert(s =~= v@.subrange(start as int, end as int));
    while end > start && is_space(v[end - 1])
        invariant
            start <= end <= v@.len(),
            trim_end(s) == trim_end(v@.subrange(start as int, end as int)),
        decreases end,
    {
        assert(v@.subrange(start as int, end as int).drop_last() =~= v@.subrange(
            start as int,
            end - 1,
        ));
        end = end - 1;
    }
    slice_of(v, start, end)
}

/// What is left after `n` bytes of UTF-8, where a character ends there.
pub open spec fn skip_bytes(s: Seq<char>, n: int) -> Option<Seq<char>>
    decreases s.len(),
{
    if n == 0 {
        Some(s)
    } else if s.len() == 0 || utf8_len(s[0]) > n {
        None
    } else {
        skip_bytes(s.skip(1), n - utf8_len(s[0]))
    }
}

/// Index of the character after `n` bytes of UTF-8, where one ends there.
pub fn after_bytes(v: &[char], n: usize) -> (r: Option<usize>)
    ensures
        match r {
            Some(k) => k <= v@.len() && skip_bytes(v@, n as int) == Some(v@.skip(k as int)),
            None => skip_bytes(v@, n as int) is None,
        },
{
    let mut left: usize = n;
    let mut k: usize = 0;
    assert(v@.skip(0) =~= v@);
    while left > 0
        invariant
            k <= v@.len(),
            skip_bytes(v@, n as int) == skip_bytes(v@.skip(k as int), left as int),
        decreases left,
    {
        if k == v.len() {
            return None;
        }
        let b: usize = char_bytes(v[k]);
        if b > left {
            return None;
        }
        assert(v@.skip(k as int).skip(1) =~= v@.skip(k + 1));
        left = left - b;
        k = k + 1;
    }
    Some(k)
}

// ---------------------------------------------------------------------
// Decimal numbers
// ---------------------------------------------------------------------

pub open spec fn digit_char(d: int) -> char {
    (48 + d) as char
}

pub open spec fn digit(c: char) -> bool {
    48 <= c as int <= 57
}

/// The decimal digits of a number.
pub open spec fn decimal(n: nat) -> Seq<char>
    decreases n,
{
    if n < 10 {
        seq![digit_char(n as int)]
    } else {
        decimal(n / 10).push(digit_char((n % 10) as int))
    }
}

/// A signed number in decimal.
pub open spec fn decimal_signed(n: int) -> Seq<char> {
    if n < 0 {
        seq!['-'] + decimal((-n) as nat)
    } else {
        decimal(n as nat)
    }
}

fn to_digit(d: u64) -> (c: char)
    requires
        d < 10,
    ensures
        c == digit_char(d as int),
{
    match d {
        0 => '0',
        1 => '1',
        2 => '2',
        3 => '3',
        4 => '4',
        5 => '5',
        6 => '6',
        7 => '7',
        8 => '8',
        _ => '9',
    }
}

/// Adds a number in decimal.
pub fn push_decimal(v: &mut Vec<char>, n: u64)
    ensures
        final(v)@ == old(v)@ + decimal(n as nat),
    decreases n,
{
    if n < 10 {
        v.push(to_digit(n));
        assert(v@ =~= old(v)@ + decimal(n as nat));
    } else {
        push_decimal(v, n / 10);
        v.push(to_digit(n % 10));
        assert(v@ =~= old(v)@ + decimal(n as nat));
    }
}

/// Adds a signed number in decimal.
pub fn push_signed(v: &mut Vec<char>, n: i64)
    ensures
        final(v)@ == old(v)@ + decimal_signed(n as int),
{
    if n < 0 {
        v.push('-');
        let magnitude: u64 = (-(n as i128)) as u64;
        push_decimal(v, magnitude);
        assert(v@ =~= old(v)@ + decimal_signed(n as int));
    } else {
        push_decimal(v, n as u64);
    }
}

/// The number that some digits stand for.
pub open spec fn digits_value(s: Seq<char>) -> int
    decreases s.len(),
{
    if s.len() == 0 {
        0
    } else {
        10 * digits_value(s.drop_last()) + (s.last() as int - 48)
    }
}

pub open spec fn all_digits(s: Seq<char>) -> bool {
    s.len() > 0 && forall|i: int| 0 <= i < s.len() ==> digit(#[trigger] s[i])
}

/// The integer that a text stands for: digits, with or without a sign in
/// front.
pub open spec fn integer(s: Seq<char>) -> Option<int> {
    let signed = s.len() > 0 && (s[0] == '-' || s[0] == '+');
    let digits = if signed {
        s.skip(1)
    } else {
        s
    };
    if !all_digits(digits) {
        None
    } else if signed && s[0] == '-' {
        Some(-digits_value(digits))
    } else {
        Some(digits_value(digits))
    }
}

/// A text as a 32-bit integer, where it stands for one.
pub open spec fn int32(s: Seq<char>) -> Option<i32> {
    match integer(s) {
        Some(n) if i32::MIN <= n <= i32::MAX => Some(n as i32),
        _ => None,
    }
}

/// Reads a 32-bit integer.
#[verifier::loop_isolation(false)]
pub fn parse_i32(v: &[char]) -> (r: Option<i32>)
    ensures
        r == int32(v@),
{
    let signed: bool = v.len() > 0 && (v[0] == '-' || v[0] == '+');
    let start: usize = if signed {
        1
    } else {
        0
    };
    let ghost ds = v@.skip(start as int);
    assert(start == 0 ==> ds =~= v@);
    if start == v.len() {
        assert(ds.len() == 0);
        return None;
    }
    let mut n: i64 = 0;
    let mut k: usize = start;
    while k < v.len()
        invariant
            start <= k <= v@.len(),
            ds == v@.skip(start as int),
            forall|i: int| 0 <= i < k - start ==> digit(#[trigger] ds[i]),
            0 <= n <= 4_000_000_000,
            n < 4_000_000_000 ==> n == digits_value(ds.take(k - start)),
            n == 4_000_000_000 ==> digits_value(ds.take(k - start)) >= 4_000_000_000,
        decreases v@.len() - k,
    {
        let u: u32 = code_point(v[k]);
        assert(ds[k - start] == v@[k as int]);
        if u < 48 || u > 57 {
            assert(!digit(ds[k - start]));
            return None;
        }
        proof {
            let t = ds.take(k - start + 1);
            assert(t.drop_last() =~= ds.take(k - start));
            assert(t.last() == v@[k as int]);
        }
        n = 10 * n + (u as i64 - 48);
        if n > 4_000_000_000 {
            n = 4_000_000_000;
        }
        k = k + 1;
    }
    assert(ds.take(k - start) =~= ds);
    assert(all_digits(ds));
    let value: i64 = if signed && v[0] == '-' {
        -n
    } else {
        n
    };
    if -2_147_483_648 <= value && value <= 2_147_483_647 {
        Some(value as i32)
    } else {
        None
    }
}

/// A number that was written in decimal reads back as itself.
pub proof fn law_decimal_round_trip(n: int)
    requires
        i32::MIN <= n <= i32::MAX,
    ensures
        int32(decimal_signed(n)) == Some(n as i32),
{
    let m: nat = if n < 0 {
        (-n) as nat
    } else {
        n as nat
    };
    lemma_decimal_value(m);
    let s = decimal_signed(n);
    if n < 0 {
        assert(s.skip(1) =~= decimal(m));
    } else {
        assert(digit(s[0]));
    }
}

pub proof fn lemma_decimal_value(n: nat)
    ensures
        all_digits(decimal(n)),
        digits_value(decimal(n)) == n,
    decreases n,
{
    if n >= 10 {
        lemma_decimal_value(n / 10);
        let s = decimal(n);
        assert(s.drop_last() =~= decimal(n / 10));
        assert forall|i: int| 0 <= i < s.len() implies digit(#[trigger] s[i]) by {
            if i < s.len() - 1 {
                assert(s[i] == decimal(n / 10)[i]);
            }
        }
    } else {
        let s = decimal(n);
        assert(s.drop_last() =~= Seq::<char>::empty());
        reveal_with_fuel(digits_value, 2);
    }
}

// ---------------------------------------------------------------------
// Lines
// ---------------------------------------------------------------------

/// Number of characters before the first line feed.
pub open spec fn line_len(s: Seq<char>) -> int
    decreases s.len(),
{
    if s.len() == 0 || s[0] == '\n' {
        0
    } else {
        1 + line_len(s.skip(1))
    }
}

/// A line without the carriage return that belongs to its line feed.
pub open spec fn without_cr(s: Seq<char>) -> Seq<char> {
    if s.len() > 0 && s.last() == '\r' {
        s.drop_last()
    } else {
        s
    }
}

pub proof fn lemma_line_len_bounds(s: Seq<char>)
    ensures
        0 <= line_len(s) <= s.len(),
        line_len(s) < s.len() ==> s[line_len(s)] == '\n',
        forall|i: int| 0 <= i < line_len(s) ==> #[trigger] s[i] != '\n',
    decreases s.len(),
{
    if s.len() > 0 && s[0] != '\n' {
        lemma_line_len_bounds(s.skip(1));
        assert forall|i: int| 0 <= i < line_len(s) implies #[trigger] s[i] != '\n' by {
            if i > 0 {
                assert(s[i] == s.skip(1)[i - 1]);
            }
        }
    }
}

/// The lines of a text. A line ends with a line feed, or a carriage return
/// and a line feed; the last one may lack its end.
pub open spec fn lines(s: Seq<char>) -> Seq<Seq<char>>
    decreases s.len(),
    via lines_decreases
{
    if s.len() == 0 {
        Seq::empty()
    } else if line_len(s) < s.len() {
        seq![without_cr(s.take(line_len(s)))] + lines(s.skip(line_len(s) + 1))
    } else {
        seq![s]
    }
}

#[via_fn]
proof fn lines_decreases(s: Seq<char>) {
    lemma_line_len_bounds(s);
}

/// Splits a text into its lines.
pub fn split_lines(v: &[char]) -> (w: Vec<Vec<char>>)
    ensures
        w@.len() == lines(v@).len(),
        forall|i: int| 0 <= i < w@.len() ==> (#[trigger] w@[i])@ == lines(v@)[i],
{
    let mut w: Vec<Vec<char>> = Vec::new();
    let mut at: usize = 0;
    let ghost mut done: Seq<Seq<char>> = Seq::empty();
    assert(v@.skip(0) =~= v@);
    assert(done + lines(v@) =~= lines(v@));
    while at < v.len()
        invariant
            at <= v@.len(),
            lines(v@) == done + lines(v@.skip(at as int)),
            w@.len() == done.len(),
            forall|i: int| 0 <= i < w@.len() ==> (#[trigger] w@[i])@ == done[i],
        decreases v@.len() - at,
    {
        let ghost rest = v@.skip(at as int);
        let mut k: usize = at;
        while k < v.len() && v[k] != '\n'
            invariant
                at <= k <= v@.len(),
                line_len(v@.skip(at as int)) == k - at + line_len(v@.skip(k as int)),
            decreases v@.len() - k,
        {
            assert(v@.skip(k as int).skip(1) =~= v@.skip(k + 1));
            k = k + 1;
        }
        let mut one: Vec<char> = slice_of(v, at, k);
        assert(one@ =~= rest.take(k - at));
        if k < v.len() {
            if one.len() > 0 && one[one.len() - 1] == '\r' {
                one.pop();
            }
            assert(one@ =~= without_cr(rest.take(k - at)));
            proof {
                assert(rest.skip(k - at + 1) =~= v@.skip(k + 1));
                assert(done + (seq![one@] + lines(v@.skip(k + 1))) =~= done.push(one@) + lines(
                    v@.skip(k + 1),
                ));
                done = done.push(one@);
            }
            w.push(one);
            at = k + 1;
        } else {
            proof {
                assert(one@ =~= rest);
                assert(v@.skip(k as int) =~= Seq::<char>::empty());
                assert(done + seq![one@] =~= done.push(one@) + lines(v@.skip(k as int)));
                done = done.push(one@);
            }
            w.push(one);
            at = k;
        }
    }
    assert(v@.skip(at as int) =~= Seq::<char>::empty());
    assert(done + lines(v@.skip(at as int)) =~= done);
    w
}

/// Lines put together again, each with its line feed.
pub open spec fn joined(ls: Seq<Seq<char>>) -> Seq<char>
    decreases ls.len(),
{
    if ls.len() == 0 {
        Seq::empty()
    } else {
        joined(ls.drop_last()) + ls.last().push('\n')
    }
}

/// Puts lines together again, each with its line feed.
pub fn join_lines(w: &Vec<Vec<char>>) -> (v: Vec<char>)
    ensures
        v@ == joined(w@.map_values(|l: Vec<char>| l@)),
{
    let mut v: Vec<char> = Vec::new();
    let n: usize = w.len();
    let ghost ls = w@.map_values(|l: Vec<char>| l@);
    for i in 0..n
        invariant
            n == w@.len(),
            ls == w@.map_values(|l: Vec<char>| l@),
            v@ == joined(ls.take(i as int)),
    {
        v.extend_from_slice(w[i].as_slice());
        v.push('\n');
        proof {
            assert(ls.take(i + 1).drop_last() =~= ls.take(i as int));
            assert(v@ =~= joined(ls.take(i as int)) + ls[i as int].push('\n'));
        }
    }
    assert(ls.take(n as int) =~= ls);
    v
}

proof fn lemma_line_len(l: Seq<char>, rest: Seq<char>)
    requires
        !l.contains('\n'),
    ensures
        line_len(l + seq!['\n'] + rest) == l.len(),
    decreases l.len(),
{
    let s = l + seq!['\n'] + rest;
    if l.len() > 0 {
        assert(l.contains(l[0]));
        assert forall|c: char| l.skip(1).contains(c) implies l.contains(c) by {
            let i = choose|i: int| 0 <= i < l.skip(1).len() && l.skip(1)[i] == c;
            assert(l[i + 1] == c);
        }
        lemma_line_len(l.skip(1), rest);
        assert(s.skip(1) =~= l.skip(1) + seq!['\n'] + rest);
    }
}

proof fn lemma_joined_first(ls: Seq<Seq<char>>)
    requires
        ls.len() > 0,
    ensures
        joined(ls) == ls[0] + seq!['\n'] + joined(ls.skip(1)),
    decreases ls.len(),
{
    if ls.len() == 1 {
        assert(ls.drop_last() =~= Seq::<Seq<char>>::empty());
        assert(ls.skip(1) =~= Seq::<Seq<char>>::empty());
        assert(joined(ls) =~= ls[0] + seq!['\n'] + joined(ls.skip(1)));
    } else {
        lemma_joined_first(ls.drop_last());
        assert(ls.drop_last().skip(1) =~= ls.skip(1).drop_last());
        assert(joined(ls) =~= ls[0] + seq!['\n'] + joined(ls.skip(1)));
    }
}

/// Lines put together split into the same lines again, but for a carriage
/// return at the end of one.
pub proof fn law_joined_lines_split(ls: Seq<Seq<char>>)
    requires
        forall|i: int| 0 <= i < ls.len() ==> !(#[trigger] ls[i]).contains('\n'),
    ensures
        lines(joined(ls)) == ls.map_values(|l: Seq<char>| without_cr(l)),
    decreases ls.len(),
{
    if ls.len() > 0 {
        let l = ls[0];
        let rest = joined(ls.skip(1));
        let s = joined(ls);
        lemma_joined_first(ls);
        lemma_line_len(l, rest);
        assert(s.take(line_len(s)) =~= l);
        assert(s.skip(line_len(s) + 1) =~= rest);
        assert forall|i: int| 0 <= i < ls.skip(1).len() implies !(#[trigger] ls.skip(
            1,
        )[i]).contains('\n') by {
            assert(ls.skip(1)[i] == ls[i + 1]);
        }
        law_joined_lines_split(ls.skip(1));
        assert(lines(s) =~= ls.map_values(|l: Seq<char>| without_cr(l)));
    } else {
        assert(lines(joined(ls)) =~= ls.map_values(|l: Seq<char>| without_cr(l)));
    }
}

/// No line holds a line feed.
pub proof fn lemma_lines_hold_no_feed(s: Seq<char>)
    ensures
        forall|i: int| 0 <= i < lines(s).len() ==> !(#[trigger] lines(s)[i]).contains('\n'),
    decreases s.len(),
{
    if s.len() > 0 {
        lemma_line_len_bounds(s);
        let first = lines(s)[0];
        assert(!first.contains('\n')) by {
            if first.contains('\n') {
                let k = choose|k: int| 0 <= k < first.len() && first[k] == '\n';
                assert(s[k] == first[k]);
            }
        }
        if line_len(s) < s.len() {
            let rest = s.skip(line_len(s) + 1);
            lemma_lines_hold_no_feed(rest);
            assert forall|i: int| 0 <= i < lines(s).len() implies !(#[trigger] lines(
                s,
            )[i]).contains('\n') by {
                if i > 0 {
                    assert(lines(s)[i] == lines(rest)[i - 1]);
                }
            }
        }
    }
}

// ---------------------------------------------------------------------
// Laws
// ---------------------------------------------------------------------

/// The characters below 0x80 that part words are the space and those from
/// the tab to the carriage return.
pub proof fn law_ascii_spaces(c: char)
    requires
        (c as int) < 0x80,
    ensures
        space(c) <==> c == ' ' || c == '\t' || c == '\n' || c == '\u{b}' || c == '\u{c}' || c
            == '\r',
{
}

/// A letter from `a` to `z` becomes the one at the same place from `A` to
/// `Z`; everything else stays.
pub proof fn law_ascii_upper(c: char)
    ensures
        'a' <= c <= 'z' ==> 'A' <= ascii_upper(c) <= 'Z' && ascii_upper(c) as int - 'A' as int == c
            as int - 'a' as int,
        !('a' <= c <= 'z') ==> ascii_upper(c) == c,
{
}

proof fn lemma_word_len_of(w: Seq<char>, rest: Seq<char>)
    requires
        forall|i: int| 0 <= i < w.len() ==> !space(#[trigger] w[i]),
        rest.len() > 0 ==> space(rest[0]),
    ensures
        word_len(w + rest) == w.len(),
    decreases w.len(),
{
    let s = w + rest;
    if w.len() > 0 {
        assert(s[0] == w[0]);
        assert(s.skip(1) =~= w.skip(1) + rest);
        lemma_word_len_of(w.skip(1), rest);
    } else {
        assert(s =~= rest);
    }
}

/// A run of characters without a space that ends at a space or with the
/// text is its first word, and the words of the rest follow it. A space in
/// front makes no difference, and no text has no words.
pub proof fn law_words_in_order(w: Seq<char>, rest: Seq<char>, c: char)
    requires
        w.len() > 0,
        forall|i: int| 0 <= i < w.len() ==> !space(#[trigger] w[i]),
        rest.len() > 0 ==> space(rest[0]),
        space(c),
    ensures
        words(w + rest) == seq![w] + words(rest),
        words(seq![c] + rest) == words(rest),
        words(Seq::empty()) == Seq::<Seq<char>>::empty(),
{
    let s = w + rest;
    assert(s[0] == w[0]);
    lemma_word_len_of(w, rest);
    assert(trim_start(s) =~= s);
    assert(s.take(w.len() as int) =~= w);
    assert(s.skip(w.len() as int) =~= rest);
    let t = seq![c] + rest;
    assert(t[0] == c);
    assert(t.skip(1) =~= rest);
    lemma_leading_spaces_bounds(rest);
    assert(trim_start(t) =~= trim_start(rest));
    assert(trim_start(Seq::<char>::empty()) =~= Seq::empty());
}

/// Word `n` counts from 0, and where there are fewer words it is empty.
pub proof fn law_word_by_number(s: Seq<char>, n: int)
    requires
        0 <= n,
    ensures
        n < words(s).len() ==> word(s, n) == words(s)[n],
        n >= words(s).len() ==> word(s, n).len() == 0,
{
}

proof fn lemma_trim_end_keeps(s: Seq<char>)
    ensures
        trim_end(s).len() <= s.len(),
        trim_end(s) == s.take(trim_end(s).len() as int),
        trim_end(s).len() > 0 ==> !space(trim_end(s).last()),
        forall|i: int| trim_end(s).len() <= i < s.len() ==> space(#[trigger] s[i]),
    decreases s.len(),
{
    if s.len() > 0 && space(s.last()) {
        let t = s.drop_last();
        lemma_trim_end_keeps(t);
        let n = trim_end(s).len() as int;
        assert(t.take(n) =~= s.take(n));
        assert forall|i: int| n <= i < s.len() implies space(#[trigger] s[i]) by {
            if i < t.len() {
                assert(t[i] == s[i]);
            }
        }
    } else {
        assert(s.take(s.len() as int) =~= s);
    }
}

/// Trimming takes the spaces off both ends and nothing else: what is left
/// neither begins nor ends with a space, and what was taken is spaces.
pub proof fn law_trim(s: Seq<char>)
    ensures
        ({
            let t = trim(s);
            let a = leading_spaces(s);
            &&& 0 <= a && a + t.len() <= s.len()
            &&& t == s.subrange(a, a + t.len())
            &&& t.len() > 0 ==> !space(t[0]) && !space(t.last())
            &&& forall|i: int| 0 <= i < a ==> space(#[trigger] s[i])
            &&& forall|i: int| a + t.len() <= i < s.len() ==> space(#[trigger] s[i])
        }),
{
    lemma_leading_spaces_bounds(s);
    let u = trim_start(s);
    lemma_trim_end_keeps(u);
    let t = trim(s);
    let a = leading_spaces(s);
    assert(t =~= s.subrange(a, a + t.len()));
    assert forall|i: int| a + t.len() <= i < s.len() implies space(#[trigger] s[i]) by {
        assert(u[i - a] == s[i]);
    }
    if t.len() > 0 {
        assert(t[0] == s[a]);
    }
}

/// Writing another decimal digit multiplies by ten and adds it; the digits
/// are the characters `0` to `9`. A number below zero has a minus in front.
pub proof fn law_decimal_digits(n: nat, d: nat)
    requires
        d < 10,
    ensures
        decimal(d) == seq!["0123456789"@[d as int]],
        n > 0 ==> decimal(10 * n + d) == decimal(n).push("0123456789"@[d as int]),
        decimal_signed(n as int) == decimal(n),
        n > 0 ==> decimal_signed(-(n as int)) == seq!['-'] + decimal(n),
{
    reveal_strlit("0123456789");
    assert(digit_char(d as int) == "0123456789"@[d as int]);
    assert((10 * n + d) / 10 == n);
    assert((10 * n + d) % 10 == d);
}

/// A number is read only from digits behind at most one sign, and within
/// the range of 32 bits.
pub proof fn law_numbers_are_digits(s: Seq<char>)
    ensures
        int32(s) is Some ==> s.len() > 0 && forall|i: int|
            0 < i < s.len() ==> '0' <= #[trigger] s[i] <= '9',
        int32(s) is Some && !('0' <= s[0] <= '9') ==> (s[0] == '-' || s[0] == '+') && s.len() > 1,
        s.len() > 0 && s[0] == '-' ==> (int32(s) matches Some(v) ==> v <= 0),
        s.len() > 0 && s[0] != '-' ==> (int32(s) matches Some(v) ==> v >= 0),
        s.len() > 1 && s[0] == '+' && '0' <= s[1] <= '9' ==> int32(s) == int32(s.skip(1)),
{
    if s.len() > 0 && (s[0] == '-' || s[0] == '+') {
        let t = s.skip(1);
        assert(forall|i: int| 0 < i < s.len() ==> #[trigger] s[i] == t[i - 1]);
        lemma_digits_value_positive(t);
        if t.len() > 0 {
            assert(t[0] == s[1]);
        }
        if all_digits(t) {
            assert forall|i: int| 0 < i < s.len() implies '0' <= #[trigger] s[i] <= '9' by {
                assert(digit(t[i - 1]));
            }
        }
    } else {
        lemma_digits_value_positive(s);
        if all_digits(s) {
            assert forall|i: int| 0 <= i < s.len() implies '0' <= #[trigger] s[i] <= '9' by {
                assert(digit(s[i]));
            }
        }
    }
}

proof fn lemma_digits_value_positive(s: Seq<char>)
    ensures
        all_digits(s) ==> digits_value(s) >= 0,
    decreases s.len(),
{
    if s.len() > 0 && all_digits(s) {
        assert(digit(s[s.len() - 1]));
        if s.len() > 1 {
            assert forall|i: int| 0 <= i < s.drop_last().len() implies digit(
                #[trigger] s.drop_last()[i],
            ) by {
                assert(digit(s[i]));
            }
            lemma_digits_value_positive(s.drop_last());
        } else {
            assert(s.drop_last().len() == 0);
            assert(digits_value(s.drop_last()) == 0);
        }
    }
}

/// Characters take one byte below 0x80, two below 0x800, three below
/// 0x10000, and else four; a text takes what its characters take.
pub proof fn law_utf8_lengths(s: Seq<char>, c: char)
    ensures
        utf8_len(c) == 1 <==> (c as int) < 0x80,
        utf8_len(c) == 2 <==> 0x80 <= (c as int) && (c as int) < 0x800,
        utf8_len(c) == 3 <==> 0x800 <= (c as int) && (c as int) < 0x1_0000,
        utf8_len(c) == 4 <==> 0x1_0000 <= (c as int),
        byte_len(Seq::empty()) == 0,
        byte_len(s.push(c)) == byte_len(s) + utf8_len(c),
{
    assert(s.push(c).drop_last() =~= s);
}

/// Up to three words with a space between them are read back one by one.
pub proof fn law_words_of_line(a: Seq<char>, b: Seq<char>, c: Seq<char>)
    requires
        a.len() > 0 && b.len() > 0 && c.len() > 0,
        forall|i: int| 0 <= i < a.len() ==> !space(#[trigger] a[i]),
        forall|i: int| 0 <= i < b.len() ==> !space(#[trigger] b[i]),
        forall|i: int| 0 <= i < c.len() ==> !space(#[trigger] c[i]),
    ensures
        words(a) == seq![a],
        words(a + seq![' '] + b) == seq![a, b],
        words(a + seq![' '] + b + seq![' '] + c) == seq![a, b, c],
{
    let none = Seq::<char>::empty();
    law_words_in_order(a, none, ' ');
    law_words_in_order(b, none, ' ');
    law_words_in_order(c, none, ' ');
    assert(a + none =~= a && b + none =~= b && c + none =~= c);
    assert(words(a) =~= seq![a]);
    let sb = seq![' '] + b;
    lemma_space_in_front(b);
    law_words_in_order(a, sb, ' ');
    assert(a + seq![' '] + b =~= a + sb);
    assert(words(a + sb) =~= seq![a, b]);
    let sc = seq![' '] + c;
    lemma_space_in_front(c);
    law_words_in_order(b, sc, ' ');
    lemma_space_in_front(b + sc);
    let sbc = seq![' '] + (b + sc);
    law_words_in_order(a, sbc, ' ');
    assert(a + seq![' '] + b + seq![' '] + c =~= a + sbc);
    assert(words(a + sbc) =~= seq![a, b, c]);
}

proof fn lemma_space_in_front(s: Seq<char>)
    ensures
        words(seq![' '] + s) == words(s),
{
    let t = seq![' '] + s;
    assert(t[0] == ' ');
    assert(t.skip(1) =~= s);
    lemma_leading_spaces_bounds(s);
    assert(trim_start(t) =~= trim_start(s));
}

proof fn lemma_byte_len_skip(s: Seq<char>)
    requires
        s.len() > 0,
    ensures
        byte_len(s) == utf8_len(s[0]) + byte_len(s.skip(1)),
        byte_len(s.skip(1)) >= 0,
    decreases s.len(),
{
    if s.len() > 1 {
        lemma_byte_len_skip(s.drop_last());
        assert(s.drop_last().skip(1) =~= s.skip(1).drop_last());
    } else {
        assert(s.skip(1) =~= Seq::<char>::empty());
        assert(s.drop_last() =~= Seq::<char>::empty());
    }
}

/// Skipping the bytes of the front of a text leaves the rest of it.
pub proof fn law_skip_bytes(front: Seq<char>, rest: Seq<char>)
    ensures
        skip_bytes(front + rest, byte_len(front)) == Some(rest),
    decreases front.len(),
{
    if front.len() == 0 {
        assert(front + rest =~= rest);
    } else {
        lemma_byte_len_skip(front);
        law_skip_bytes(front.skip(1), rest);
        assert((front + rest).skip(1) =~= front.skip(1) + rest);
        assert((front + rest)[0] == front[0]);
    }
}

/// A line ends at the next line feed, with or without a carriage return in
/// front of it, and the lines of the rest follow. What is left without a
/// line feed is a line as it is, and nothing is none.
pub proof fn law_lines_end_at_feeds(l: Seq<char>, rest: Seq<char>)
    requires
        !l.contains('\n'),
    ensures
        l.len() == 0 || l.last() != '\r' ==> lines(l + seq!['\n'] + rest) == seq![l] + lines(rest),
        lines(l + seq!['\r', '\n'] + rest) == seq![l] + lines(rest),
        l.len() > 0 ==> lines(l) == seq![l],
        lines(Seq::empty()) == Seq::<Seq<char>>::empty(),
{
    let s = l + seq!['\n'] + rest;
    lemma_line_len(l, rest);
    assert(s.take(l.len() as int) =~= l);
    assert(s.skip(l.len() as int + 1) =~= rest);
    let m = l.push('\r');
    assert forall|i: int| 0 <= i < m.len() implies m[i] != '\n' by {
        if i < l.len() {
            assert(l.contains(l[i]));
        }
    }
    let t = m + seq!['\n'] + rest;
    assert(l + seq!['\r', '\n'] + rest =~= t);
    lemma_line_len(m, rest);
    assert(t.take(m.len() as int) =~= m);
    assert(t.skip(m.len() as int + 1) =~= rest);
    assert(m.drop_last() =~= l);
    lemma_line_len_bounds(l);
    if line_len(l) < l.len() {
        assert(l.contains(l[line_len(l)]));
    }
}

/// Joining puts a line feed behind each line.
pub proof fn law_joined_by_feeds(ls: Seq<Seq<char>>, l: Seq<char>)
    ensures
        joined(Seq::empty()) == Seq::<char>::empty(),
        joined(ls.push(l)) == joined(ls) + l + seq!['\n'],
{
    assert(ls.push(l).drop_last() =~= ls);
    assert(joined(ls.push(l)) =~= joined(ls) + l + seq!['\n']);
}

} // verus!
