//! Verified text utilities: the library works on sequences of characters, and
//! every operation here is specified over `Seq<char>`. Strings are split into
//! lines, trimmed, searched and rebuilt without any outside help; the one
//! trusted step is assembling a `String` back out of its characters.

use vstd::prelude::*;

verus! {

// ---------------------------------------------------------------------------
// Character classes
// ---------------------------------------------------------------------------

/// Whitespace, as this library trims it: the ASCII blank characters.
pub open spec fn spec_is_space(c: char) -> bool {
    c == ' ' || c == '\t' || c == '\r' || c == '\n' || c == '\u{b}' || c == '\u{c}'
}

/// Whether `c` is a decimal digit.
pub open spec fn spec_is_digit(c: char) -> bool {
    48 <= c as u32 <= 57
}

/// Numeric value of a decimal digit character.
pub open spec fn spec_digit_val(c: char) -> int {
    c as u32 - 48
}

/// Whitespace test, executable form.
pub fn is_space(c: char) -> (b: bool)
    ensures
        b == spec_is_space(c),
{
    c == ' ' || c == '\t' || c == '\r' || c == '\n' || c == '\u{b}' || c == '\u{c}'
}

/// Decimal digit test, executable form.
pub fn is_digit(c: char) -> (b: bool)
    ensures
        b == spec_is_digit(c),
{
    let u = c as u32;
    48 <= u && u <= 57
}

// ---------------------------------------------------------------------------
// Conversions between String and Vec<char>
// ---------------------------------------------------------------------------

/// The characters of `s`, as a vector.
pub fn chars_of(s: &str) -> (r: Vec<char>)
    ensures
        r@ == s@,
{
    let n = s.unicode_len();
    let mut r: Vec<char> = Vec::new();
    let mut i: usize = 0;
    while i < n
        invariant
            i <= n,
            n == s@.len(),
            r@ == s@.take(i as int),
        decreases n - i,
    {
        r.push(s.get_char(i));
        i = i + 1;
        proof {
            assert(r@ =~= s@.take(i as int));
        }
    }
    proof {
        assert(r@ =~= s@);
    }
    r
}

/// Relies on `String: FromIterator<char>`: collecting characters yields the
/// string of exactly those characters, in order.
#[verifier::external_body]
pub fn string_from_chars(v: &Vec<char>) -> (r: String)
    ensures
        r@ == v@,
{
    v.iter().collect()
}

/// Copy of `v[from..to]`.
pub fn vec_subrange(v: &Vec<char>, from: usize, to: usize) -> (r: Vec<char>)
    requires
        from <= to <= v@.len(),
    ensures
        r@ == v@.subrange(from as int, to as int),
{
    let mut r: Vec<char> = Vec::new();
    let mut i: usize = from;
    while i < to
        invariant
            from <= i <= to <= v@.len(),
            r@ == v@.subrange(from as int, i as int),
        decreases to - i,
    {
        r.push(v[i]);
        i = i + 1;
        proof {
            assert(r@ =~= v@.subrange(from as int, i as int));
        }
    }
    r
}

// ---------------------------------------------------------------------------
// Searching
// ---------------------------------------------------------------------------

/// Index of the first occurrence of `c` in `s`, if any.
pub open spec fn spec_find(s: Seq<char>, c: char) -> Option<int>
    decreases s.len(),
{
    if s.len() == 0 {
        None
    } else if s[0] == c {
        Some(0int)
    } else {
        match spec_find(s.drop_first(), c) {
            Some(i) => Some(i + 1),
            None => None,
        }
    }
}

/// `spec_find` returns the first hit: a scan that misses everywhere before a
/// hit at `i` pins the result.
pub proof fn lemma_find_characterization(s: Seq<char>, c: char, i: int)
    requires
        0 <= i <= s.len(),
        forall|j: int| 0 <= j < i ==> s[j] != c,
        i < s.len() ==> s[i] == c,
    ensures
        i < s.len() ==> spec_find(s, c) == Some(i),
        i == s.len() ==> spec_find(s, c) is None,
    decreases s.len(),
{
    if s.len() == 0 {
    } else if s[0] == c {
        assert(i == 0);
    } else {
        assert(i >= 1);
        let t = s.drop_first();
        assert(forall|j: int| 0 <= j < i - 1 ==> t[j] != c);
        lemma_find_characterization(t, c, i - 1);
    }
}

/// First index of `c` in `v`, scanning from the front.
pub fn find_char(v: &Vec<char>, c: char) -> (r: Option<usize>)
    ensures
        match r {
            Some(i) => spec_find(v@, c) == Some(i as int),
            None => spec_find(v@, c) is None,
        },
{
    let n = v.len();
    let mut i: usize = 0;
    while i < n
        invariant
            i <= n,
            n == v@.len(),
            forall|j: int| 0 <= j < i ==> v@[j] != c,
        decreases n - i,
    {
        if v[i] == c {
            proof {
                lemma_find_characterization(v@, c, i as int);
            }
            return Some(i);
        }
        i = i + 1;
    }
    proof {
        lemma_find_characterization(v@, c, n as int);
    }
    None
}

/// Equality of two string slices, character by character.
pub fn str_eq(a: &str, b: &str) -> (r: bool)
    ensures
        r == (a@ == b@),
{
    let n = a.unicode_len();
    if n != b.unicode_len() {
        return false;
    }
    let mut i: usize = 0;
    while i < n
        invariant
            i <= n,
            n == a@.len(),
            n == b@.len(),
            forall|j: int| 0 <= j < i ==> a@[j] == b@[j],
        decreases n - i,
    {
        if a.get_char(i) != b.get_char(i) {
            return false;
        }
        i = i + 1;
    }
    proof {
        assert(a@ =~= b@);
    }
    true
}

/// ASCII lowercase of one character; anything but an ASCII capital letter is
/// unchanged.
pub open spec fn spec_lower_char(c: char) -> char {
    if c == 'A' { 'a' } else if c == 'B' { 'b' } else if c == 'C' { 'c' }
    else if c == 'D' { 'd' } else if c == 'E' { 'e' } else if c == 'F' { 'f' }
    else if c == 'G' { 'g' } else if c == 'H' { 'h' } else if c == 'I' { 'i' }
    else if c == 'J' { 'j' } else if c == 'K' { 'k' } else if c == 'L' { 'l' }
    else if c == 'M' { 'm' } else if c == 'N' { 'n' } else if c == 'O' { 'o' }
    else if c == 'P' { 'p' } else if c == 'Q' { 'q' } else if c == 'R' { 'r' }
    else if c == 'S' { 's' } else if c == 'T' { 't' } else if c == 'U' { 'u' }
    else if c == 'V' { 'v' } else if c == 'W' { 'w' } else if c == 'X' { 'x' }
    else if c == 'Y' { 'y' } else if c == 'Z' { 'z' } else { c }
}

/// ASCII lowercase of a character sequence.
pub open spec fn spec_to_lower(s: Seq<char>) -> Seq<char> {
    s.map_values(|c: char| spec_lower_char(c))
}

/// ASCII lowercase of one character, executable form.
pub fn lower_char(c: char) -> (r: char)
    ensures
        r == spec_lower_char(c),
{
    match c {
        'A' => 'a', 'B' => 'b', 'C' => 'c', 'D' => 'd', 'E' => 'e', 'F' => 'f',
        'G' => 'g', 'H' => 'h', 'I' => 'i', 'J' => 'j', 'K' => 'k', 'L' => 'l',
        'M' => 'm', 'N' => 'n', 'O' => 'o', 'P' => 'p', 'Q' => 'q', 'R' => 'r',
        'S' => 's', 'T' => 't', 'U' => 'u', 'V' => 'v', 'W' => 'w', 'X' => 'x',
        'Y' => 'y', 'Z' => 'z', _ => c,
    }
}

/// ASCII lowercase of a string.
#[verifier::loop_isolation(false)]
pub fn to_lower(s: &String) -> (r: String)
    ensures
        r@ == spec_to_lower(s@),
{
    let v = chars_of(s.as_str());
    let n = v.len();
    let mut out: Vec<char> = Vec::new();
    let mut i: usize = 0;
    while i < n
        invariant
            i <= n,
            out@ == s@.take(i as int).map_values(|c: char| spec_lower_char(c)),
        decreases n - i,
    {
        out.push(lower_char(v[i]));
        proof {
            assert(out@ =~= s@.take(i + 1).map_values(|c: char| spec_lower_char(c)));
        }
        i = i + 1;
    }
    proof {
        assert(s@.take(n as int) =~= s@);
    }
    string_from_chars(&out)
}

/// Copy of `s` without its last character (unchanged when empty).
pub fn string_drop_last(s: &String) -> (r: String)
    ensures
        r@ == if s@.len() > 0 {
            s@.drop_last()
        } else {
            s@
        },
{
    let v = chars_of(s.as_str());
    if v.len() == 0 {
        String::new()
    } else {
        let w = vec_subrange(&v, 0, v.len() - 1);
        proof {
            assert(w@ =~= s@.drop_last());
        }
        string_from_chars(&w)
    }
}

/// Copy of `s` with `c` appended.
pub fn string_push_char(s: &String, c: char) -> (r: String)
    ensures
        r@ == s@.push(c),
{
    let mut v = chars_of(s.as_str());
    v.push(c);
    string_from_chars(&v)
}

/// Whether `p` is a prefix of `s`.
pub open spec fn spec_has_prefix(s: Seq<char>, p: Seq<char>) -> bool {
    p.len() <= s.len() && s.take(p.len() as int) == p
}

/// Prefix test against a string literal.
pub fn has_prefix(v: &Vec<char>, p: &str) -> (b: bool)
    ensures
        b == spec_has_prefix(v@, p@),
{
    let plen = p.unicode_len();
    if plen > v.len() {
        return false;
    }
    let mut i: usize = 0;
    while i < plen
        invariant
            i <= plen,
            plen == p@.len(),
            plen <= v@.len(),
            forall|j: int| 0 <= j < i ==> v@[j] == p@[j],
        decreases plen - i,
    {
        if v[i] != p.get_char(i) {
            proof {
                assert(v@.take(plen as int)[i as int] != p@[i as int]);
            }
            return false;
        }
        i = i + 1;
    }
    proof {
        assert(v@.take(plen as int) =~= p@);
    }
    true
}

/// Whether `sub` occurs contiguously somewhere in `s`.
pub open spec fn spec_contains_seq(s: Seq<char>, sub: Seq<char>) -> bool {
    exists|i: int|
        0 <= i && i + sub.len() <= s.len() && #[trigger] s.subrange(i, i + sub.len() as int)
            == sub
}

/// Substring search against a string literal.
pub fn contains_sub(v: &Vec<char>, sub: &str) -> (b: bool)
    ensures
        b == spec_contains_seq(v@, sub@),
{
    let m = sub.unicode_len();
    let n = v.len();
    if m > n {
        return false;
    }
    let mut i: usize = 0;
    while i <= n - m
        invariant
            m == sub@.len(),
            n == v@.len(),
            m <= n,
            i <= n - m + 1,
            forall|k: int|
                0 <= k < i ==> #[trigger] v@.subrange(k, k + sub@.len() as int) != sub@,
        decreases n - i,
    {
        let mut j: usize = 0;
        let mut hit = true;
        while j < m
            invariant
                m == sub@.len(),
                n == v@.len(),
                i + m <= n,
                j <= m,
                hit <==> (forall|t: int| 0 <= t < j ==> v@[i + t] == sub@[t]),
            decreases m - j,
        {
            if v[i + j] != sub.get_char(j) {
                hit = false;
                j = m;
            } else {
                j = j + 1;
            }
        }
        if hit {
            proof {
                assert(v@.subrange(i as int, i + sub@.len() as int) =~= sub@);
            }
            return true;
        }
        proof {
            assert(v@.subrange(i as int, i + sub@.len() as int) != sub@);
        }
        i = i + 1;
    }
    proof {
        assert(forall|k: int|
            0 <= k && k + sub@.len() <= v@.len() ==> #[trigger] v@.subrange(
                k,
                k + sub@.len() as int,
            ) != sub@);
    }
    false
}

// ---------------------------------------------------------------------------
// Trimming and tokens
// ---------------------------------------------------------------------------

/// `s` with leading whitespace removed.
pub open spec fn spec_trim_start(s: Seq<char>) -> Seq<char>
    decreases s.len(),
{
    if s.len() > 0 && spec_is_space(s[0]) {
        spec_trim_start(s.drop_first())
    } else {
        s
    }
}

/// `s` with trailing whitespace removed.
pub open spec fn spec_trim_end(s: Seq<char>) -> Seq<char>
    decreases s.len(),
{
    if s.len() > 0 && spec_is_space(s.last()) {
        spec_trim_end(s.drop_last())
    } else {
        s
    }
}

/// `s` with surrounding whitespace removed.
pub open spec fn spec_trim(s: Seq<char>) -> Seq<char> {
    spec_trim_end(spec_trim_start(s))
}

/// Skipping a run of leading whitespace computes `spec_trim_start`.
pub proof fn lemma_trim_start_skip(s: Seq<char>, i: int)
    requires
        0 <= i <= s.len(),
        forall|j: int| 0 <= j < i ==> spec_is_space(s[j]),
        i < s.len() ==> !spec_is_space(s[i]),
    ensures
        spec_trim_start(s) == s.skip(i),
    decreases s.len(),
{
    if i == 0 {
        assert(s.skip(0) =~= s);
    } else {
        let t = s.drop_first();
        assert(forall|j: int| 0 <= j < i - 1 ==> spec_is_space(t[j]));
        lemma_trim_start_skip(t, i - 1);
        assert(t.skip(i - 1) =~= s.skip(i));
    }
}

/// Dropping a run of trailing whitespace computes `spec_trim_end`.
pub proof fn lemma_trim_end_take(s: Seq<char>, i: int)
    requires
        0 <= i <= s.len(),
        forall|j: int| i <= j < s.len() ==> spec_is_space(s[j]),
        i > 0 ==> !spec_is_space(s[i - 1]),
    ensures
        spec_trim_end(s) == s.take(i),
    decreases s.len(),
{
    if i == s.len() {
        assert(s.take(i) =~= s);
    } else {
        let t = s.drop_last();
        assert(spec_is_space(s.last()));
        assert(forall|j: int| i <= j < t.len() ==> spec_is_space(t[j]));
        lemma_trim_end_take(t, i);
        assert(t.take(i) =~= s.take(i));
    }
}

/// `v` with surrounding whitespace removed.
pub fn trimmed(v: &Vec<char>) -> (r: Vec<char>)
    ensures
        r@ == spec_trim(v@),
{
    let n = v.len();
    let mut start: usize = 0;
    while start < n && is_space(v[start])
        invariant
            start <= n,
            n == v@.len(),
            forall|j: int| 0 <= j < start ==> spec_is_space(v@[j]),
        decreases n - start,
    {
        start = start + 1;
    }
    proof {
        lemma_trim_start_skip(v@, start as int);
    }
    let mut end: usize = n;
    while end > start && is_space(v[end - 1])
        invariant
            start <= end <= n,
            n == v@.len(),
            forall|j: int| end <= j < n ==> spec_is_space(v@[j]),
            forall|j: int| 0 <= j < start ==> spec_is_space(v@[j]),
            start < n ==> !spec_is_space(v@[start as int]),
        decreases end,
    {
        end = end - 1;
    }
    let r = vec_subrange(v, start, end);
    proof {
        let t = v@.skip(start as int);
        assert(forall|j: int|
            end - start <= j < t.len() ==> spec_is_space(#[trigger] t[j]));
        assert(end > start ==> !spec_is_space(t[end - start - 1]));
        lemma_trim_end_take(t, end - start);
        assert(t.take(end - start) =~= v@.subrange(start as int, end as int));
    }
    r
}

/// The longest prefix of `s` made of non-whitespace characters.
pub open spec fn spec_take_while_nonspace(s: Seq<char>) -> Seq<char>
    decreases s.len(),
{
    if s.len() == 0 || spec_is_space(s[0]) {
        Seq::empty()
    } else {
        seq![s[0]] + spec_take_while_nonspace(s.drop_first())
    }
}

/// Taking characters up to the first whitespace computes
/// `spec_take_while_nonspace`.
pub proof fn lemma_take_while_nonspace(s: Seq<char>, i: int)
    requires
        0 <= i <= s.len(),
        forall|j: int| 0 <= j < i ==> !spec_is_space(s[j]),
        i < s.len() ==> spec_is_space(s[i]),
    ensures
        spec_take_while_nonspace(s) == s.take(i),
    decreases s.len(),
{
    if i == 0 {
        assert(s.take(0) =~= Seq::<char>::empty());
    } else {
        let t = s.drop_first();
        assert(forall|j: int| 0 <= j < i - 1 ==> !spec_is_space(t[j]));
        lemma_take_while_nonspace(t, i - 1);
        assert(seq![s[0]] + t.take(i - 1) =~= s.take(i));
    }
}

/// The first whitespace-delimited token of `s`: skip leading whitespace, then
/// take up to the next whitespace.
pub open spec fn spec_first_token(s: Seq<char>) -> Seq<char> {
    spec_take_while_nonspace(spec_trim_start(s))
}

/// First whitespace-delimited token of `v`.
pub fn first_token(v: &Vec<char>) -> (r: Vec<char>)
    ensures
        r@ == spec_first_token(v@),
{
    let n = v.len();
    let mut start: usize = 0;
    while start < n && is_space(v[start])
        invariant
            start <= n,
            n == v@.len(),
            forall|j: int| 0 <= j < start ==> spec_is_space(v@[j]),
        decreases n - start,
    {
        start = start + 1;
    }
    proof {
        lemma_trim_start_skip(v@, start as int);
    }
    let mut end: usize = start;
    while end < n && !is_space(v[end])
        invariant
            start <= end <= n,
            n == v@.len(),
            forall|j: int| start <= j < end ==> !spec_is_space(v@[j]),
        decreases n - end,
    {
        end = end + 1;
    }
    let r = vec_subrange(v, start, end);
    proof {
        let t = v@.skip(start as int);
        assert(forall|j: int|
            0 <= j < end - start ==> !spec_is_space(#[trigger] t[j]));
        lemma_take_while_nonspace(t, end - start);
        assert(t.take(end - start) =~= v@.subrange(start as int, end as int));
    }
    r
}

/// The prefix of `s` before the first occurrence of `c` (all of `s` when `c`
/// does not occur).
pub open spec fn spec_take_before(s: Seq<char>, c: char) -> Seq<char> {
    match spec_find(s, c) {
        Some(i) => s.take(i),
        None => s,
    }
}

/// Prefix of `v` before the first occurrence of `c`.
pub fn take_before(v: &Vec<char>, c: char) -> (r: Vec<char>)
    ensures
        r@ == spec_take_before(v@, c),
{
    let end = match find_char(v, c) {
        Some(i) => i,
        None => v.len(),
    };
    proof {
        lemma_find_in_range(v@, c);
        assert(v@.subrange(0, v@.len() as int) =~= v@);
    }
    vec_subrange(v, 0, end)
}

/// A hit from `spec_find` lies inside the sequence.
pub proof fn lemma_find_in_range(s: Seq<char>, c: char)
    ensures
        match spec_find(s, c) {
            Some(i) => 0 <= i < s.len() && s[i] == c,
            None => true,
        },
    decreases s.len(),
{
    if s.len() > 0 && s[0] != c {
        lemma_find_in_range(s.drop_first(), c);
    }
}

// ---------------------------------------------------------------------------
// Lines
// ---------------------------------------------------------------------------

/// A line with a trailing carriage return has it removed.
pub open spec fn spec_strip_cr(s: Seq<char>) -> Seq<char> {
    if s.len() > 0 && s.last() == '\r' {
        s.drop_last()
    } else {
        s
    }
}

/// The lines of `s`: pieces separated by `'\n'`, each stripped of a trailing
/// `'\r'`; a final newline does not open an extra empty line.
pub open spec fn spec_lines(s: Seq<char>) -> Seq<Seq<char>>
    decreases s.len(),
    via spec_lines_decreases
{
    if s.len() == 0 {
        Seq::empty()
    } else {
        match spec_find(s, '\n') {
            Some(i) => seq![spec_strip_cr(s.take(i))] + spec_lines(s.skip(i + 1)),
            None => seq![spec_strip_cr(s)],
        }
    }
}

#[via_fn]
proof fn spec_lines_decreases(s: Seq<char>) {
    if s.len() > 0 {
        lemma_find_in_range(s, '\n');
    }
}

/// The character for a single decimal digit value.
pub open spec fn spec_digit_char(d: int) -> char {
    if d == 0 {
        '0'
    } else if d == 1 {
        '1'
    } else if d == 2 {
        '2'
    } else if d == 3 {
        '3'
    } else if d == 4 {
        '4'
    } else if d == 5 {
        '5'
    } else if d == 6 {
        '6'
    } else if d == 7 {
        '7'
    } else if d == 8 {
        '8'
    } else {
        '9'
    }
}

/// Digits of `n` in base ten, most significant first.
pub open spec fn spec_digits(n: int) -> Seq<char>
    decreases n,
{
    if n < 10 {
        seq![spec_digit_char(n)]
    } else {
        spec_digits(n / 10).push(spec_digit_char(n % 10))
    }
}

/// Render `n` in decimal.
pub fn u64_to_string(n: u64) -> (r: String)
    ensures
        r@ == spec_digits(n as int),
    decreases n,
{
    let digit: &str = match n % 10 {
        0 => "0",
        1 => "1",
        2 => "2",
        3 => "3",
        4 => "4",
        5 => "5",
        6 => "6",
        7 => "7",
        8 => "8",
        _ => "9",
    };
    proof {
        reveal_strlit("0");
        reveal_strlit("1");
        reveal_strlit("2");
        reveal_strlit("3");
        reveal_strlit("4");
        reveal_strlit("5");
        reveal_strlit("6");
        reveal_strlit("7");
        reveal_strlit("8");
        reveal_strlit("9");
    }
    if n < 10 {
        digit.to_owned()
    } else {
        let mut prefix = u64_to_string(n / 10);
        prefix.append(digit);
        prefix
    }
}

// ---------------------------------------------------------------------------
// Integer literals
// ---------------------------------------------------------------------------

/// Whether `s` is a non-empty run of decimal digits.
pub open spec fn spec_all_digits(s: Seq<char>) -> bool {
    s.len() > 0 && forall|i: int| 0 <= i < s.len() ==> spec_is_digit(#[trigger] s[i])
}

/// Value of a digit run, most significant first.
pub open spec fn spec_digits_val(s: Seq<char>) -> int
    decreases s.len(),
{
    if s.len() == 0 {
        0
    } else {
        spec_digits_val(s.drop_last()) * 10 + spec_digit_val(s.last())
    }
}

/// The 64-bit signed integer denoted by `s`: an optional sign, then digits,
/// within range; `None` otherwise.
pub open spec fn spec_parse_i64(s: Seq<char>) -> Option<i64> {
    let neg = s.len() > 0 && s[0] == '-';
    let digs = if s.len() > 0 && (s[0] == '-' || s[0] == '+') {
        s.drop_first()
    } else {
        s
    };
    if spec_all_digits(digs) {
        let v = spec_digits_val(digs);
        if neg {
            if v <= 0x8000000000000000 {
                Some((-v) as i64)
            } else {
                None
            }
        } else {
            if v <= 0x7fffffffffffffff {
                Some(v as i64)
            } else {
                None
            }
        }
    } else {
        None
    }
}

/// A digit run's value is non-negative.
pub proof fn lemma_digits_val_nonneg(s: Seq<char>)
    requires
        forall|i: int| 0 <= i < s.len() ==> spec_is_digit(#[trigger] s[i]),
    ensures
        spec_digits_val(s) >= 0,
    decreases s.len(),
{
    if s.len() > 0 {
        lemma_digits_val_nonneg(s.drop_last());
    }
}

/// Extending a digit run by one digit multiplies its value by ten.
pub proof fn lemma_digits_val_push(s: Seq<char>, c: char)
    ensures
        spec_digits_val(s.push(c)) == spec_digits_val(s) * 10 + spec_digit_val(c),
{
    assert(s.push(c).drop_last() =~= s);
}

/// A full digit run is worth at least ten times any proper prefix.
pub proof fn lemma_digits_val_take_lower(s: Seq<char>, i: int)
    requires
        forall|j: int| 0 <= j < s.len() ==> spec_is_digit(#[trigger] s[j]),
        0 <= i < s.len(),
    ensures
        spec_digits_val(s) >= spec_digits_val(s.take(i)) * 10,
    decreases s.len() - i,
{
    let p = s.take(i);
    let q = s.take(i + 1);
    assert(q =~= p.push(s[i]));
    lemma_digits_val_push(p, s[i]);
    lemma_digits_val_nonneg(p);
    if i + 1 == s.len() {
        assert(q =~= s);
    } else {
        lemma_digits_val_take_lower(s, i + 1);
        assert(spec_digits_val(q) >= spec_digits_val(p) * 10 >= spec_digits_val(p));
    }
}

/// Parse `v` as a 64-bit signed integer.
#[verifier::loop_isolation(false)]
pub fn parse_i64(v: &Vec<char>) -> (r: Option<i64>)
    ensures
        r == spec_parse_i64(v@),
{
    let n = v.len();
    let mut start: usize = 0;
    let mut neg = false;
    if n > 0 && v[0] == '-' {
        neg = true;
        start = 1;
    } else if n > 0 && v[0] == '+' {
        start = 1;
    }
    let ghost digs = v@.skip(start as int);
    proof {
        if start == 1 {
            assert(digs =~= v@.drop_first());
        } else {
            assert(digs =~= v@);
        }
    }
    if start >= n {
        return None;
    }
    let mut mag: u64 = 0;
    let mut i: usize = start;
    while i < n
        invariant
            start <= i <= n,
            n == v@.len(),
            start < n,
            digs == v@.skip(start as int),
            forall|j: int| 0 <= j < i - start ==> spec_is_digit(#[trigger] digs[j]),
            mag == spec_digits_val(digs.take(i - start)),
        decreases n - i,
    {
        let c = v[i];
        if !is_digit(c) {
            proof {
                assert(!spec_is_digit(digs[i - start]));
            }
            return None;
        }
        if mag > 1844674407370955160 {
            proof {
                if spec_all_digits(digs) {
                    lemma_digits_val_take_lower(digs, i - start);
                }
            }
            return None;
        }
        let d = (c as u32 - 48) as u64;
        proof {
            lemma_digits_val_push(digs.take(i - start), digs[i - start]);
            assert(digs.take(i - start).push(digs[i - start]) =~= digs.take(
                i - start + 1,
            ));
        }
        mag = mag * 10 + d;
        i = i + 1;
    }
    proof {
        assert(digs.take(n - start) =~= digs);
        assert(spec_all_digits(digs));
    }
    if neg {
        if mag < 9223372036854775808 {
            Some(0i64 - (mag as i64))
        } else if mag == 9223372036854775808 {
            Some(i64::MIN)
        } else {
            None
        }
    } else {
        if mag <= 9223372036854775807 {
            Some(mag as i64)
        } else {
            None
        }
    }
}

// ---------------------------------------------------------------------------
// Joining and quoting
// ---------------------------------------------------------------------------

/// The items of `items` joined by `sep`.
pub open spec fn spec_join(items: Seq<Seq<char>>, sep: Seq<char>) -> Seq<char>
    decreases items.len(),
{
    if items.len() == 0 {
        Seq::empty()
    } else if items.len() == 1 {
        items[0]
    } else {
        items[0] + sep + spec_join(items.drop_first(), sep)
    }
}

/// Joining after appending one more item appends a separator and the item.
pub proof fn lemma_join_push(items: Seq<Seq<char>>, sep: Seq<char>, x: Seq<char>)
    ensures
        spec_join(items.push(x), sep) == if items.len() == 0 {
            x
        } else {
            spec_join(items, sep) + sep + x
        },
    decreases items.len(),
{
    let p = items.push(x);
    if items.len() == 0 {
        assert(p.len() == 1);
        assert(spec_join(p, sep) == p[0]);
        assert(p[0] == x);
    } else if items.len() == 1 {
        assert(p.drop_first() =~= seq![x]);
        assert(spec_join(p, sep) == p[0] + sep + spec_join(p.drop_first(), sep));
        assert(spec_join(seq![x], sep) == x);
        assert(p[0] == items[0]);
        assert(spec_join(items, sep) == items[0]);
    } else {
        assert(p.drop_first() =~= items.drop_first().push(x));
        assert(spec_join(p, sep) == p[0] + sep + spec_join(p.drop_first(), sep));
        lemma_join_push(items.drop_first(), sep, x);
        assert(p[0] == items[0]);
        assert(spec_join(items, sep) == items[0] + sep + spec_join(items.drop_first(), sep));
        assert(items[0] + sep + (spec_join(items.drop_first(), sep) + sep + x) =~= (
        items[0] + sep + spec_join(items.drop_first(), sep)) + sep + x);
    }
}

/// The deep view of a vector of strings reads each element's characters.
pub proof fn lemma_strings_deep_view(v: Vec<String>)
    ensures
        v.deep_view().len() == v@.len(),
        forall|i: int| 0 <= i < v@.len() ==> v.deep_view()[i] == #[trigger] v@[i]@,
{
}

/// Join the strings of `items` with the separator `sep`.
pub fn join_strings(items: &Vec<String>, sep: &str) -> (r: String)
    ensures
        r@ == spec_join(items.deep_view(), sep@),
{
    proof {
        lemma_strings_deep_view(*items);
    }
    let mut r = String::new();
    let n = items.len();
    let mut i: usize = 0;
    while i < n
        invariant
            i <= n,
            n == items@.len(),
            items.deep_view().len() == n,
            forall|k: int| 0 <= k < n ==> items.deep_view()[k] == #[trigger] items@[k]@,
            r@ == spec_join(items.deep_view().take(i as int), sep@),
        decreases n - i,
    {
        if i > 0 {
            r.append(sep);
        }
        r.append(items[i].as_str());
        proof {
            let dv = items.deep_view();
            assert(dv.take(i as int).push(dv[i as int]) =~= dv.take(i + 1));
            lemma_join_push(dv.take(i as int), sep@, dv[i as int]);
        }
        i = i + 1;
    }
    proof {
        assert(items.deep_view().take(n as int) =~= items.deep_view());
    }
    r
}

/// `a`, wrapped in double quotes.
pub open spec fn spec_quote(a: Seq<char>) -> Seq<char> {
    seq!['"'] + a + seq!['"']
}

/// The argument list rendered for the log: each argument quoted, the list
/// joined with commas inside square brackets.
pub open spec fn spec_args_list(args: Seq<Seq<char>>) -> Seq<char> {
    seq!['['] + spec_join(args.map_values(|a: Seq<char>| spec_quote(a)), ", "@) + seq![']']
}

/// Render the argument list for the log.
pub fn args_list(args: &Vec<String>) -> (r: String)
    ensures
        r@ == spec_args_list(args.deep_view()),
{
    proof {
        lemma_strings_deep_view(*args);
        reveal_strlit("[");
        reveal_strlit("]");
        reveal_strlit("\"");
    }
    let mut quoted: Vec<String> = Vec::new();
    let n = args.len();
    let mut i: usize = 0;
    while i < n
        invariant
            i <= n,
            n == args@.len(),
            args.deep_view().len() == n,
            forall|k: int| 0 <= k < n ==> args.deep_view()[k] == #[trigger] args@[k]@,
            quoted.deep_view() == args.deep_view().take(i as int).map_values(
                |a: Seq<char>| spec_quote(a),
            ),
        decreases n - i,
    {
        let mut q = String::new();
        q.append("\"");
        q.append(args[i].as_str());
        q.append("\"");
        proof {
            reveal_strlit("\"");
            assert(q@ =~= spec_quote(args@[i as int]@));
        }
        let ghost qv = q@;
        quoted.push(q);
        proof {
            assert(quoted@.last().deep_view() =~= qv);
            assert(quoted.deep_view() =~= args.deep_view().take(i as int).map_values(
                |a: Seq<char>| spec_quote(a),
            ).push(qv));
            let dv = args.deep_view();
            assert(dv.take(i as int).map_values(|a: Seq<char>| spec_quote(a)).push(
                spec_quote(dv[i as int]),
            ) =~= dv.take(i + 1).map_values(|a: Seq<char>| spec_quote(a)));
        }
        i = i + 1;
    }
    proof {
        assert(args.deep_view().take(n as int) =~= args.deep_view());
    }
    let mut r = String::new();
    r.append("[");
    let body = join_strings(&quoted, ", ");
    r.append(body.as_str());
    r.append("]");
    proof {
        reveal_strlit("[");
        reveal_strlit("]");
        assert(r@ =~= spec_args_list(args.deep_view()));
    }
    r
}

/// Clone a vector of strings; the copy reads the same.
pub fn clone_strings(v: &Vec<String>) -> (r: Vec<String>)
    ensures
        r.deep_view() == v.deep_view(),
        r@.len() == v@.len(),
{
    proof {
        lemma_strings_deep_view(*v);
    }
    let mut r: Vec<String> = Vec::new();
    let n = v.len();
    let mut i: usize = 0;
    while i < n
        invariant
            i <= n,
            n == v@.len(),
            v.deep_view().len() == n,
            forall|k: int| 0 <= k < n ==> v.deep_view()[k] == #[trigger] v@[k]@,
            r@.len() == i,
            r.deep_view() == v.deep_view().take(i as int),
        decreases n - i,
    {
        let s = v[i].clone();
        let ghost sv = s@;
        r.push(s);
        proof {
            assert(r@.last().deep_view() =~= sv);
            assert(r.deep_view() =~= v.deep_view().take(i + 1));
        }
        i = i + 1;
    }
    proof {
        assert(v.deep_view().take(n as int) =~= v.deep_view());
    }
    r
}

/// Split `v` into lines.
pub fn split_lines(v: &Vec<char>) -> (r: Vec<Vec<char>>)
    ensures
        r.deep_view() == spec_lines(v@),
{
    let mut r: Vec<Vec<char>> = Vec::new();
    let mut pos: usize = 0;
    let n = v.len();
    proof {
        assert(v@.skip(0) =~= v@);
        assert(r.deep_view() + spec_lines(v@) =~= spec_lines(v@));
    }
    while pos < n
        invariant
            pos <= n,
            n == v@.len(),
            spec_lines(v@) == r.deep_view() + spec_lines(v@.skip(pos as int)),
        decreases n - pos,
    {
        let ghost rest = v@.skip(pos as int);
        let ghost r_old = r.deep_view();
        // find the next newline at or after pos
        let mut j: usize = pos;
        while j < n && v[j] != '\n'
            invariant
                pos <= j <= n,
                n == v@.len(),
                forall|k: int| pos <= k < j ==> v@[k] != '\n',
            decreases n - j,
        {
            j = j + 1;
        }
        proof {
            assert(forall|k: int| 0 <= k < j - pos ==> rest[k] != '\n');
            lemma_find_characterization(rest, '\n', j - pos);
        }
        // the raw line is v[pos..j]; strip one trailing '\r'
        let mut line_end: usize = j;
        if j > pos && v[j - 1] == '\r' {
            line_end = j - 1;
        }
        let line = vec_subrange(v, pos, line_end);
        proof {
            let raw = rest.take(j - pos);
            assert(raw =~= v@.subrange(pos as int, j as int));
            if j > pos && v@[j as int - 1] == '\r' {
                assert(spec_strip_cr(raw) =~= v@.subrange(
                    pos as int,
                    line_end as int,
                ));
            } else {
                assert(spec_strip_cr(raw) =~= v@.subrange(
                    pos as int,
                    line_end as int,
                ));
            }
        }
        let ghost lv = line@;
        r.push(line);
        proof {
            assert(r@.last().deep_view() =~= lv);
            assert(r.deep_view() =~= r_old.push(lv));
        }
        if j < n {
            proof {
                assert(spec_find(rest, '\n') == Some(j - pos));
                assert(spec_lines(rest) == seq![spec_strip_cr(rest.take(j - pos))]
                    + spec_lines(rest.skip(j - pos + 1)));
                assert(rest.skip(j - pos + 1) =~= v@.skip(j as int + 1));
                assert(r_old.push(lv) + spec_lines(v@.skip(j as int + 1))
                    =~= r_old + (seq![lv] + spec_lines(v@.skip(j as int + 1))));
            }
            pos = j + 1;
        } else {
            proof {
                assert(spec_find(rest, '\n') is None);
                assert(spec_lines(rest) == seq![spec_strip_cr(rest)]);
                assert(rest.take(j - pos) =~= rest);
                assert(v@.skip(n as int) =~= Seq::<char>::empty());
                assert(r_old.push(lv) + spec_lines(v@.skip(n as int))
                    =~= r_old + seq![lv]);
            }
            pos = n;
        }
    }
    proof {
        assert(v@.skip(pos as int) =~= Seq::<char>::empty());
        assert(r.deep_view() + Seq::<Seq<char>>::empty() =~= r.deep_view());
    }
    r
}

} // verus!
