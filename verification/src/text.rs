//! Character-level string helpers with exact specifications.
//!
//! Every helper works on the `Seq<char>` view of a string, so callers can state
//! their own contracts in terms of `trim`, `lower_ascii`, `decimal` and friends.
use vstd::prelude::*;

verus! {

/// Unicode `White_Space`, the set that `str::trim` and `char::is_whitespace` use.
pub open spec fn is_ws(c: char) -> bool {
    let v = c as u32;
    ||| (0x9 <= v && v <= 0xd)
    ||| v == 0x20
    ||| v == 0x85
    ||| v == 0xa0
    ||| v == 0x1680
    ||| (0x2000 <= v && v <= 0x200a)
    ||| v == 0x2028
    ||| v == 0x2029
    ||| v == 0x202f
    ||| v == 0x205f
    ||| v == 0x3000
}

pub open spec fn trim_start(s: Seq<char>) -> Seq<char>
    decreases s.len(),
{
    if s.len() > 0 && is_ws(s[0]) {
        trim_start(s.drop_first())
    } else {
        s
    }
}

pub open spec fn trim_end(s: Seq<char>) -> Seq<char>
    decreases s.len(),
{
    if s.len() > 0 && is_ws(s.last()) {
        trim_end(s.drop_last())
    } else {
        s
    }
}

/// What `str::trim` returns: the text without leading and trailing white space.
pub open spec fn trim(s: Seq<char>) -> Seq<char> {
    trim_end(trim_start(s))
}

/// The ASCII-only lower-casing of `char::to_ascii_lowercase`.
pub open spec fn lower_char(c: char) -> char {
    if 'A' <= c && c <= 'Z' {
        ((c as u32) + 32) as char
    } else {
        c
    }
}

pub open spec fn lower_ascii(s: Seq<char>) -> Seq<char> {
    s.map_values(|c: char| lower_char(c))
}

pub open spec fn is_prefix(p: Seq<char>, s: Seq<char>) -> bool {
    p.len() <= s.len() && s.subrange(0, p.len() as int) == p
}

pub open spec fn is_suffix(p: Seq<char>, s: Seq<char>) -> bool {
    p.len() <= s.len() && s.subrange(s.len() - p.len(), s.len() as int) == p
}

pub open spec fn occurs_at(s: Seq<char>, p: Seq<char>, i: int) -> bool {
    0 <= i && i + p.len() <= s.len() && s.subrange(i, i + p.len()) == p
}

/// `str::contains` for a string pattern.
pub open spec fn contains(s: Seq<char>, p: Seq<char>) -> bool {
    exists|i: int| occurs_at(s, p, i)
}

pub open spec fn digit_char(d: nat) -> char {
    (('0' as u32) + d) as char
}

/// Decimal text of a natural number, as `u64::to_string` prints it.
pub open spec fn decimal(n: nat) -> Seq<char>
    decreases n,
{
    if n < 10 {
        seq![digit_char(n)]
    } else {
        decimal(n / 10).push(digit_char(n % 10))
    }
}

pub open spec fn hex_char(d: nat) -> char {
    if d < 10 {
        digit_char(d)
    } else {
        (('a' as u32) + (d - 10)) as char
    }
}

/// The lowest `k` hexadecimal digits of `n`, most significant first (`{:0k$x}`).
pub open spec fn hex_digits(n: nat, k: nat) -> Seq<char>
    decreases k,
{
    if k == 0 {
        Seq::empty()
    } else {
        hex_digits(n / 16, (k - 1) as nat).push(hex_char(n % 16))
    }
}

pub open spec fn is_digit(c: char) -> bool {
    '0' <= c && c <= '9'
}

pub open spec fn all_digits(s: Seq<char>) -> bool {
    forall|i: int| 0 <= i < s.len() ==> is_digit(#[trigger] s[i])
}

/// The number that a run of decimal digits spells.
pub open spec fn digits_value(s: Seq<char>) -> nat
    decreases s.len(),
{
    if s.len() == 0 {
        0
    } else {
        digits_value(s.drop_last()) * 10 + ((s.last() as u32) - ('0' as u32)) as nat
    }
}

/// std `String::push`: appends one character at the end.
#[verifier::external_body]
pub fn push_char(s: &mut String, c: char)
    ensures
        final(s)@ == old(s)@.push(c),
{
    s.push(c);
}

/// Copy the characters of a string slice into a vector.
pub fn to_chars(s: &str) -> (r: Vec<char>)
    ensures
        r@ == s@,
{
    let mut r: Vec<char> = Vec::new();
    for c in it: s.chars()
        invariant
            r@ == it.history(),
    {
        r.push(c);
    }
    r
}

/// Build a string from characters.
pub fn from_chars(v: &[char]) -> (r: String)
    ensures
        r@ == v@,
{
    let mut r = String::new();
    let mut i: usize = 0;
    while i < v.len()
        invariant
            i <= v@.len(),
            r@ == v@.subrange(0, i as int),
        decreases v@.len() - i,
    {
        push_char(&mut r, v[i]);
        i = i + 1;
        assert(r@ =~= v@.subrange(0, i as int));
    }
    assert(r@ =~= v@);
    r
}

/// Copy a string slice into an owned string.
pub fn owned(s: &str) -> (r: String)
    ensures
        r@ == s@,
{
    s.to_owned()
}

pub fn is_whitespace(c: char) -> (b: bool)
    ensures
        b == is_ws(c),
{
    let v = c as u32;
    (0x9 <= v && v <= 0xd) || v == 0x20 || v == 0x85 || v == 0xa0 || v == 0x1680 || (0x2000 <= v
        && v <= 0x200a) || v == 0x2028 || v == 0x2029 || v == 0x202f || v == 0x205f || v == 0x3000
}

pub proof fn lemma_trim_start_skip(s: Seq<char>, i: int)
    requires
        0 <= i < s.len(),
        is_ws(s[i]),
    ensures
        trim_start(s.subrange(i, s.len() as int)) == trim_start(s.subrange(i + 1, s.len() as int)),
{
    assert(s.subrange(i, s.len() as int).drop_first() =~= s.subrange(i + 1, s.len() as int));
}

pub proof fn lemma_trim_end_skip(s: Seq<char>, hi: int)
    requires
        0 < hi <= s.len(),
        is_ws(s[hi - 1]),
    ensures
        trim_end(s.subrange(0, hi)) == trim_end(s.subrange(0, hi - 1)),
{
    assert(s.subrange(0, hi).drop_last() =~= s.subrange(0, hi - 1));
}

/// `str::trim` on a character vector.
pub fn trim_chars(v: &[char]) -> (r: Vec<char>)
    ensures
        r@ == trim(v@),
{
    let n = v.len();
    let mut lo: usize = 0;
    assert(v@.subrange(0, n as int) =~= v@);
    while lo < n && is_whitespace(v[lo])
        invariant
            lo <= n,
            n == v@.len(),
            trim_start(v@) == trim_start(v@.subrange(lo as int, n as int)),
        decreases n - lo,
    {
        proof {
            lemma_trim_start_skip(v@, lo as int);
        }
        lo = lo + 1;
    }
    let ghost rest = v@.subrange(lo as int, n as int);
    assert(trim_start(v@) == rest);
    let mut hi: usize = n;
    assert(rest.subrange(0, rest.len() as int) =~= rest);
    while hi > lo && is_whitespace(v[hi - 1])
        invariant
            lo <= hi <= n,
            n == v@.len(),
            rest == v@.subrange(lo as int, n as int),
            trim_end(rest) == trim_end(rest.subrange(0, hi - lo)),
        decreases hi,
    {
        proof {
            lemma_trim_end_skip(rest, (hi - lo) as int);
        }
        hi = hi - 1;
    }
    assert(trim_end(rest) == rest.subrange(0, hi - lo));
    let mut r: Vec<char> = Vec::new();
    let mut i: usize = lo;
    while i < hi
        invariant
            lo <= i <= hi <= n,
            n == v@.len(),
            r@ == v@.subrange(lo as int, i as int),
        decreases hi - i,
    {
        r.push(v[i]);
        i = i + 1;
        assert(r@ =~= v@.subrange(lo as int, i as int));
    }
    assert(rest.subrange(0, hi - lo) =~= v@.subrange(lo as int, hi as int));
    r
}

/// `str::trim` returning an owned string.
pub fn trim_str(s: &str) -> (r: String)
    ensures
        r@ == trim(s@),
{
    let v = to_chars(s);
    let t = trim_chars(v.as_slice());
    from_chars(t.as_slice())
}

/// True when the trimmed text is empty (`s.trim().is_empty()`).
pub fn is_blank(s: &str) -> (b: bool)
    ensures
        b == (trim(s@).len() == 0),
{
    let v = to_chars(s);
    let t = trim_chars(v.as_slice());
    t.len() == 0
}

pub fn lower_char_exec(c: char) -> (r: char)
    ensures
        r == lower_char(c),
{
    if 'A' <= c && c <= 'Z' {
        let b: u8 = c as u8;
        let l: u8 = b + 32;
        let r = l as char;
        assert(r as u32 == (c as u32) + 32);
        r
    } else {
        c
    }
}

/// `str::to_ascii_lowercase` on characters.
pub fn lower_chars(v: &[char]) -> (r: Vec<char>)
    ensures
        r@ == lower_ascii(v@),
{
    let mut r: Vec<char> = Vec::new();
    let mut i: usize = 0;
    while i < v.len()
        invariant
            i <= v@.len(),
            r@ == lower_ascii(v@.subrange(0, i as int)),
        decreases v@.len() - i,
    {
        r.push(lower_char_exec(v[i]));
        i = i + 1;
        assert(r@ =~= lower_ascii(v@.subrange(0, i as int)));
    }
    assert(v@.subrange(0, v@.len() as int) =~= v@);
    r
}

/// Does `p` occur at position `i` of `s`?
pub fn occurs_at_exec(s: &[char], p: &[char], i: usize) -> (b: bool)
    ensures
        b == occurs_at(s@, p@, i as int),
{
    if i > s.len() || p.len() > s.len() - i {
        return false;
    }
    let n = s.len();
    let mut k: usize = 0;
    while k < p.len()
        invariant
            n == s@.len(),
            k <= p@.len(),
            i <= s@.len(),
            i + p@.len() <= s@.len(),
            forall|j: int| 0 <= j < k ==> s@[i + j] == p@[j],
        decreases p@.len() - k,
    {
        assert(i + k < s@.len());
        if s[i + k] != p[k] {
            assert(s@.subrange(i as int, i + p@.len())[k as int] != p@[k as int]);
            return false;
        }
        k = k + 1;
    }
    assert(s@.subrange(i as int, i + p@.len()) =~= p@);
    true
}

/// `str::contains` with a string pattern.
pub fn contains_chars(s: &[char], p: &[char]) -> (b: bool)
    ensures
        b == contains(s@, p@),
{
    if p.len() > s.len() {
        assert forall|j: int| !occurs_at(s@, p@, j) by {}
        return false;
    }
    let mut i: usize = 0;
    if p.len() == 0 {
        assert(occurs_at(s@, p@, 0)) by {
            assert(s@.subrange(0, 0) =~= p@);
        }
        return true;
    }
    let n = s.len();
    let last = n - p.len();
    while i <= last
        invariant
            n == s@.len(),
            1 <= p@.len() <= s@.len(),
            last == s@.len() - p@.len(),
            i <= last + 1,
            forall|j: int| 0 <= j < i ==> !occurs_at(s@, p@, j),
        decreases last + 1 - i,
    {
        if occurs_at_exec(s, p, i) {
            return true;
        }
        i = i + 1;
    }
    assert forall|j: int| !occurs_at(s@, p@, j) by {
        if 0 <= j && j + p@.len() <= s@.len() {
            assert(j < i);
        }
    }
    false
}

pub fn starts_with_chars(s: &[char], p: &[char]) -> (b: bool)
    ensures
        b == is_prefix(p@, s@),
{
    let b = occurs_at_exec(s, p, 0);
    b
}

pub fn ends_with_chars(s: &[char], p: &[char]) -> (b: bool)
    ensures
        b == is_suffix(p@, s@),
{
    if p.len() > s.len() {
        return false;
    }
    occurs_at_exec(s, p, s.len() - p.len())
}

/// Two character sequences are equal.
pub fn chars_eq(a: &[char], b: &[char]) -> (r: bool)
    ensures
        r == (a@ == b@),
{
    if a.len() != b.len() {
        return false;
    }
    let r = occurs_at_exec(a, b, 0);
    proof {
        if r {
            assert(a@.subrange(0, b@.len() as int) =~= a@);
        } else {
            assert(a@.subrange(0, a@.len() as int) =~= a@);
        }
    }
    r
}

/// Two strings hold the same text.
pub fn str_eq(a: &str, b: &str) -> (r: bool)
    ensures
        r == (a@ == b@),
{
    let x = to_chars(a);
    let y = to_chars(b);
    chars_eq(x.as_slice(), y.as_slice())
}

pub fn digit_of(d: u64) -> (c: char)
    requires
        d < 10,
    ensures
        c == digit_char(d as nat),
{
    let b: u8 = 48u8 + (d as u8);
    let c = b as char;
    assert(c as u32 == ('0' as u32) + d);
    c
}

/// Append the decimal digits of `n`.
pub fn push_decimal(out: &mut Vec<char>, n: u64)
    ensures
        final(out)@ == old(out)@ + decimal(n as nat),
    decreases n,
{
    if n >= 10 {
        push_decimal(out, n / 10);
        out.push(digit_of(n % 10));
        assert(decimal(n as nat) == decimal((n / 10) as nat).push(digit_char((n % 10) as nat)));
        assert(final(out)@ =~= old(out)@ + decimal(n as nat)) by {
            assert(out@ =~= old(out)@ + decimal((n / 10) as nat) + seq![digit_char((n % 10) as nat)]);
        }
    } else {
        out.push(digit_of(n));
        assert(out@ =~= old(out)@ + decimal(n as nat));
    }
}

/// `u64::to_string`.
pub fn decimal_string(n: u64) -> (r: String)
    ensures
        r@ == decimal(n as nat),
{
    let mut v: Vec<char> = Vec::new();
    push_decimal(&mut v, n);
    assert(v@ =~= decimal(n as nat));
    from_chars(v.as_slice())
}

pub fn hex_of(d: u64) -> (c: char)
    requires
        d < 16,
    ensures
        c == hex_char(d as nat),
{
    if d < 10 {
        digit_of(d)
    } else {
        let b: u8 = 97u8 + ((d - 10) as u8);
        let c = b as char;
        assert(c as u32 == ('a' as u32) + (d - 10));
        c
    }
}

/// Append the lowest `k` hexadecimal digits of `n`, zero padded.
pub fn push_hex(out: &mut Vec<char>, n: u64, k: u64)
    ensures
        final(out)@ == old(out)@ + hex_digits(n as nat, k as nat),
    decreases k,
{
    if k > 0 {
        push_hex(out, n / 16, k - 1);
        out.push(hex_of(n % 16));
        assert(out@ =~= old(out)@ + hex_digits(n as nat, k as nat));
    } else {
        assert(out@ =~= old(out)@ + hex_digits(n as nat, k as nat));
    }
}

/// Parse a run of ASCII digits as a `u64`; `None` when it is empty, holds
/// another character or does not fit (`str::parse::<u64>` without a sign).
pub fn parse_digits(s: &[char]) -> (r: Option<u64>)
    ensures
        r is Some <==> (s@.len() > 0 && all_digits(s@) && digits_value(s@) <= u64::MAX),
        r matches Some(v) ==> v as nat == digits_value(s@),
{
    if s.len() == 0 {
        return None;
    }
    let mut acc: u64 = 0;
    let mut ok = true;
    let mut i: usize = 0;
    while i < s.len()
        invariant
            i <= s@.len(),
            all_digits(s@.subrange(0, i as int)),
            ok ==> acc as nat == digits_value(s@.subrange(0, i as int)),
            !ok ==> digits_value(s@.subrange(0, i as int)) > u64::MAX,
        decreases s@.len() - i,
    {
        let c = s[i];
        if !('0' <= c && c <= '9') {
            assert(!all_digits(s@)) by {
                assert(!is_digit(s@[i as int]));
            }
            return None;
        }
        let d: u64 = (c as u32 - '0' as u32) as u64;
        let ghost prev = s@.subrange(0, i as int);
        let ghost next = s@.subrange(0, i + 1);
        assert(next.drop_last() =~= prev);
        assert(next.last() == c);
        proof {
            assert(digits_value(next) == digits_value(prev) * 10 + d);
        }
        if ok {
            if acc > (u64::MAX - d) / 10 {
                ok = false;
                assert(digits_value(next) > u64::MAX) by (nonlinear_arith)
                    requires
                        acc > (u64::MAX - d) / 10,
                        digits_value(next) == acc * 10 + d,
                        d < 10,
                ;
            } else {
                assert(acc * 10 + d <= u64::MAX) by (nonlinear_arith)
                    requires
                        acc <= (u64::MAX - d) / 10,
                        d < 10,
                ;
                acc = acc * 10 + d;
            }
        } else {
            assert(digits_value(next) >= digits_value(prev)) by (nonlinear_arith)
                requires
                    digits_value(next) == digits_value(prev) * 10 + d,
            ;
        }
        i = i + 1;
        assert forall|j: int| 0 <= j < i implies is_digit(#[trigger] s@.subrange(0, i as int)[j]) by {
            if j < i - 1 {
                assert(s@.subrange(0, i as int)[j] == prev[j]);
            }
        }
    }
    assert(s@.subrange(0, s@.len() as int) =~= s@);
    if ok {
        Some(acc)
    } else {
        None
    }
}


/// Concatenate two texts.
pub fn concat(a: &str, b: &str) -> (r: String)
    ensures
        r@ == a@ + b@,
{
    let mut v = to_chars(a);
    let mut w = to_chars(b);
    v.append(&mut w);
    from_chars(v.as_slice())
}

/// Concatenate three texts.
pub fn concat3(a: &str, b: &str, c: &str) -> (r: String)
    ensures
        r@ == a@ + b@ + c@,
{
    let ab = concat(a, b);
    concat(ab.as_str(), c)
}

/// Index of the first occurrence of `p` at or after `i`, or -1.
pub open spec fn first_occurrence_from(s: Seq<char>, p: Seq<char>, i: int) -> int
    decreases s.len() + 1 - i,
{
    if i < 0 || i > s.len() || i + p.len() > s.len() {
        -1
    } else if occurs_at(s, p, i) {
        i
    } else {
        first_occurrence_from(s, p, i + 1)
    }
}

pub open spec fn first_occurrence(s: Seq<char>, p: Seq<char>) -> int {
    first_occurrence_from(s, p, 0)
}

/// `s.split(p).nth(1)`: the text between the first and the second occurrence
/// of a non-empty pattern (or the end of the text).
pub open spec fn second_piece(s: Seq<char>, p: Seq<char>) -> Option<Seq<char>> {
    let i = first_occurrence(s, p);
    if i < 0 {
        None
    } else {
        let rest = s.subrange(i + p.len(), s.len() as int);
        let j = first_occurrence(rest, p);
        if j < 0 {
            Some(rest)
        } else {
            Some(rest.subrange(0, j))
        }
    }
}

pub proof fn lemma_first_occurrence_bounds(s: Seq<char>, p: Seq<char>, i: int)
    requires
        0 <= i,
    ensures
        first_occurrence_from(s, p, i) == -1 || (i <= first_occurrence_from(s, p, i)
            && occurs_at(s, p, first_occurrence_from(s, p, i)) && first_occurrence_from(s, p, i)
            + p.len() <= s.len()),
        forall|k: int|
            i <= k && (first_occurrence_from(s, p, i) == -1 || k < first_occurrence_from(s, p, i))
                ==> !occurs_at(s, p, k),
    decreases s.len() + 1 - i,
{
    if i > s.len() || i + p.len() > s.len() {
    } else if occurs_at(s, p, i) {
    } else {
        lemma_first_occurrence_bounds(s, p, i + 1);
    }
}

/// Position of the first occurrence of `p` at or after `from`.
pub fn find_from(s: &[char], p: &[char], from: usize) -> (r: Option<usize>)
    ensures
        match r {
            Some(i) => i as int == first_occurrence_from(s@, p@, from as int) && i + p@.len()
                <= s@.len(),
            None => first_occurrence_from(s@, p@, from as int) == -1,
        },
{
    let mut i = from;
    if p.len() > s.len() {
        proof {
            lemma_first_occurrence_bounds(s@, p@, from as int);
        }
        return None;
    }
    let last = s.len() - p.len();
    while i <= last
        invariant
            from <= i,
            p@.len() <= s@.len(),
            last == s@.len() - p@.len(),
            first_occurrence_from(s@, p@, from as int) == first_occurrence_from(s@, p@, i as int),
        decreases last + 1 - i,
    {
        if occurs_at_exec(s, p, i) {
            return Some(i);
        }
        if i == last {
            assert(first_occurrence_from(s@, p@, i as int) == first_occurrence_from(
                s@,
                p@,
                i + 1,
            ));
            assert(first_occurrence_from(s@, p@, i + 1) == -1);
            return None;
        }
        i = i + 1;
    }
    None
}

pub fn copy_chars(v: &[char], lo: usize, hi: usize) -> (r: Vec<char>)
    requires
        lo <= hi <= v@.len(),
    ensures
        r@ == v@.subrange(lo as int, hi as int),
{
    let mut r: Vec<char> = Vec::new();
    let mut i = lo;
    while i < hi
        invariant
            lo <= i <= hi <= v@.len(),
            r@ == v@.subrange(lo as int, i as int),
        decreases hi - i,
    {
        r.push(v[i]);
        i = i + 1;
        assert(r@ =~= v@.subrange(lo as int, i as int));
    }
    r
}

/// `s.split(p).nth(1)` for a non-empty pattern.
pub fn second_piece_of(s: &[char], p: &[char]) -> (r: Option<Vec<char>>)
    requires
        p@.len() > 0,
    ensures
        match r {
            Some(v) => second_piece(s@, p@) == Some(v@),
            None => second_piece(s@, p@) is None,
        },
{
    let n = s.len();
    match find_from(s, p, 0) {
        None => None,
        Some(i) => {
            proof {
                lemma_first_occurrence_bounds(s@, p@, 0);
            }
            let start = i + p.len();
            let rest = copy_chars(s, start, n);
            match find_from(rest.as_slice(), p, 0) {
                None => Some(rest),
                Some(j) => {
                    proof {
                        lemma_first_occurrence_bounds(rest@, p@, 0);
                    }
                    Some(copy_chars(rest.as_slice(), 0, j))
                },
            }
        },
    }
}

/// Drop one trailing carriage return.
pub open spec fn strip_cr(l: Seq<char>) -> Seq<char> {
    if l.len() > 0 && l.last() == '\r' {
        l.drop_last()
    } else {
        l
    }
}

pub open spec fn newline() -> Seq<char> {
    seq!['\n']
}

/// `str::lines`: split at `\n`, drop a `\r` before it, no final empty line.
pub open spec fn lines(s: Seq<char>) -> Seq<Seq<char>>
    decreases s.len(),
{
    if s.len() == 0 {
        Seq::empty()
    } else {
        let k = first_occurrence(s, newline());
        proof {
            lemma_first_occurrence_bounds(s, newline(), 0);
        }
        if k < 0 {
            seq![s]
        } else {
            seq![strip_cr(s.subrange(0, k))] + lines(s.subrange(k + 1, s.len() as int))
        }
    }
}

/// Text without a line feed.
pub open spec fn has_no_newline(s: Seq<char>) -> bool {
    forall|j: int| 0 <= j < s.len() ==> s[j] != '\n'
}

proof fn lemma_occurs_newline(s: Seq<char>, k: int)
    ensures
        occurs_at(s, newline(), k) <==> (0 <= k < s.len() && s[k] == '\n'),
{
    if 0 <= k < s.len() && s[k] == '\n' {
        assert(s.subrange(k, k + 1) =~= newline());
    }
    if occurs_at(s, newline(), k) {
        assert(s.subrange(k, k + 1)[0] == s[k]);
    }
}

proof fn lemma_first_newline_from(s: Seq<char>, n: int, i: int)
    requires
        0 <= i <= n < s.len(),
        s[n] == '\n',
        forall|j: int| i <= j < n ==> s[j] != '\n',
    ensures
        first_occurrence_from(s, newline(), i) == n,
    decreases n - i,
{
    lemma_occurs_newline(s, i);
    if i < n {
        lemma_first_newline_from(s, n, i + 1);
    }
}

proof fn lemma_no_newline_from(s: Seq<char>, i: int)
    requires
        0 <= i,
        forall|j: int| i <= j < s.len() ==> s[j] != '\n',
    ensures
        first_occurrence_from(s, newline(), i) == -1,
    decreases s.len() + 1 - i,
{
    if i < s.len() {
        lemma_occurs_newline(s, i);
        lemma_no_newline_from(s, i + 1);
    }
}

/// No line that `str::lines` gives holds a line feed.
pub proof fn lemma_lines_no_newline(s: Seq<char>)
    ensures
        forall|i: int| 0 <= i < lines(s).len() ==> has_no_newline(#[trigger] lines(s)[i]),
    decreases s.len(),
{
    if s.len() > 0 {
        let k = first_occurrence(s, newline());
        lemma_first_occurrence_bounds(s, newline(), 0);
        if k < 0 {
            assert forall|j: int| 0 <= j < s.len() implies s[j] != '\n' by {
                lemma_occurs_newline(s, j);
            }
            assert(lines(s) =~= seq![s]);
        } else {
            let head = s.subrange(0, k);
            assert forall|j: int| 0 <= j < head.len() implies head[j] != '\n' by {
                lemma_occurs_newline(s, j);
            }
            let rest = s.subrange(k + 1, s.len() as int);
            lemma_lines_no_newline(rest);
            assert(lines(s) == seq![strip_cr(head)] + lines(rest));
            assert forall|i: int| 0 <= i < lines(s).len() implies has_no_newline(#[trigger] lines(s)[i]) by {
                if i > 0 {
                    assert(lines(s)[i] == lines(rest)[i - 1]);
                }
            }
        }
    }
}

/// Joining at least two items starts with the first item and the separator.
pub proof fn lemma_join_front(g: Seq<Seq<char>>, sep: Seq<char>)
    requires
        g.len() >= 2,
    ensures
        join_with(g, sep) == g[0] + sep + join_with(g.drop_first(), sep),
    decreases g.len(),
{
    if g.len() == 2 {
        assert(join_with(g.drop_last(), sep) == g[0]);
        assert(join_with(g.drop_first(), sep) == g[1]);
    } else {
        lemma_join_front(g.drop_last(), sep);
        assert(g.drop_last().drop_first() =~= g.drop_first().drop_last());
        assert(g.drop_first().last() == g.last());
        assert((g[0] + sep + join_with(g.drop_first().drop_last(), sep)) + sep + g.last() =~= g[0] + sep + (
        join_with(g.drop_first().drop_last(), sep) + sep + g.last()));
    }
}

/// The lines of items joined by line feeds (with or without a final line
/// feed) are the items, each perhaps without its final carriage return, or
/// an empty line: whatever holds of all of those holds of every line.
pub proof fn lemma_lines_of_join(g: Seq<Seq<char>>, tail: Seq<char>, ok: spec_fn(Seq<char>) -> bool)
    requires
        tail == Seq::<char>::empty() || tail == newline(),
        forall|i: int| 0 <= i < g.len() ==> has_no_newline(#[trigger] g[i]),
        forall|i: int| 0 <= i < g.len() ==> ok(#[trigger] g[i]) && ok(strip_cr(g[i])),
        ok(Seq::<char>::empty()),
    ensures
        forall|j: int|
            0 <= j < lines(join_with(g, newline()) + tail).len() ==> ok(
                #[trigger] lines(join_with(g, newline()) + tail)[j],
            ),
    decreases g.len(),
{
    let t = join_with(g, newline()) + tail;
    if g.len() == 0 {
        assert(t =~= tail);
        if tail == newline() {
            lemma_first_newline_from(t, 0, 0);
            assert(t.subrange(0, 0) =~= Seq::<char>::empty());
            assert(t.subrange(1, t.len() as int) =~= Seq::<char>::empty());
            assert(lines(Seq::<char>::empty()) =~= Seq::<Seq<char>>::empty());
            assert(lines(t) == seq![strip_cr(t.subrange(0, 0))] + lines(t.subrange(1, t.len() as int)));
            assert(lines(t) =~= seq![Seq::<char>::empty()]);
        }
    } else if g.len() == 1 {
        let a = g[0];
        assert(t =~= a + tail);
        if tail == newline() {
            lemma_first_newline_from(t, a.len() as int, 0);
            assert(t.subrange(0, a.len() as int) =~= a);
            assert(t.subrange(a.len() as int + 1, t.len() as int) =~= Seq::<char>::empty());
            assert(lines(Seq::<char>::empty()) =~= Seq::<Seq<char>>::empty());
            assert(lines(t) == seq![strip_cr(t.subrange(0, a.len() as int))] + lines(
                t.subrange(a.len() as int + 1, t.len() as int),
            ));
            assert(lines(t) =~= seq![strip_cr(a)]);
        } else if a.len() > 0 {
            lemma_no_newline_from(t, 0);
            assert(lines(t) =~= seq![a]);
        }
    } else {
        let a = g[0];
        let rest = join_with(g.drop_first(), newline()) + tail;
        lemma_join_front(g, newline());
        assert(t =~= a + newline() + rest);
        lemma_first_newline_from(t, a.len() as int, 0);
        assert(t.subrange(0, a.len() as int) =~= a);
        assert(t.subrange(a.len() as int + 1, t.len() as int) =~= rest);
        assert forall|i: int| 0 <= i < g.drop_first().len() implies ok(#[trigger] g.drop_first()[i]) && ok(
            strip_cr(g.drop_first()[i]),
        ) && has_no_newline(g.drop_first()[i]) by {
            assert(g.drop_first()[i] == g[i + 1]);
        }
        lemma_lines_of_join(g.drop_first(), tail, ok);
        assert(lines(t) == seq![strip_cr(a)] + lines(rest));
        assert forall|j: int| 0 <= j < lines(t).len() implies ok(#[trigger] lines(t)[j]) by {
            if j > 0 {
                assert(lines(t)[j] == lines(rest)[j - 1]);
            }
        }
    }
}

/// The lines of items joined by line feeds: each item, without its final
/// carriage return where a line feed follows it. A last empty item counts
/// only when a final line feed follows it.
pub open spec fn joined_lines(g: Seq<Seq<char>>, final_newline: bool) -> Seq<Seq<char>> {
    Seq::new(g.len(), |i: int| if i + 1 < g.len() || final_newline { strip_cr(g[i]) } else { g[i] })
}

pub proof fn lemma_lines_of_join_exact(g: Seq<Seq<char>>, tail: Seq<char>)
    requires
        g.len() > 0,
        tail == Seq::<char>::empty() || tail == newline(),
        forall|i: int| 0 <= i < g.len() ==> has_no_newline(#[trigger] g[i]),
        tail == Seq::<char>::empty() ==> g.last().len() > 0,
    ensures
        lines(join_with(g, newline()) + tail) == joined_lines(g, tail == newline()),
    decreases g.len(),
{
    let t = join_with(g, newline()) + tail;
    let a = g[0];
    assert(lines(Seq::<char>::empty()) =~= Seq::<Seq<char>>::empty());
    if g.len() == 1 {
        assert(t =~= a + tail);
        if tail == newline() {
            lemma_first_newline_from(t, a.len() as int, 0);
            assert(t.subrange(0, a.len() as int) =~= a);
            assert(t.subrange(a.len() as int + 1, t.len() as int) =~= Seq::<char>::empty());
            assert(lines(t) == seq![strip_cr(t.subrange(0, a.len() as int))] + lines(
                t.subrange(a.len() as int + 1, t.len() as int),
            ));
            assert(lines(t) =~= joined_lines(g, true));
        } else {
            lemma_no_newline_from(t, 0);
            assert(lines(t) =~= joined_lines(g, false));
        }
    } else {
        let rest = join_with(g.drop_first(), newline()) + tail;
        lemma_join_front(g, newline());
        assert(t =~= a + newline() + rest);
        lemma_first_newline_from(t, a.len() as int, 0);
        assert(t.subrange(0, a.len() as int) =~= a);
        assert(t.subrange(a.len() as int + 1, t.len() as int) =~= rest);
        assert forall|i: int| 0 <= i < g.drop_first().len() implies has_no_newline(#[trigger] g.drop_first()[i]) by {
            assert(g.drop_first()[i] == g[i + 1]);
        }
        assert(g.drop_first().last() == g.last());
        lemma_lines_of_join_exact(g.drop_first(), tail);
        assert(lines(t) == seq![strip_cr(a)] + lines(rest));
        assert(lines(t) =~= joined_lines(g, tail == newline()));
    }
}

/// Text that does not end with a line feed has a last line, and it is not
/// empty.
pub proof fn lemma_last_line_not_empty(s: Seq<char>)
    requires
        s.len() > 0,
        s.last() != '\n',
    ensures
        lines(s).len() > 0,
        lines(s).last().len() > 0,
    decreases s.len(),
{
    let k = first_occurrence(s, newline());
    lemma_first_occurrence_bounds(s, newline(), 0);
    if k >= 0 {
        lemma_occurs_newline(s, k);
        let rest = s.subrange(k + 1, s.len() as int);
        assert(rest.len() > 0);
        assert(rest.last() == s.last());
        lemma_last_line_not_empty(rest);
        assert(lines(s) == seq![strip_cr(s.subrange(0, k))] + lines(rest));
    }
}

/// Dropping white space at the end does not change the trimmed text.
pub proof fn lemma_trim_without_last_ws(l: Seq<char>)
    requires
        l.len() > 0,
        is_ws(l.last()),
    ensures
        trim(l.drop_last()) == trim(l),
    decreases l.len(),
{
    if l.len() == 1 {
        assert(l.drop_last() =~= Seq::<char>::empty());
        assert(l.drop_first() =~= Seq::<char>::empty());
    } else if is_ws(l[0]) {
        assert(l.drop_last().drop_first() =~= l.drop_first().drop_last());
        lemma_trim_without_last_ws(l.drop_first());
    }
}

pub open spec fn char_views(v: Seq<Vec<char>>) -> Seq<Seq<char>> {
    v.map_values(|x: Vec<char>| x@)
}

/// `str::lines` on characters.
pub fn split_lines(s: &[char]) -> (r: Vec<Vec<char>>)
    ensures
        char_views(r@) == lines(s@),
{
    let mut out: Vec<Vec<char>> = Vec::new();
    let mut i: usize = 0;
    let nl: [char; 1] = ['\n'];
    assert(nl@ =~= newline());
    assert(s@.subrange(0, s@.len() as int) =~= s@);
    while i < s.len()
        invariant
            i <= s@.len(),
            nl@ == newline(),
            char_views(out@) + lines(s@.subrange(i as int, s@.len() as int)) == lines(s@),
        decreases s@.len() - i,
    {
        let rest = copy_chars(s, i, s.len());
        let ghost old_out = char_views(out@);
        match find_from(rest.as_slice(), nl.as_slice(), 0) {
            None => {
                out.push(rest);
                assert(char_views(out@) =~= old_out + seq![s@.subrange(i as int, s@.len() as int)]);
                assert(s@.subrange(s@.len() as int, s@.len() as int) =~= Seq::<char>::empty());
                i = s.len();
            },
            Some(k) => {
                proof {
                    lemma_first_occurrence_bounds(rest@, newline(), 0);
                }
                let mut line = copy_chars(rest.as_slice(), 0, k);
                if k > 0 && line[k - 1] == '\r' {
                    line.pop();
                    assert(line@ =~= strip_cr(rest@.subrange(0, k as int)));
                }
                out.push(line);
                assert(rest@.subrange(k + 1, rest@.len() as int) =~= s@.subrange(
                    i + k + 1,
                    s@.len() as int,
                ));
                assert(char_views(out@) =~= old_out + seq![
                    strip_cr(rest@.subrange(0, k as int)),
                ]);
                i = i + k + 1;
            },
        }
    }
    assert(s@.subrange(s@.len() as int, s@.len() as int) =~= Seq::<char>::empty());
    assert(char_views(out@) =~= lines(s@));
    out
}

/// `s.split_whitespace()` started with the word `cur` in progress.
pub open spec fn words_from(s: Seq<char>, cur: Seq<char>) -> Seq<Seq<char>>
    decreases s.len(),
{
    if s.len() == 0 {
        if cur.len() > 0 {
            seq![cur]
        } else {
            Seq::empty()
        }
    } else if is_ws(s[0]) {
        (if cur.len() > 0 {
            seq![cur]
        } else {
            Seq::empty()
        }) + words_from(s.drop_first(), Seq::empty())
    } else {
        words_from(s.drop_first(), cur.push(s[0]))
    }
}

/// `str::split_whitespace`.
pub open spec fn words(s: Seq<char>) -> Seq<Seq<char>> {
    words_from(s, Seq::empty())
}

/// Split at runs of white space, dropping empty words.
pub fn split_words(s: &[char]) -> (r: Vec<Vec<char>>)
    ensures
        char_views(r@) == words(s@),
{
    let mut out: Vec<Vec<char>> = Vec::new();
    let mut cur: Vec<char> = Vec::new();
    let mut i: usize = 0;
    assert(s@.subrange(0, s@.len() as int) =~= s@);
    while i < s.len()
        invariant
            i <= s@.len(),
            char_views(out@) + words_from(s@.subrange(i as int, s@.len() as int), cur@) == words(s@),
        decreases s@.len() - i,
    {
        let c = s[i];
        let ghost rest = s@.subrange(i as int, s@.len() as int);
        assert(rest.drop_first() =~= s@.subrange(i + 1, s@.len() as int));
        let ghost old_out = char_views(out@);
        if is_whitespace(c) {
            if cur.len() > 0 {
                let w = cur;
                cur = Vec::new();
                out.push(w);
                assert(char_views(out@) =~= old_out + seq![w@]);
            } else {
                assert(old_out + Seq::<Seq<char>>::empty() =~= old_out);
            }
            assert(cur@ =~= Seq::<char>::empty());
        } else {
            cur.push(c);
        }
        i = i + 1;
    }
    assert(s@.subrange(s@.len() as int, s@.len() as int) =~= Seq::<char>::empty());
    if cur.len() > 0 {
        let ghost old_out = char_views(out@);
        out.push(cur);
        assert(char_views(out@) =~= old_out + words_from(Seq::<char>::empty(), out@.last()@));
    } else {
        assert(char_views(out@) =~= char_views(out@) + words_from(Seq::<char>::empty(), cur@));
    }
    out
}

/// `items.join(sep)`.
pub open spec fn join_with(items: Seq<Seq<char>>, sep: Seq<char>) -> Seq<char>
    decreases items.len(),
{
    if items.len() == 0 {
        Seq::empty()
    } else if items.len() == 1 {
        items[0]
    } else {
        join_with(items.drop_last(), sep) + sep + items.last()
    }
}

pub fn join_chars(items: &Vec<Vec<char>>, sep: &[char]) -> (r: Vec<char>)
    ensures
        r@ == join_with(char_views(items@), sep@),
{
    let mut out: Vec<char> = Vec::new();
    let mut i: usize = 0;
    while i < items.len()
        invariant
            i <= items@.len(),
            out@ == join_with(char_views(items@).subrange(0, i as int), sep@),
        decreases items@.len() - i,
    {
        let ghost prefix = char_views(items@).subrange(0, i as int);
        let ghost next = char_views(items@).subrange(0, i + 1);
        assert(next.drop_last() =~= prefix);
        if i > 0 {
            let mut k: usize = 0;
            let ghost start = out@;
            while k < sep.len()
                invariant
                    k <= sep@.len(),
                    out@ == start + sep@.subrange(0, k as int),
                decreases sep@.len() - k,
            {
                out.push(sep[k]);
                k = k + 1;
                assert(out@ =~= start + sep@.subrange(0, k as int));
            }
            assert(sep@.subrange(0, sep@.len() as int) =~= sep@);
        }
        let ghost mid = out@;
        let item = &items[i];
        let mut k: usize = 0;
        while k < item.len()
            invariant
                k <= item@.len(),
                out@ == mid + item@.subrange(0, k as int),
            decreases item@.len() - k,
        {
            out.push(item[k]);
            k = k + 1;
            assert(out@ =~= mid + item@.subrange(0, k as int));
        }
        assert(item@.subrange(0, item@.len() as int) =~= item@);
        assert(next.last() == item@);
        proof {
            if i == 0 {
                assert(out@ =~= join_with(next, sep@));
            } else {
                assert(out@ =~= join_with(next, sep@));
            }
        }
        i = i + 1;
    }
    assert(char_views(items@).subrange(0, items@.len() as int) =~= char_views(items@));
    out
}


/// Strip leading characters that belong to `set`.
pub open spec fn trim_start_in(s: Seq<char>, set: Seq<char>) -> Seq<char>
    decreases s.len(),
{
    if s.len() > 0 && set.contains(s[0]) {
        trim_start_in(s.drop_first(), set)
    } else {
        s
    }
}

/// Strip trailing characters that belong to `set`.
pub open spec fn trim_end_in(s: Seq<char>, set: Seq<char>) -> Seq<char>
    decreases s.len(),
{
    if s.len() > 0 && set.contains(s.last()) {
        trim_end_in(s.drop_last(), set)
    } else {
        s
    }
}

/// `str::trim_matches` with a set of characters.
pub open spec fn trim_in(s: Seq<char>, set: Seq<char>) -> Seq<char> {
    trim_end_in(trim_start_in(s, set), set)
}

pub fn in_set(set: &[char], c: char) -> (b: bool)
    ensures
        b == set@.contains(c),
{
    let mut i: usize = 0;
    while i < set.len()
        invariant
            i <= set@.len(),
            forall|j: int| 0 <= j < i ==> set@[j] != c,
        decreases set@.len() - i,
    {
        if set[i] == c {
            assert(set@[i as int] == c);
            return true;
        }
        i = i + 1;
    }
    false
}

/// `str::trim_start_matches` with a set of characters.
pub fn trim_start_matching(v: &[char], set: &[char]) -> (r: Vec<char>)
    ensures
        r@ == trim_start_in(v@, set@),
{
    let n = v.len();
    let mut lo: usize = 0;
    assert(v@.subrange(0, n as int) =~= v@);
    while lo < n && in_set(set, v[lo])
        invariant
            lo <= n,
            n == v@.len(),
            trim_start_in(v@, set@) == trim_start_in(v@.subrange(lo as int, n as int), set@),
        decreases n - lo,
    {
        assert(v@.subrange(lo as int, n as int).drop_first() =~= v@.subrange(lo + 1, n as int));
        lo = lo + 1;
    }
    copy_chars(v, lo, n)
}

/// `str::trim_end_matches` with a set of characters.
pub fn trim_end_matching(v: &[char], set: &[char]) -> (r: Vec<char>)
    ensures
        r@ == trim_end_in(v@, set@),
{
    let mut e = v.len();
    assert(v@.subrange(0, e as int) =~= v@);
    while e > 0 && in_set(set, v[e - 1])
        invariant
            e <= v@.len(),
            trim_end_in(v@, set@) == trim_end_in(v@.subrange(0, e as int), set@),
        decreases e,
    {
        assert(v@.subrange(0, e as int).drop_last() =~= v@.subrange(0, e - 1));
        e = e - 1;
    }
    copy_chars(v, 0, e)
}

/// `str::trim_matches` with a set of characters.
pub fn trim_matching(v: &[char], set: &[char]) -> (r: Vec<char>)
    ensures
        r@ == trim_in(v@, set@),
{
    let a = trim_start_matching(v, set);
    trim_end_matching(a.as_slice(), set)
}


/// The lowest `k` decimal digits of `n`, zero padded (`{:0k$}` of `n % 10^k`).
pub open spec fn dec_digits(n: nat, k: nat) -> Seq<char>
    decreases k,
{
    if k == 0 {
        Seq::empty()
    } else {
        dec_digits(n / 10, (k - 1) as nat).push(digit_char(n % 10))
    }
}

pub fn push_dec_digits(out: &mut Vec<char>, n: u64, k: u64)
    ensures
        final(out)@ == old(out)@ + dec_digits(n as nat, k as nat),
    decreases k,
{
    if k > 0 {
        push_dec_digits(out, n / 10, k - 1);
        out.push(digit_of(n % 10));
        assert(out@ =~= old(out)@ + dec_digits(n as nat, k as nat));
    } else {
        assert(out@ =~= old(out)@ + dec_digits(n as nat, k as nat));
    }
}

/// The longest prefix made of ASCII digits.
pub open spec fn digit_prefix(s: Seq<char>) -> Seq<char>
    decreases s.len(),
{
    if s.len() > 0 && is_digit(s[0]) {
        seq![s[0]] + digit_prefix(s.drop_first())
    } else {
        Seq::empty()
    }
}

pub fn digit_prefix_of(v: &[char]) -> (r: Vec<char>)
    ensures
        r@ == digit_prefix(v@),
{
    let mut i: usize = 0;
    let n = v.len();
    assert(v@.subrange(0, n as int) =~= v@);
    while i < n && '0' <= v[i] && v[i] <= '9'
        invariant
            i <= n,
            n == v@.len(),
            digit_prefix(v@) == v@.subrange(0, i as int) + digit_prefix(v@.subrange(i as int, n as int)),
        decreases n - i,
    {
        let ghost rest = v@.subrange(i as int, n as int);
        assert(rest.drop_first() =~= v@.subrange(i + 1, n as int));
        assert(v@.subrange(0, i + 1) =~= v@.subrange(0, i as int) + seq![v@[i as int]]);
        i = i + 1;
    }
    assert(digit_prefix(v@.subrange(i as int, n as int)) =~= Seq::<char>::empty());
    copy_chars(v, 0, i)
}

/// Keep only the ASCII digits.
pub open spec fn only_digits(s: Seq<char>) -> Seq<char>
    decreases s.len(),
{
    if s.len() == 0 {
        Seq::empty()
    } else if is_digit(s.last()) {
        only_digits(s.drop_last()).push(s.last())
    } else {
        only_digits(s.drop_last())
    }
}

pub fn only_digits_of(v: &[char]) -> (r: Vec<char>)
    ensures
        r@ == only_digits(v@),
{
    let mut r: Vec<char> = Vec::new();
    let mut i: usize = 0;
    while i < v.len()
        invariant
            i <= v@.len(),
            r@ == only_digits(v@.subrange(0, i as int)),
        decreases v@.len() - i,
    {
        assert(v@.subrange(0, i + 1).drop_last() =~= v@.subrange(0, i as int));
        if '0' <= v[i] && v[i] <= '9' {
            r.push(v[i]);
        }
        i = i + 1;
    }
    assert(v@.subrange(0, v@.len() as int) =~= v@);
    r
}

/// `str::parse::<u32>` of a run of digits.
pub open spec fn parse_u32_spec(s: Seq<char>) -> Option<u32> {
    if s.len() > 0 && all_digits(s) && digits_value(s) <= u32::MAX {
        Some(digits_value(s) as u32)
    } else {
        None
    }
}

pub fn parse_u32_digits(v: &[char]) -> (r: Option<u32>)
    ensures
        r == parse_u32_spec(v@),
{
    match parse_digits(v) {
        Some(x) => {
            if x <= 0xffff_ffffu64 {
                Some(x as u32)
            } else {
                None
            }
        },
        None => None,
    }
}


pub proof fn lemma_trim_start_head(s: Seq<char>)
    ensures
        trim_start(s).len() == 0 || !is_ws(trim_start(s)[0]),
    decreases s.len(),
{
    if s.len() > 0 && is_ws(s[0]) {
        lemma_trim_start_head(s.drop_first());
    }
}

pub proof fn lemma_trim_end_prefix(s: Seq<char>)
    ensures
        trim_end(s).len() <= s.len(),
        trim_end(s) == s.subrange(0, trim_end(s).len() as int),
        trim_end(s).len() == 0 || !is_ws(trim_end(s).last()),
    decreases s.len(),
{
    if s.len() > 0 && is_ws(s.last()) {
        lemma_trim_end_prefix(s.drop_last());
        assert(s.drop_last().subrange(0, trim_end(s).len() as int) =~= s.subrange(0, trim_end(s).len() as int));
    } else {
        assert(s.subrange(0, s.len() as int) =~= s);
    }
}

/// Trimming twice is trimming once.
pub proof fn lemma_trim_idempotent(s: Seq<char>)
    ensures
        trim(trim(s)) == trim(s),
{
    let a = trim_start(s);
    let t = trim_end(a);
    lemma_trim_start_head(s);
    lemma_trim_end_prefix(a);
    if t.len() > 0 {
        assert(t[0] == a[0]);
    }
    assert(trim_start(t) == t);
    assert(trim_end(t) == t);
}

/// `s.split_once(p).map(|(_, after)| after)`: everything after the first
/// occurrence of the pattern.
pub open spec fn after_first(s: Seq<char>, p: Seq<char>) -> Option<Seq<char>> {
    let i = first_occurrence(s, p);
    if i < 0 {
        None
    } else {
        Some(s.subrange(i + p.len(), s.len() as int))
    }
}

pub fn after_first_of(s: &[char], p: &[char]) -> (r: Option<Vec<char>>)
    ensures
        match r {
            Some(v) => after_first(s@, p@) == Some(v@),
            None => after_first(s@, p@) is None,
        },
{
    match find_from(s, p, 0) {
        None => None,
        Some(i) => {
            proof {
                lemma_first_occurrence_bounds(s@, p@, 0);
            }
            let n = s.len();
            assert(i + p@.len() <= n);
            let start: usize = i + p.len();
            Some(copy_chars(s, start, n))
        },
    }
}

/// The views of a list of strings.
pub open spec fn string_views(v: Seq<String>) -> Seq<Seq<char>> {
    v.map_values(|x: String| x@)
}


/// `i64::to_string`: a minus sign before the digits of a negative number.
pub open spec fn signed_decimal(n: int) -> Seq<char> {
    if n < 0 {
        "-"@ + decimal((-n) as nat)
    } else {
        decimal(n as nat)
    }
}

pub fn signed_decimal_string(n: i64) -> (r: String)
    ensures
        r@ == signed_decimal(n as int),
{
    if n < 0 {
        let magnitude: u64 = (-(n as i128)) as u64;
        concat("-", decimal_string(magnitude).as_str())
    } else {
        decimal_string(n as u64)
    }
}

/// A copy of a list of strings.
pub fn copy_strings(v: &Vec<String>) -> (r: Vec<String>)
    ensures
        r@ == v@,
{
    let mut out: Vec<String> = Vec::new();
    let mut i: usize = 0;
    while i < v.len()
        invariant
            i <= v@.len(),
            out@ == v@.subrange(0, i as int),
        decreases v@.len() - i,
    {
        out.push(v[i].clone());
        assert(out@ =~= v@.subrange(0, i + 1));
        i = i + 1;
    }
    assert(v@.subrange(0, v@.len() as int) =~= v@);
    out
}

/// A copy of an optional string.
pub fn copy_opt(v: &Option<String>) -> (r: Option<String>)
    ensures
        r == *v,
{
    match v {
        Some(s) => Some(s.clone()),
        None => None,
    }
}

} // verus!
