use vstd::prelude::*;
use vstd::std_specs::iter::IteratorSpec;

verus! {

/// The character of a decimal digit.
pub open spec fn digit_char(d: nat) -> char {
    ((48 + d) as u8) as char
}

/// The two-digit, zero-padded decimal text of an opcode number.
pub open spec fn opcode_text(n: nat) -> Seq<char> {
    seq![digit_char(n / 10), digit_char(n % 10)]
}

pub fn make_digit(d: u8) -> (c: char)
    requires
        d < 10,
    ensures
        c == digit_char(d as nat),
{
    (48 + d) as char
}

/// Renders an opcode number as two decimal digits, or nothing above 99.
pub fn make_instruction_number(number: u8) -> (r: Option<String>)
    ensures
        number <= 99 ==> (r matches Some(s) && s@ == opcode_text(number as nat)),
        number > 99 ==> r is None,
{
    if number > 99 {
        return None;
    }
    let mut s = String::new();
    push_char(&mut s, make_digit(number / 10));
    push_char(&mut s, make_digit(number % 10));
    Some(s)
}

/// Relies on String::push: the character is appended at the end.
#[verifier::external_body]
pub(crate) fn push_char(s: &mut String, c: char)
    ensures
        final(s)@ == old(s)@.push(c),
{
    s.push(c)
}


/// The character of a hexadecimal digit, upper case.
pub open spec fn hex_char(d: nat) -> char {
    if d < 10 {
        digit_char(d)
    } else {
        ((55 + d) as u8) as char
    }
}

/// A byte as two upper-case hexadecimal digits.
pub open spec fn hex_byte(b: nat) -> Seq<char> {
    seq![hex_char((b / 16) % 16), hex_char(b % 16)]
}

/// A 16-bit immediate as two space-separated hex bytes, high byte first.
pub open spec fn imm16_text(v: nat) -> Seq<char> {
    hex_byte((v / 256) % 256) + seq![' '] + hex_byte(v % 256)
}

fn make_hex_digit(d: u32) -> (c: char)
    requires
        d < 16,
    ensures
        c == hex_char(d as nat),
{
    if d < 10 {
        (48 + d as u8) as char
    } else {
        (55 + d as u8) as char
    }
}

/// Appends a byte as two upper-case hexadecimal digits.
pub fn push_hex_byte(s: &mut String, b: u32)
    requires
        b < 256,
    ensures
        final(s)@ == old(s)@ + hex_byte(b as nat),
{
    push_char(s, make_hex_digit((b / 16) % 16));
    push_char(s, make_hex_digit(b % 16));
}

/// Appends a 16-bit immediate as `HH LL`.
pub fn push_imm16(s: &mut String, v: u32)
    requires
        v <= 65535,
    ensures
        final(s)@ == old(s)@ + imm16_text(v as nat),
{
    push_hex_byte(s, v / 256);
    push_char(s, ' ');
    push_hex_byte(s, v % 256);
}

/// Appends every character of `t`.
pub fn push_chars(s: &mut String, t: &Vec<char>)
    ensures
        final(s)@ == old(s)@ + t@,
{
    let mut i: usize = 0;
    while i < t.len()
        invariant
            i <= t@.len(),
            s@ == old(s)@ + t@.take(i as int),
        decreases t@.len() - i,
    {
        push_char(s, t[i]);
        i += 1;
        assert(t@.take(i as int) == t@.take(i - 1).push(t@[i - 1]));
    }
    assert(t@.take(i as int) == t@);
}

/// The characters of a string, in order.
pub fn chars_of(s: &str) -> (r: Vec<char>)
    ensures
        r@ == s@,
{
    broadcast use vstd::string::group_string_axioms;
    let mut r: Vec<char> = Vec::new();
    let mut it = s.chars();
    loop
        invariant
            r@ + it.remaining() == s@,
            it.decrease() is Some,
        ensures
            r@ == s@,
        decreases it.decrease()->0,
    {
        match it.next() {
            Some(c) => {
                r.push(c);
            },
            None => {
                assert(r@ + it.remaining() == r@);
                break;
            },
        }
    }
    r
}

/// The text made of the given characters.
pub fn string_of(t: &Vec<char>) -> (r: String)
    ensures
        r@ == t@,
{
    let mut r = String::new();
    push_chars(&mut r, t);
    r
}


/// `p` stands in `s` at position `i`.
pub open spec fn occurs_at(s: Seq<char>, p: Seq<char>, i: int) -> bool {
    0 <= i && i + p.len() <= s.len() && s.subrange(i, i + p.len()) == p
}

/// The first position, from `i` on, at which `p` stands in `s`.
pub open spec fn find_from(s: Seq<char>, p: Seq<char>, i: int) -> Option<int>
    decreases s.len() + 1 - i,
{
    if i < 0 || i + p.len() > s.len() {
        None
    } else if occurs_at(s, p, i) {
        Some(i)
    } else {
        find_from(s, p, i + 1)
    }
}

/// The last position, up to `i`, at which `p` stands in `s`.
pub open spec fn find_back(s: Seq<char>, p: Seq<char>, i: int) -> Option<int>
    decreases i + 1,
{
    if i < 0 {
        None
    } else if occurs_at(s, p, i) {
        Some(i)
    } else {
        find_back(s, p, i - 1)
    }
}

/// `s` with the `n` characters at `i` replaced by `t`.
pub open spec fn splice(s: Seq<char>, i: int, n: int, t: Seq<char>) -> Seq<char> {
    s.subrange(0, i) + t + s.subrange(i + n, s.len() as int)
}

/// `s` with the first occurrence of `from` replaced by `to`; `s` if there is none.
pub open spec fn replace_first_spec(s: Seq<char>, from: Seq<char>, to: Seq<char>) -> Seq<char> {
    match find_from(s, from, 0) {
        Some(i) => splice(s, i, from.len() as int, to),
        None => s,
    }
}

/// `s` with the last occurrence of `from` replaced by `to`; `s` if there is none.
pub open spec fn replace_last_spec(s: Seq<char>, from: Seq<char>, to: Seq<char>) -> Seq<char> {
    match find_back(s, from, s.len() - from.len()) {
        Some(i) => splice(s, i, from.len() as int, to),
        None => s,
    }
}

fn occurs_at_exec(s: &Vec<char>, p: &Vec<char>, i: usize) -> (r: bool)
    requires
        i + p@.len() <= s@.len(),
    ensures
        r == occurs_at(s@, p@, i as int),
{
    let n = s.len();
    let mut k: usize = 0;
    while k < p.len()
        invariant
            i + p@.len() <= s@.len(),
            n == s@.len(),
            k <= p@.len(),
            forall|j: int| 0 <= j < k ==> s@[i + j] == p@[j],
        decreases p@.len() - k,
    {
        if s[i + k] != p[k] {
            assert(s@.subrange(i as int, i + p@.len())[k as int] != p@[k as int]);
            return false;
        }
        k += 1;
    }
    assert(s@.subrange(i as int, i + p@.len()) =~= p@);
    true
}

fn splice_exec(s: &Vec<char>, i: usize, n: usize, t: &Vec<char>) -> (r: String)
    requires
        i + n <= s@.len(),
    ensures
        r@ == splice(s@, i as int, n as int, t@),
{
    let len = s.len();
    let mut r = String::new();
    let mut k: usize = 0;
    while k < i
        invariant
            i + n <= s@.len(),
            k <= i,
            r@ == s@.subrange(0, k as int),
        decreases i - k,
    {
        push_char(&mut r, s[k]);
        k += 1;
        assert(s@.subrange(0, k as int) == s@.subrange(0, k - 1).push(s@[k - 1]));
    }
    push_chars(&mut r, t);
    let ghost mid = r@;
    k = i + n;
    while k < len
        invariant
            len == s@.len(),
            i + n <= k <= s@.len(),
            r@ == mid + s@.subrange(i + n, k as int),
        decreases s@.len() - k,
    {
        push_char(&mut r, s[k]);
        k += 1;
        assert(s@.subrange(i + n, k as int) == s@.subrange(i + n, k - 1).push(s@[k - 1]));
    }
    assert(r@ =~= splice(s@, i as int, n as int, t@));
    r
}

/// Replaces the first occurrence of `from` in `input` by `to`.
pub fn replace_first(input: &str, from: &str, to: &str) -> (r: String)
    ensures
        r@ == replace_first_spec(input@, from@, to@),
{
    let s = chars_of(input);
    let p = chars_of(from);
    let t = chars_of(to);
    if p.len() > s.len() {
        return string_of(&s);
    }
    let last: usize = s.len() - p.len();
    let mut i: usize = 0;
    loop
        invariant
            s@ == input@,
            p@ == from@,
            t@ == to@,
            i <= last,
            last + p@.len() == s@.len(),
            find_from(s@, p@, 0) == find_from(s@, p@, i as int),
        decreases last - i,
    {
        if occurs_at_exec(&s, &p, i) {
            return splice_exec(&s, i, p.len(), &t);
        }
        if i == last {
            assert(find_from(s@, p@, last + 1) is None);
            return string_of(&s);
        }
        i += 1;
    }
}

/// Replaces the last occurrence of `from` in `input` by `to`.
pub fn replace_last(input: &str, from: &str, to: &str) -> (r: String)
    ensures
        r@ == replace_last_spec(input@, from@, to@),
{
    let s = chars_of(input);
    let p = chars_of(from);
    let t = chars_of(to);
    if p.len() > s.len() {
        return string_of(&s);
    }
    let mut k: usize = s.len() - p.len();
    loop
        invariant
            s@ == input@,
            p@ == from@,
            t@ == to@,
            k + p@.len() <= s@.len(),
            find_back(s@, p@, s@.len() - p@.len()) == find_back(s@, p@, k as int),
        decreases k,
    {
        if occurs_at_exec(&s, &p, k) {
            return splice_exec(&s, k, p.len(), &t);
        }
        if k == 0 {
            assert(find_back(s@, p@, -1) is None);
            return string_of(&s);
        }
        k -= 1;
    }
}


/// The decimal text of `n`, without leading zeros.
pub open spec fn decimal_text(n: nat) -> Seq<char>
    decreases n,
{
    if n < 10 {
        seq![digit_char(n)]
    } else {
        decimal_text(n / 10).push(digit_char(n % 10))
    }
}

/// Appends the decimal text of `n`.
pub fn push_decimal(s: &mut String, n: usize)
    ensures
        final(s)@ == old(s)@ + decimal_text(n as nat),
    decreases n,
{
    if n >= 10 {
        push_decimal(s, n / 10);
    }
    push_char(s, make_digit((n % 10) as u8));
    proof {
        assert(final(s)@ =~= old(s)@ + decimal_text(n as nat));
    }
}

} // verus!
