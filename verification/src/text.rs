//! Character classes, trimming, decimal numbers and percent-encoding on
//! strings, each with its meaning as a function on sequences of characters.
use vstd::prelude::*;
use vstd::string::*;

verus! {

/// A set of characters that trimming removes.
#[derive(Clone, Copy, Debug)]
pub enum CharClass {
    /// The characters with the Unicode property `White_Space`.
    Whitespace,
    /// The single character `/`.
    Slash,
}

/// Whether `c` has the Unicode property `White_Space`.
pub open spec fn is_whitespace(c: char) -> bool {
    let n = c as u32;
    ||| 0x09 <= n <= 0x0D
    ||| n == 0x20
    ||| n == 0x85
    ||| n == 0xA0
    ||| n == 0x1680
    ||| 0x2000 <= n <= 0x200A
    ||| n == 0x2028
    ||| n == 0x2029
    ||| n == 0x202F
    ||| n == 0x205F
    ||| n == 0x3000
}

impl CharClass {
    /// Whether `c` belongs to the class.
    pub open spec fn contains(self, c: char) -> bool {
        match self {
            CharClass::Whitespace => is_whitespace(c),
            CharClass::Slash => c == '/',
        }
    }

    /// Whether every character of `s` belongs to the class.
    pub open spec fn covers(self, s: Seq<char>) -> bool {
        forall|i: int| 0 <= i < s.len() ==> self.contains(#[trigger] s[i])
    }

    /// Decides membership of `c`.
    pub fn has(self, c: char) -> (r: bool)
        ensures
            r == self.contains(c),
    {
        let n: u32 = c as u32;
        match self {
            CharClass::Whitespace => {
                (0x09 <= n && n <= 0x0D) || n == 0x20 || n == 0x85 || n == 0xA0 || n == 0x1680 || (
                0x2000 <= n && n <= 0x200A) || n == 0x2028 || n == 0x2029 || n == 0x202F || n
                    == 0x205F || n == 0x3000
            },
            CharClass::Slash => n == 0x2F,
        }
    }
}

/// `s` without its longest prefix of characters of `class`.
pub open spec fn strip_prefix(s: Seq<char>, class: CharClass) -> Seq<char>
    decreases s.len(),
{
    if s.len() > 0 && class.contains(s[0]) {
        strip_prefix(s.subrange(1, s.len() as int), class)
    } else {
        s
    }
}

/// `s` without its longest suffix of characters of `class`.
pub open spec fn strip_suffix(s: Seq<char>, class: CharClass) -> Seq<char>
    decreases s.len(),
{
    if s.len() > 0 && class.contains(s.last()) {
        strip_suffix(s.drop_last(), class)
    } else {
        s
    }
}

/// Stripping a prefix passes over any run of the class put in front.
pub proof fn lemma_strip_prefix_skips(run: Seq<char>, rest: Seq<char>, class: CharClass)
    requires
        class.covers(run),
    ensures
        strip_prefix(run + rest, class) == strip_prefix(rest, class),
    decreases run.len(),
{
    if run.len() == 0 {
        assert(run + rest =~= rest);
    } else {
        let whole = run + rest;
        let tail = run.subrange(1, run.len() as int);
        assert(whole[0] == run[0]);
        assert(whole.subrange(1, whole.len() as int) =~= tail + rest);
        assert forall|i: int| 0 <= i < tail.len() implies class.contains(#[trigger] tail[i]) by {
            assert(tail[i] == run[i + 1]);
        }
        lemma_strip_prefix_skips(tail, rest, class);
    }
}

/// Stripping a suffix passes over any run of the class put behind.
pub proof fn lemma_strip_suffix_skips(rest: Seq<char>, run: Seq<char>, class: CharClass)
    requires
        class.covers(run),
    ensures
        strip_suffix(rest + run, class) == strip_suffix(rest, class),
    decreases run.len(),
{
    if run.len() == 0 {
        assert(rest + run =~= rest);
    } else {
        let whole = rest + run;
        let front = run.drop_last();
        assert(whole.last() == run.last());
        assert(whole.drop_last() =~= rest + front);
        assert forall|i: int| 0 <= i < front.len() implies class.contains(#[trigger] front[i]) by {
            assert(front[i] == run[i]);
        }
        lemma_strip_suffix_skips(rest, front, class);
    }
}

/// What stripping a prefix leaves is a suffix of the input that does not
/// begin with a character of the class.
pub proof fn lemma_strip_prefix_result(s: Seq<char>, class: CharClass)
    ensures
        strip_prefix(s, class).len() <= s.len(),
        strip_prefix(s, class) == s.subrange(
            s.len() - strip_prefix(s, class).len(),
            s.len() as int,
        ),
        strip_prefix(s, class).len() > 0 ==> !class.contains(strip_prefix(s, class)[0]),
    decreases s.len(),
{
    if s.len() > 0 && class.contains(s[0]) {
        let tail = s.subrange(1, s.len() as int);
        lemma_strip_prefix_result(tail, class);
        let kept = strip_prefix(tail, class);
        assert(tail.subrange(tail.len() - kept.len(), tail.len() as int) =~= s.subrange(
            s.len() - kept.len(),
            s.len() as int,
        ));
    } else {
        assert(s.subrange(0, s.len() as int) =~= s);
    }
}

/// What stripping a suffix leaves is a prefix of the input that does not
/// end in a character of the class.
pub proof fn lemma_strip_suffix_result(s: Seq<char>, class: CharClass)
    ensures
        strip_suffix(s, class).len() <= s.len(),
        strip_suffix(s, class) == s.subrange(0, strip_suffix(s, class).len() as int),
        strip_suffix(s, class).len() > 0 ==> !class.contains(strip_suffix(s, class).last()),
    decreases s.len(),
{
    if s.len() > 0 && class.contains(s.last()) {
        let front = s.drop_last();
        lemma_strip_suffix_result(front, class);
        let kept = strip_suffix(front, class);
        assert(front.subrange(0, kept.len() as int) =~= s.subrange(0, kept.len() as int));
    } else {
        assert(s.subrange(0, s.len() as int) =~= s);
    }
}

/// The part of `s` that is left when the leading characters of `class`
/// are taken away.
pub fn trim_start<'a>(s: &'a str, class: CharClass) -> (r: &'a str)
    ensures
        r@ == strip_prefix(s@, class),
{
    let n: usize = s.unicode_len();
    let mut start: usize = 0;
    assert(s@.subrange(0, n as int) =~= s@);
    while start < n && class.has(s.get_char(start))
        invariant
            start <= n,
            n == s@.len(),
            strip_prefix(s@, class) == strip_prefix(s@.subrange(start as int, n as int), class),
        decreases n - start,
    {
        proof {
            let rest = s@.subrange(start as int, n as int);
            assert(rest[0] == s@[start as int]);
            assert(rest.subrange(1, rest.len() as int) =~= s@.subrange(start + 1, n as int));
        }
        start = start + 1;
    }
    proof {
        let rest = s@.subrange(start as int, n as int);
        if start < n {
            assert(rest[0] == s@[start as int]);
        }
    }
    s.substring_char(start, n)
}

/// The part of `s` that is left when the trailing characters of `class`
/// are taken away.
pub fn trim_end<'a>(s: &'a str, class: CharClass) -> (r: &'a str)
    ensures
        r@ == strip_suffix(s@, class),
{
    let n: usize = s.unicode_len();
    let mut end: usize = n;
    assert(s@.subrange(0, n as int) =~= s@);
    while end > 0 && class.has(s.get_char(end - 1))
        invariant
            end <= n,
            n == s@.len(),
            strip_suffix(s@, class) == strip_suffix(s@.subrange(0, end as int), class),
        decreases end,
    {
        proof {
            let rest = s@.subrange(0, end as int);
            assert(rest.last() == s@[end - 1]);
            assert(rest.drop_last() =~= s@.subrange(0, end - 1));
        }
        end = end - 1;
    }
    proof {
        let rest = s@.subrange(0, end as int);
        if end > 0 {
            assert(rest.last() == s@[end - 1]);
        }
        assert(s@.subrange(0, n as int) =~= s@);
    }
    s.substring_char(0, end)
}

/// The character of the decimal digit `d`.
pub open spec fn digit_char(d: nat) -> char {
    if d == 0 {
        '0'
    } else if d == 1 {
        '1'
    } else if d == 2 {
        '2'
    } else if d == 3 {
        '3'
    } else if d == 4 {
        '4'
    } else if d == 5 {
        '5'
    } else if d == 6 {
        '6'
    } else if d == 7 {
        '7'
    } else if d == 8 {
        '8'
    } else {
        '9'
    }
}

/// The decimal numeral of `n`, without sign or leading zeros.
pub open spec fn decimal(n: nat) -> Seq<char>
    decreases n,
{
    if n < 10 {
        seq![digit_char(n)]
    } else {
        decimal(n / 10).push(digit_char(n % 10))
    }
}

fn digit_str(d: u64) -> (r: &'static str)
    requires
        d < 10,
    ensures
        r@ == seq![digit_char(d as nat)],
{
    proof {
        reveal_strlit("0");
        reveal_strlit("1");
        reveal_strlit("2");
        reveal_strlit("3");
        reveal_strlit("4");
        reveal_strlit("5");
        reveal_strlit("6");
        reveal_strlit("7");
        reveal_strlit("8");
        reveal_strlit("9");
    }
    let r = if d == 0 {
        "0"
    } else if d == 1 {
        "1"
    } else if d == 2 {
        "2"
    } else if d == 3 {
        "3"
    } else if d == 4 {
        "4"
    } else if d == 5 {
        "5"
    } else if d == 6 {
        "6"
    } else if d == 7 {
        "7"
    } else if d == 8 {
        "8"
    } else {
        "9"
    };
    assert(r@ =~= seq![digit_char(d as nat)]);
    r
}

/// Appends the decimal numeral of `n` to `out`.
pub fn push_decimal(out: &mut String, n: u64)
    ensures
        final(out)@ == old(out)@ + decimal(n as nat),
    decreases n,
{
    if n >= 10 {
        push_decimal(out, n / 10);
    }
    out.append(digit_str(n % 10));
    proof {
        if n >= 10 {
            assert(old(out)@ + decimal((n / 10) as nat) + seq![digit_char((n % 10) as nat)]
                =~= old(out)@ + decimal((n / 10) as nat).push(digit_char((n % 10) as nat)));
        }
    }
}

/// Whether `needle` stands somewhere in `hay`, character after character.
pub open spec fn occurs_in(needle: Seq<char>, hay: Seq<char>) -> bool {
    exists|i: int| 0 <= i && i + needle.len() <= hay.len() && #[trigger] hay.subrange(i, i + needle.len()) == needle
}

/// Whether `c` is one of the digits `0` to `9`.
pub open spec fn is_digit(c: char) -> bool {
    0x30 <= c as u32 <= 0x39
}

/// The number that a sequence of decimal digits denotes.
pub open spec fn digits_value(s: Seq<char>) -> nat
    decreases s.len(),
{
    if s.len() == 0 {
        0
    } else {
        digits_value(s.drop_last()) * 10 + (s.last() as u32 - 0x30) as nat
    }
}

/// Whether `s` is a decimal numeral of a number below 2^64: an optional
/// `+`, then one digit or more, nothing else.
pub open spec fn is_u64_literal(s: Seq<char>) -> bool {
    &&& unsigned_part(s).len() > 0
    &&& all_digits(unsigned_part(s))
    &&& digits_value(unsigned_part(s)) <= u64::MAX
}

/// `s` without a leading `+`.
pub open spec fn unsigned_part(s: Seq<char>) -> Seq<char> {
    if s.len() > 0 && s[0] == '+' {
        s.subrange(1, s.len() as int)
    } else {
        s
    }
}

/// Whether every character of `s` is a decimal digit.
pub open spec fn all_digits(s: Seq<char>) -> bool {
    forall|i: int| 0 <= i < s.len() ==> is_digit(#[trigger] s[i])
}

/// A sequence of digits denotes at least what any prefix of it denotes.
pub proof fn lemma_digits_value_grows(s: Seq<char>, k: int)
    requires
        0 <= k <= s.len(),
        all_digits(s),
    ensures
        digits_value(s.subrange(0, k)) <= digits_value(s),
    decreases s.len() - k,
{
    if k == s.len() {
        assert(s.subrange(0, k) =~= s);
    } else {
        let front = s.drop_last();
        assert(front.subrange(0, k) =~= s.subrange(0, k));
        assert forall|i: int| 0 <= i < front.len() implies is_digit(#[trigger] front[i]) by {
            assert(front[i] == s[i]);
        }
        lemma_digits_value_grows(front, k);
        assert(is_digit(s[s.len() - 1]));
    }
}

/// The decimal numeral of a number is made of digits and denotes that
/// number.
pub proof fn lemma_decimal_denotes(n: nat)
    ensures
        decimal(n).len() > 0,
        all_digits(decimal(n)),
        digits_value(decimal(n)) == n,
        decimal(n)[0] != '+',
    decreases n,
{
    if n < 10 {
        let one = decimal(n);
        assert(one.drop_last() =~= Seq::<char>::empty());
        assert(digits_value(one.drop_last()) == 0);
    } else {
        lemma_decimal_denotes(n / 10);
        let front = decimal(n / 10);
        let whole = decimal(n);
        assert(whole.drop_last() =~= front);
        assert(whole.last() == digit_char(n % 10));
        assert forall|i: int| 0 <= i < whole.len() implies is_digit(#[trigger] whole[i]) by {
            if i < front.len() {
                assert(whole[i] == front[i]);
            }
        }
        assert(whole[0] == front[0]);
    }
}

/// The decimal numeral of any unsigned 64-bit number is read as one.
pub proof fn lemma_decimal_is_u64_literal(n: u64)
    ensures
        is_u64_literal(decimal(n as nat)),
{
    lemma_decimal_denotes(n as nat);
}

/// Decides whether `s` is the numeral of an unsigned 64-bit number.
pub fn parses_as_u64(s: &str) -> (r: bool)
    ensures
        r == is_u64_literal(s@),
{
    let n: usize = s.unicode_len();
    let first: usize = if n > 0 && s.get_char(0) == '+' {
        1
    } else {
        0
    };
    if first == n {
        assert(unsigned_part(s@).len() == 0);
        return false;
    }
    let ghost digits = s@.subrange(first as int, n as int);
    assert(digits =~= unsigned_part(s@));
    let mut value: u64 = 0;
    let mut i: usize = first;
    while i < n
        invariant
            first <= i <= n,
            n == s@.len(),
            digits == s@.subrange(first as int, n as int),
            digits == unsigned_part(s@),
            forall|j: int| 0 <= j < i - first ==> is_digit(#[trigger] digits[j]),
            value == digits_value(digits.subrange(0, i - first)),
        decreases n - i,
    {
        let c = s.get_char(i);
        let code: u32 = c as u32;
        assert(digits[i - first] == c);
        if code < 0x30 || code > 0x39 {
            return false;
        }
        let d: u64 = (code - 0x30) as u64;
        proof {
            let upto = digits.subrange(0, i - first + 1);
            assert(upto.drop_last() =~= digits.subrange(0, i - first));
            assert(upto.last() == c);
        }
        if value > (u64::MAX - d) / 10 {
            proof {
                let upto = digits.subrange(0, i - first + 1);
                assert(digits_value(upto) > u64::MAX);
                if is_u64_literal(s@) {
                    lemma_digits_value_grows(digits, i - first + 1);
                }
            }
            return false;
        }
        value = value * 10 + d;
        i = i + 1;
    }
    proof {
        assert(digits.subrange(0, n - first) =~= digits);
    }
    true
}

/// Whether the byte `b` stands for itself in a percent-encoded string:
/// an ASCII letter or digit, or one of `-`, `.`, `_`, `~`.
pub open spec fn is_unreserved(b: u8) -> bool {
    ||| 0x30 <= b <= 0x39
    ||| 0x41 <= b <= 0x5A
    ||| 0x61 <= b <= 0x7A
    ||| b == 0x2D
    ||| b == 0x2E
    ||| b == 0x5F
    ||| b == 0x7E
}

/// The upper-case hexadecimal digit of `d`.
pub open spec fn hex_digit(d: u8) -> char {
    if d < 10 {
        (0x30 + d) as char
    } else {
        (0x41 + d - 10) as char
    }
}

/// What one byte becomes when percent-encoded.
pub open spec fn encoded_byte(b: u8) -> Seq<char> {
    if is_unreserved(b) {
        seq![b as char]
    } else {
        seq!['%', hex_digit(b / 16), hex_digit(b % 16)]
    }
}

/// The percent-encoding of a sequence of bytes.
pub open spec fn encoded_bytes(bytes: Seq<u8>) -> Seq<char>
    decreases bytes.len(),
{
    if bytes.len() == 0 {
        Seq::empty()
    } else {
        encoded_bytes(bytes.drop_last()) + encoded_byte(bytes.last())
    }
}

/// The percent-encoding of a string: that of its UTF-8 bytes.
pub open spec fn percent_encoded(s: Seq<char>) -> Seq<char> {
    encoded_bytes(vstd::utf8::encode_utf8(s))
}

/// Calls `urlencoding::encode`. Trusted: the result is the string's UTF-8
/// bytes in order, each unreserved byte as its own character and every
/// other byte as `%` with two upper-case hexadecimal digits.
#[verifier::external_body]
pub(crate) fn percent_encode(s: &str) -> (r: String)
    ensures
        r@ == percent_encoded(s@),
{
    urlencoding::encode(s).into_owned()
}

} // verus!
