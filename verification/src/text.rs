//! Texts as sequences of characters: white space, numbers in decimal notation, splitting,
//! searching and ordering.
use vstd::prelude::*;
use vstd::string::*;
use vstd::utf8::encode_utf8;

verus! {

/// The code points that carry the Unicode `White_Space` property.
pub open spec fn white_space(c: char) -> bool {
    let n = c as u32;
    9 <= n <= 13 || n == 0x20 || n == 0x85 || n == 0xa0 || n == 0x1680 || 0x2000 <= n <= 0x200a
        || n == 0x2028 || n == 0x2029 || n == 0x202f || n == 0x205f || n == 0x3000
}

/// Whether a character is white space.
pub fn is_white(c: char) -> (r: bool)
    ensures
        r == white_space(c),
{
    let n: u32 = c as u32;
    (9 <= n && n <= 13) || n == 0x20 || n == 0x85 || n == 0xa0 || n == 0x1680 || (0x2000 <= n && n
        <= 0x200a) || n == 0x2028 || n == 0x2029 || n == 0x202f || n == 0x205f || n == 0x3000
}

/// A text without its leading white space.
pub open spec fn trim_front(s: Seq<char>) -> Seq<char>
    decreases s.len(),
{
    if s.len() > 0 && white_space(s[0]) {
        trim_front(s.drop_first())
    } else {
        s
    }
}

/// A text without its trailing white space.
pub open spec fn trim_back(s: Seq<char>) -> Seq<char>
    decreases s.len(),
{
    if s.len() > 0 && white_space(s.last()) {
        trim_back(s.drop_last())
    } else {
        s
    }
}

/// A text without its leading and trailing white space.
pub open spec fn trimmed(s: Seq<char>) -> Seq<char> {
    trim_back(trim_front(s))
}

/// A text whose white space at both ends is gone has none left there.
pub proof fn trimmed_twice(s: Seq<char>)
    ensures
        trimmed(trimmed(s)) == trimmed(s),
{
    trim_front_clean(s);
    let front = trim_front(s);
    trim_back_clean(front);
    let both = trim_back(front);
    if both.len() > 0 {
        assert(both[0] == front[0]);
    }
    assert(trim_front(both) == both);
    assert(trim_back(both) == both);
}

proof fn trim_front_clean(s: Seq<char>)
    ensures
        trim_front(s).len() > 0 ==> !white_space(trim_front(s)[0]),
    decreases s.len(),
{
    if s.len() > 0 && white_space(s[0]) {
        trim_front_clean(s.drop_first());
    }
}

proof fn trim_back_clean(s: Seq<char>)
    ensures
        trim_back(s).len() > 0 ==> !white_space(trim_back(s).last()) && trim_back(s)[0] == s[0],
    decreases s.len(),
{
    if s.len() > 0 && white_space(s.last()) {
        trim_back_clean(s.drop_last());
    }
}

/// A text takes no more bytes once the white space around it is gone.
pub proof fn trimmed_bytes(s: Seq<char>)
    ensures
        encode_utf8(trimmed(s)).len() <= encode_utf8(s).len(),
{
    trim_front_bytes(s);
    trim_back_bytes(trim_front(s));
}

proof fn trim_front_bytes(s: Seq<char>)
    ensures
        encode_utf8(trim_front(s)).len() <= encode_utf8(s).len(),
    decreases s.len(),
{
    if s.len() > 0 && white_space(s[0]) {
        trim_front_bytes(s.drop_first());
    }
}

proof fn trim_back_bytes(s: Seq<char>)
    ensures
        encode_utf8(trim_back(s)).len() <= encode_utf8(s).len(),
    decreases s.len(),
{
    if s.len() > 0 && white_space(s.last()) {
        trim_back_bytes(s.drop_last());
        drop_last_bytes(s);
    }
}

proof fn drop_last_bytes(s: Seq<char>)
    requires
        s.len() > 0,
    ensures
        encode_utf8(s.drop_last()).len() <= encode_utf8(s).len(),
    decreases s.len(),
{
    if s.len() > 1 {
        assert(s.drop_last().drop_first() =~= s.drop_first().drop_last());
        drop_last_bytes(s.drop_first());
    }
}

/// `str::trim` of the standard library: leading and trailing characters with the `White_Space`
/// property are removed.
pub assume_specification[ str::trim ](s: &str) -> (r: &str)
    ensures
        r@ == trimmed(s@),
;

/// `==` on `str` of the standard library: two texts are equal when their characters are.
pub assume_specification[ <str as PartialEq<str>>::eq ](a: &str, b: &str) -> (r: bool)
    ensures
        r == (a@ == b@),
;

/// `String::push` of the standard library: one character is appended.
pub assume_specification[ String::push ](s: &mut String, c: char)
    ensures
        final(s)@ == old(s)@.push(c),
;

/// The text in lower case, as `str::to_lowercase` maps it.
pub uninterp spec fn lower_text(s: Seq<char>) -> Seq<char>;

/// `str::to_lowercase` of the standard library: the Unicode lower case mapping, which is a
/// function of the text alone.
#[verifier::external_body]
pub(crate) fn lowercase(s: &str) -> (r: String)
    ensures
        r@ == lower_text(s@),
{
    s.to_lowercase()
}

/// The text in upper case, as `str::to_uppercase` maps it.
pub uninterp spec fn upper_text(s: Seq<char>) -> Seq<char>;

/// `str::to_uppercase` of the standard library: the Unicode upper case mapping, which is a
/// function of the text alone.
#[verifier::external_body]
pub(crate) fn uppercase(s: &str) -> (r: String)
    ensures
        r@ == upper_text(s@),
{
    s.to_uppercase()
}

/// `part` stands somewhere in `s` as a run of adjacent characters.
pub open spec fn has_part(s: Seq<char>, part: Seq<char>) -> bool {
    exists|i: int|
        0 <= i && i + part.len() <= s.len() && #[trigger] s.subrange(i, i + part.len()) == part
}

/// `str::contains` of the standard library with a text as the pattern: whether the pattern is
/// a part of the text.
#[verifier::external_body]
pub(crate) fn contains(s: &str, part: &str) -> (r: bool)
    ensures
        r == has_part(s@, part@),
{
    s.contains(part)
}

/// Whether two texts are equal.
pub fn same(a: &str, b: &str) -> (r: bool)
    ensures
        r == (a@ == b@),
{
    a.eq(b)
}

/// The characters of a text.
pub fn chars_of(s: &str) -> (r: Vec<char>)
    ensures
        r@ == s@,
{
    let mut v: Vec<char> = Vec::new();
    for c in it: s.chars()
        invariant
            v@ == s@.take(it.index() as int),
            it.seq() == s@,
    {
        proof {
            assert(s@.take(it.index() as int + 1) =~= s@.take(it.index() as int).push(
                s@[it.index() as int],
            ));
        }
        v.push(c);
    }
    proof {
        assert(s@.take(s@.len() as int) =~= s@);
    }
    v
}

/// The text made of the characters from `from` up to but not including `to`.
pub fn text_of(chars: &Vec<char>, from: usize, to: usize) -> (r: String)
    requires
        from <= to <= chars.len(),
    ensures
        r@ == chars@.subrange(from as int, to as int),
{
    let mut s = String::new();
    let mut i: usize = from;
    while i < to
        invariant
            from <= i <= to <= chars.len(),
            s@ == chars@.subrange(from as int, i as int),
        decreases to - i,
    {
        proof {
            assert(chars@.subrange(from as int, i + 1) =~= chars@.subrange(
                from as int,
                i as int,
            ).push(chars@[i as int]));
        }
        s.push(chars[i]);
        i = i + 1;
    }
    s
}

/// Two texts in a row.
pub fn join2(a: &str, b: &str) -> (r: String)
    ensures
        r@ == a@ + b@,
{
    a.to_owned().concat(b)
}

/// Three texts in a row.
pub fn join3(a: &str, b: &str, c: &str) -> (r: String)
    ensures
        r@ == a@ + b@ + c@,
{
    a.to_owned().concat(b).concat(c)
}

/// Four texts in a row.
pub fn join4(a: &str, b: &str, c: &str, d: &str) -> (r: String)
    ensures
        r@ == a@ + b@ + c@ + d@,
{
    a.to_owned().concat(b).concat(c).concat(d)
}

/// Five texts in a row.
pub fn join5(a: &str, b: &str, c: &str, d: &str, e: &str) -> (r: String)
    ensures
        r@ == a@ + b@ + c@ + d@ + e@,
{
    a.to_owned().concat(b).concat(c).concat(d).concat(e)
}

/// One of the ten ASCII digits.
pub open spec fn is_digit(c: char) -> bool {
    '0' <= c <= '9'
}

/// The number that an ASCII digit stands for.
pub open spec fn digit_value(c: char) -> int {
    c as int - '0' as int
}

/// The ASCII digit of a number below ten.
pub open spec fn digit_char(n: int) -> char {
    (48 + n) as char
}

/// Every character is an ASCII digit.
pub open spec fn all_digits(s: Seq<char>) -> bool {
    forall|i: int| 0 <= i < s.len() ==> is_digit(#[trigger] s[i])
}

/// The number that a row of digits denotes in base ten.
pub open spec fn digits_value(s: Seq<char>) -> int
    decreases s.len(),
{
    if s.len() == 0 {
        0
    } else {
        digits_value(s.drop_last()) * 10 + digit_value(s.last())
    }
}

/// A natural number in base ten, without leading zeros.
pub open spec fn nat_text(n: int) -> Seq<char>
    decreases n,
{
    if n < 10 {
        seq![digit_char(n)]
    } else {
        nat_text(n / 10).push(digit_char(n % 10))
    }
}

/// An integer in base ten, with a minus sign where it is negative.
pub open spec fn int_text(n: int) -> Seq<char> {
    if n < 0 {
        seq!['-'] + nat_text(-n)
    } else {
        nat_text(n)
    }
}

/// The number that a text of digits, with an optional plus sign, denotes.
pub open spec fn unsigned_value(s: Seq<char>) -> Option<int> {
    let body = if s.len() > 0 && s[0] == '+' {
        s.drop_first()
    } else {
        s
    };
    if body.len() > 0 && all_digits(body) {
        Some(digits_value(body))
    } else {
        None
    }
}

/// The number that a text of digits, with an optional sign, denotes.
pub open spec fn signed_value(s: Seq<char>) -> Option<int> {
    if s.len() > 0 && s[0] == '-' {
        if s.len() > 1 && all_digits(s.drop_first()) {
            Some(-digits_value(s.drop_first()))
        } else {
            None
        }
    } else {
        unsigned_value(s)
    }
}

/// A value kept only where it lies between two bounds.
pub open spec fn bounded(v: Option<int>, lowest: int, highest: int) -> Option<int> {
    match v {
        Some(n) => if lowest <= n <= highest {
            Some(n)
        } else {
            None
        },
        None => None,
    }
}

/// The digits of a longer row denote at least what those of its front denote.
proof fn digits_value_grows(s: Seq<char>, n: int)
    requires
        0 <= n <= s.len(),
        all_digits(s),
    ensures
        0 <= digits_value(s.take(n)) <= digits_value(s),
    decreases s.len(),
{
    if n == s.len() {
        assert(s.take(n) =~= s);
        if s.len() > 0 {
            assert(s.drop_last().take(n - 1) =~= s.drop_last());
            digits_value_grows(s.drop_last(), n - 1);
        }
    } else {
        assert(s.drop_last().take(n) =~= s.take(n));
        digits_value_grows(s.drop_last(), n);
    }
}

proof fn digits_value_steps(s: Seq<char>, n: int)
    requires
        0 <= n < s.len(),
    ensures
        digits_value(s.take(n + 1)) == digits_value(s.take(n)) * 10 + digit_value(s[n]),
{
    assert(s.take(n + 1).drop_last() =~= s.take(n));
}

/// The number written from position `from` on, where it is at most `highest`.
fn parse_digits(chars: &Vec<char>, from: usize, highest: u128) -> (r: Option<u128>)
    requires
        from <= chars.len(),
        highest <= 0xffff_ffff_ffff_ffff,
    ensures
        ({
            let body = chars@.subrange(from as int, chars@.len() as int);
            r == if body.len() > 0 && all_digits(body) && digits_value(body) <= highest {
                Some(digits_value(body) as u128)
            } else {
                None::<u128>
            }
        }),
{
    let ghost body = chars@.subrange(from as int, chars@.len() as int);
    if from == chars.len() {
        return None;
    }
    let mut value: u128 = 0;
    let mut i: usize = from;
    while i < chars.len()
        invariant
            from <= i <= chars.len(),
            body == chars@.subrange(from as int, chars@.len() as int),
            all_digits(body.take(i - from)),
            value == digits_value(body.take(i - from)),
            value <= highest <= 0xffff_ffff_ffff_ffff,
        decreases chars.len() - i,
    {
        let c: char = chars[i];
        let ghost n: int = i - from;
        assert(body[n] == c);
        if c < '0' || c > '9' {
            return None;
        }
        proof {
            digits_value_steps(body, n);
            assert(body.take(n + 1) =~= body.take(n).push(c));
        }
        value = value * 10 + (c as u32 - '0' as u32) as u128;
        if value > highest {
            proof {
                if all_digits(body) {
                    digits_value_grows(body, n + 1);
                }
            }
            return None;
        }
        i = i + 1;
    }
    proof {
        assert(body.take(body.len() as int) =~= body);
    }
    Some(value)
}

/// Reads an unsigned number of at most `highest`, as the integer types of the standard library
/// read themselves from a text.
fn parse_unsigned(s: &str, highest: u64) -> (r: Option<u64>)
    ensures
        r == (match bounded(unsigned_value(s@), 0, highest as int) {
            Some(n) => Some(n as u64),
            None => None,
        }),
{
    let chars = chars_of(s);
    let from: usize = if chars.len() > 0 && chars[0] == '+' {
        1
    } else {
        0
    };
    proof {
        let body = chars@.subrange(from as int, chars@.len() as int);
        if from == 1 {
            assert(body =~= s@.drop_first());
        } else {
            assert(body =~= s@);
        }
        if all_digits(body) {
            digits_value_grows(body, 0);
        }
    }
    match parse_digits(&chars, from, highest as u128) {
        Some(n) => Some(n as u64),
        None => None,
    }
}

/// Reads a signed number between two bounds, as the integer types of the standard library
/// read themselves from a text.
fn parse_signed(s: &str, lowest: i64, highest: i64) -> (r: Option<i64>)
    requires
        lowest <= 0 <= highest,
    ensures
        r == (match bounded(signed_value(s@), lowest as int, highest as int) {
            Some(n) => Some(n as i64),
            None => None,
        }),
{
    let chars = chars_of(s);
    if chars.len() > 0 && chars[0] == '-' {
        proof {
            let body = chars@.subrange(1, chars@.len() as int);
            assert(body =~= s@.drop_first());
            if all_digits(body) {
                digits_value_grows(body, 0);
            }
        }
        match parse_digits(&chars, 1, (-(lowest as i128)) as u128) {
            Some(n) => Some((-(n as i128)) as i64),
            None => None,
        }
    } else {
        proof {
            let body = if s@.len() > 0 && s@[0] == '+' {
                s@.drop_first()
            } else {
                s@
            };
            if all_digits(body) {
                digits_value_grows(body, 0);
            }
        }
        match parse_unsigned(s, highest as u64) {
            Some(n) => Some(n as i64),
            None => None,
        }
    }
}

/// Reads an `i64`.
pub fn parse_i64(s: &str) -> (r: Option<i64>)
    ensures
        r == (match bounded(signed_value(s@), i64::MIN as int, i64::MAX as int) {
            Some(n) => Some(n as i64),
            None => None,
        }),
{
    parse_signed(s, i64::MIN, i64::MAX)
}

/// Reads an `i32`.
pub fn parse_i32(s: &str) -> (r: Option<i32>)
    ensures
        r == (match bounded(signed_value(s@), i32::MIN as int, i32::MAX as int) {
            Some(n) => Some(n as i32),
            None => None,
        }),
{
    match parse_signed(s, i32::MIN as i64, i32::MAX as i64) {
        Some(n) => Some(n as i32),
        None => None,
    }
}

/// Reads a `u64`.
pub fn parse_u64(s: &str) -> (r: Option<u64>)
    ensures
        r == (match bounded(unsigned_value(s@), 0, u64::MAX as int) {
            Some(n) => Some(n as u64),
            None => None,
        }),
{
    parse_unsigned(s, u64::MAX)
}

/// Reads a `u32`.
pub fn parse_u32(s: &str) -> (r: Option<u32>)
    ensures
        r == (match bounded(unsigned_value(s@), 0, u32::MAX as int) {
            Some(n) => Some(n as u32),
            None => None,
        }),
{
    match parse_unsigned(s, u32::MAX as u64) {
        Some(n) => Some(n as u32),
        None => None,
    }
}

/// Reads a `u16`.
pub fn parse_u16(s: &str) -> (r: Option<u16>)
    ensures
        r == (match bounded(unsigned_value(s@), 0, u16::MAX as int) {
            Some(n) => Some(n as u16),
            None => None,
        }),
{
    match parse_unsigned(s, u16::MAX as u64) {
        Some(n) => Some(n as u16),
        None => None,
    }
}

/// Appends a natural number in base ten.
pub fn push_nat(s: &mut String, n: u128)
    ensures
        final(s)@ == old(s)@ + nat_text(n as int),
    decreases n,
{
    if n >= 10 {
        push_nat(s, n / 10);
    }
    let d: u8 = 48 + (n % 10) as u8;
    s.push(d as char);
    proof {
        assert(s@ =~= old(s)@ + nat_text(n as int));
    }
}

/// A natural number in base ten.
pub fn nat_to_text(n: u128) -> (r: String)
    ensures
        r@ == nat_text(n as int),
{
    let mut s = String::new();
    push_nat(&mut s, n);
    proof {
        assert(s@ =~= nat_text(n as int));
    }
    s
}

/// An integer in base ten.
pub fn int_to_text(n: i64) -> (r: String)
    ensures
        r@ == int_text(n as int),
{
    let mut s = String::new();
    if n < 0 {
        s.push('-');
        push_nat(&mut s, (-(n as i128)) as u128);
        proof {
            assert(s@ =~= int_text(n as int));
        }
    } else {
        push_nat(&mut s, n as u128);
        proof {
            assert(s@ =~= int_text(n as int));
        }
    }
    s
}

/// Base ten notation is made of digits and denotes the number it was made of.
pub proof fn nat_text_denotes(n: int)
    requires
        n >= 0,
    ensures
        nat_text(n).len() > 0,
        all_digits(nat_text(n)),
        digits_value(nat_text(n)) == n,
    decreases n,
{
    if n < 10 {
        let s = seq![digit_char(n)];
        assert(s.drop_last() =~= Seq::<char>::empty());
        assert(digits_value(s.drop_last()) == 0);
        assert(digit_char(n) as int == 48 + n);
    } else {
        nat_text_denotes(n / 10);
        let s = nat_text(n);
        assert(s.drop_last() =~= nat_text(n / 10));
        assert(digit_char(n % 10) as int == 48 + n % 10);
    }
}

/// Reading an integer from its base ten notation gives the integer back.
pub proof fn int_text_reads_back(n: int)
    ensures
        signed_value(int_text(n)) == Some(n),
{
    if n < 0 {
        nat_text_denotes(-n);
        assert(int_text(n).drop_first() =~= nat_text(-n));
    } else {
        nat_text_denotes(n);
    }
}

/// `a` comes before `b` in the order of their characters' code points.
pub open spec fn text_before(a: Seq<char>, b: Seq<char>) -> bool
    decreases a.len(),
{
    if b.len() == 0 {
        false
    } else if a.len() == 0 {
        true
    } else if a[0] != b[0] {
        a[0] < b[0]
    } else {
        text_before(a.drop_first(), b.drop_first())
    }
}

/// Whether `a` comes before `b`.
pub fn before(a: &str, b: &str) -> (r: bool)
    ensures
        r == text_before(a@, b@),
{
    let left = chars_of(a);
    let right = chars_of(b);
    let mut i: usize = 0;
    proof {
        assert(a@.skip(0) =~= a@);
        assert(b@.skip(0) =~= b@);
    }
    while i < left.len() && i < right.len() && left[i] == right[i]
        invariant
            i <= left.len(),
            i <= right.len(),
            left@ == a@,
            right@ == b@,
            text_before(a@, b@) == text_before(a@.skip(i as int), b@.skip(i as int)),
        decreases left.len() - i,
    {
        proof {
            assert(a@.skip(i as int).drop_first() =~= a@.skip(i + 1));
            assert(b@.skip(i as int).drop_first() =~= b@.skip(i + 1));
        }
        i = i + 1;
    }
    if i >= right.len() {
        false
    } else if i >= left.len() {
        true
    } else {
        left[i] < right[i]
    }
}

/// The parts of a text between the occurrences of a separator.
pub open spec fn split_parts(s: Seq<char>, separator: char) -> Seq<Seq<char>>
    decreases s.len(),
{
    if s.len() == 0 {
        seq![Seq::empty()]
    } else {
        let front = split_parts(s.drop_last(), separator);
        if s.last() == separator {
            front.push(Seq::empty())
        } else {
            front.drop_last().push(front.last().push(s.last()))
        }
    }
}

/// The views of a list of texts.
pub open spec fn views(list: Seq<String>) -> Seq<Seq<char>> {
    Seq::new(list.len(), |i: int| list[i]@)
}

/// A text always has at least one part.
pub proof fn split_parts_nonempty(s: Seq<char>, separator: char)
    ensures
        split_parts(s, separator).len() > 0,
    decreases s.len(),
{
    if s.len() > 0 {
        split_parts_nonempty(s.drop_last(), separator);
    }
}

/// The parts of a text between the occurrences of a separator.
pub fn split(s: &str, separator: char) -> (r: Vec<String>)
    ensures
        views(r@) == split_parts(s@, separator),
        r@.len() > 0,
{
    let mut parts: Vec<String> = Vec::new();
    let mut part = String::new();
    let ghost mut seen: Seq<char> = Seq::empty();
    proof {
        assert(views(parts@).push(part@) =~= split_parts(seen, separator));
    }
    for c in it: s.chars()
        invariant
            it.seq() == s@,
            seen == s@.take(it.index() as int),
            views(parts@).push(part@) == split_parts(seen, separator),
    {
        let ghost old_parts = parts@;
        let ghost old_part = part@;
        let ghost old_seen = seen;
        proof {
            seen = seen.push(c);
            assert(seen =~= s@.take(it.index() as int + 1));
            assert(seen.drop_last() =~= old_seen);
            assert(views(old_parts).push(old_part).drop_last() =~= views(old_parts));
        }
        if c == separator {
            parts.push(part);
            part = String::new();
            proof {
                assert(views(parts@) =~= views(old_parts).push(old_part));
            }
        } else {
            part.push(c);
        }
    }
    parts.push(part);
    proof {
        assert(seen =~= s@);
        assert(views(parts@) =~= split_parts(s@, separator));
        split_parts_nonempty(s@, separator);
    }
    parts
}

/// The small hexadecimal digit of a number below sixteen.
pub open spec fn hex_char(n: int) -> char {
    if n < 10 {
        (48 + n) as char
    } else {
        (87 + n) as char
    }
}

/// Bytes in small hexadecimal digits, two for each byte.
pub open spec fn hex_text(bytes: Seq<u8>) -> Seq<char>
    decreases bytes.len(),
{
    if bytes.len() == 0 {
        Seq::empty()
    } else {
        hex_text(bytes.drop_last()).push(hex_char(bytes.last() as int / 16)).push(
            hex_char(bytes.last() as int % 16),
        )
    }
}

fn hex_digit(n: u8) -> (r: char)
    requires
        n < 16,
    ensures
        r == hex_char(n as int),
{
    if n < 10 {
        (48 + n) as char
    } else {
        (87 + n) as char
    }
}

/// Bytes in small hexadecimal digits.
pub fn hex(bytes: &[u8]) -> (r: String)
    ensures
        r@ == hex_text(bytes@),
{
    let mut s = String::new();
    let mut i: usize = 0;
    proof {
        assert(bytes@.take(0) =~= Seq::<u8>::empty());
    }
    while i < bytes.len()
        invariant
            i <= bytes.len(),
            s@ == hex_text(bytes@.take(i as int)),
        decreases bytes.len() - i,
    {
        proof {
            assert(bytes@.take(i + 1).drop_last() =~= bytes@.take(i as int));
        }
        let b: u8 = bytes[i];
        s.push(hex_digit(b / 16));
        s.push(hex_digit(b % 16));
        i = i + 1;
    }
    proof {
        assert(bytes@.take(bytes@.len() as int) =~= bytes@);
    }
    s
}

/// A character in ASCII lower case.
pub open spec fn ascii_lower(c: char) -> char {
    if 'A' <= c <= 'Z' {
        (c as u32 + 32) as char
    } else {
        c
    }
}

/// A text in ASCII lower case.
pub open spec fn ascii_lower_text(s: Seq<char>) -> Seq<char> {
    Seq::new(s.len(), |i: int| ascii_lower(s[i]))
}

/// A character in ASCII lower case.
pub fn to_ascii_lower(c: char) -> (r: char)
    ensures
        r == ascii_lower(c),
{
    if 'A' <= c && c <= 'Z' {
        (c as u8 + 32) as char
    } else {
        c
    }
}

/// Writes a text in ASCII lower case.
pub fn ascii_lowercase(s: &str) -> (r: String)
    ensures
        r@ == ascii_lower_text(s@),
{
    let mut lowered = String::new();
    proof {
        assert(lowered@ =~= ascii_lower_text(s@).take(0));
    }
    for c in it: s.chars()
        invariant
            it.seq() == s@,
            lowered@ == ascii_lower_text(s@).take(it.index() as int),
    {
        proof {
            let n = it.index() as int;
            assert(ascii_lower_text(s@).take(n + 1) =~= ascii_lower_text(s@).take(n).push(
                ascii_lower(s@[n]),
            ));
        }
        lowered.push(to_ascii_lower(c));
    }
    proof {
        assert(lowered@ =~= ascii_lower_text(s@));
    }
    lowered
}

/// Where a part first stands in a text, from a place on; -1 where it does not.
pub open spec fn first_place(s: Seq<char>, part: Seq<char>, from: int) -> int
    decreases s.len() + 1 - from,
{
    if from < 0 || from + part.len() > s.len() {
        -1
    } else if s.subrange(from, from + part.len()) == part {
        from
    } else {
        first_place(s, part, from + 1)
    }
}

fn stands_at(s: &Vec<char>, part: &Vec<char>, at: usize) -> (r: bool)
    requires
        at + part@.len() <= s@.len(),
    ensures
        r == (s@.subrange(at as int, at + part@.len()) == part@),
{
    let total: usize = s.len();
    let mut i: usize = 0;
    while i < part.len()
        invariant
            i <= part.len(),
            total == s@.len(),
            at + part@.len() <= s@.len(),
            forall|j: int| 0 <= j < i ==> s@[at + j] == #[trigger] part@[j],
        decreases part.len() - i,
    {
        if s[at + i] != part[i] {
            proof {
                assert(s@.subrange(at as int, at + part@.len())[i as int] == s@[at + i]);
            }
            return false;
        }
        i = i + 1;
    }
    proof {
        assert(s@.subrange(at as int, at + part@.len()) =~= part@);
    }
    true
}

fn text_between(chars: &Vec<char>, start: usize, end: usize) -> (r: String)
    requires
        start <= end <= chars@.len(),
    ensures
        r@ == chars@.subrange(start as int, end as int),
{
    let mut s = String::new();
    let mut i: usize = start;
    proof {
        assert(s@ =~= chars@.subrange(start as int, start as int));
    }
    while i < end
        invariant
            start <= i <= end <= chars@.len(),
            s@ == chars@.subrange(start as int, i as int),
        decreases end - i,
    {
        s.push(chars[i]);
        proof {
            assert(chars@.subrange(start as int, i + 1) =~= chars@.subrange(
                start as int,
                i as int,
            ).push(chars@[i as int]));
        }
        i = i + 1;
    }
    s
}

/// A text ends with another.
pub open spec fn has_end(s: Seq<char>, end: Seq<char>) -> bool {
    end.len() <= s.len() && s.subrange(s.len() - end.len(), s.len() as int) == end
}

/// Whether a text ends with another.
pub fn ends_with(s: &str, end: &str) -> (r: bool)
    ensures
        r == has_end(s@, end@),
{
    let chars = chars_of(s);
    let wanted = chars_of(end);
    wanted.len() <= chars.len() && stands_at(&chars, &wanted, chars.len() - wanted.len())
}

/// What stands behind a text at the front; none where the text does not stand there.
pub open spec fn behind(s: Seq<char>, front: Seq<char>) -> Option<Seq<char>> {
    if front.len() <= s.len() && s.subrange(0, front.len() as int) == front {
        Some(s.subrange(front.len() as int, s.len() as int))
    } else {
        None
    }
}

/// What stands behind a text at the front.
pub fn strip_front(s: &str, front: &str) -> (r: Option<String>)
    ensures
        match r {
            Some(rest) => behind(s@, front@) == Some(rest@),
            None => behind(s@, front@) is None,
        },
{
    let chars = chars_of(s);
    let wanted = chars_of(front);
    if wanted.len() <= chars.len() && stands_at(&chars, &wanted, 0) {
        Some(text_between(&chars, wanted.len(), chars.len()))
    } else {
        None
    }
}

/// The digits from 0 to 9 of a text.
pub open spec fn digits_of(s: Seq<char>) -> Seq<char>
    decreases s.len(),
{
    if s.len() == 0 {
        Seq::empty()
    } else if '0' <= s.last() && s.last() <= '9' {
        digits_of(s.drop_last()).push(s.last())
    } else {
        digits_of(s.drop_last())
    }
}

/// The digits from 0 to 9 of a text.
pub fn keep_digits(s: &str) -> (r: String)
    ensures
        r@ == digits_of(s@),
{
    let chars = chars_of(s);
    let mut kept = String::new();
    let mut i: usize = 0;
    proof {
        assert(chars@.take(0) =~= Seq::empty());
    }
    while i < chars.len()
        invariant
            i <= chars.len(),
            kept@ == digits_of(chars@.take(i as int)),
        decreases chars.len() - i,
    {
        proof {
            assert(chars@.take(i + 1).drop_last() =~= chars@.take(i as int));
        }
        let c = chars[i];
        if '0' <= c && c <= '9' {
            kept.push(c);
        }
        i = i + 1;
    }
    proof {
        assert(chars@.take(chars@.len() as int) =~= s@);
    }
    kept
}

/// A character in lower case, which may take several characters.
pub uninterp spec fn lower_char(c: char) -> Seq<char>;

/// `char::to_lowercase` of the standard library: a function of the character.
#[verifier::external_body]
pub(crate) fn lower_of(c: char) -> (r: String)
    ensures
        r@ == lower_char(c),
{
    c.to_lowercase().to_string()
}

} // verus!
