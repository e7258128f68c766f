//! Strings as sequences of characters: comparison, trimming, splitting,
//! decimal numbers and concatenation.
use vstd::prelude::*;

verus! {

broadcast use vstd::string::group_string_axioms;

/// What a row of strings holds.
pub open spec fn strings_view(strings: Seq<String>) -> Seq<Seq<char>> {
    strings.map_values(|string: String| string@)
}

/// Whether `text` begins with `prefix`.
pub open spec fn begins(text: Seq<char>, prefix: Seq<char>) -> bool {
    prefix.len() <= text.len() && text.subrange(0, prefix.len() as int) == prefix
}

/// Whether `text` ends with `suffix`.
pub open spec fn ends(text: Seq<char>, suffix: Seq<char>) -> bool {
    suffix.len() <= text.len() && text.subrange(
        text.len() - suffix.len(),
        text.len() as int,
    ) == suffix
}

/// Whether `at` is the position of the first `mark` in `text`.
pub open spec fn first_at(text: Seq<char>, mark: char, at: int) -> bool {
    &&& 0 <= at < text.len()
    &&& text[at] == mark
    &&& forall|j: int| 0 <= j < at ==> text[j] != mark
}

/// The part of `text` before the first `mark`, or all of it.
pub open spec fn before(text: Seq<char>, mark: char) -> Seq<char>
    decreases text.len(),
{
    if text.len() == 0 || text[0] == mark {
        Seq::empty()
    } else {
        seq![text[0]] + before(text.skip(1), mark)
    }
}

/// The characters with the Unicode property `White_Space`.
pub open spec fn white(c: char) -> bool {
    let n = c as u32;
    ||| 0x09 <= n <= 0x0d
    ||| n == 0x20
    ||| n == 0x85
    ||| n == 0xa0
    ||| n == 0x1680
    ||| 0x2000 <= n <= 0x200a
    ||| n == 0x2028
    ||| n == 0x2029
    ||| n == 0x202f
    ||| n == 0x205f
    ||| n == 0x3000
}

/// `text` without leading white space.
pub open spec fn trimmed_start(text: Seq<char>) -> Seq<char>
    decreases text.len(),
{
    if text.len() > 0 && white(text[0]) {
        trimmed_start(text.skip(1))
    } else {
        text
    }
}

/// `text` without trailing white space.
pub open spec fn trimmed_end(text: Seq<char>) -> Seq<char>
    decreases text.len(),
{
    if text.len() > 0 && white(text.last()) {
        trimmed_end(text.drop_last())
    } else {
        text
    }
}

/// `text` without leading and trailing white space.
pub open spec fn trimmed(text: Seq<char>) -> Seq<char> {
    trimmed_end(trimmed_start(text))
}

/// `text` without its leading run of `mark`.
pub open spec fn unprefixed(text: Seq<char>, mark: char) -> Seq<char>
    decreases text.len(),
{
    if text.len() > 0 && text[0] == mark {
        unprefixed(text.skip(1), mark)
    } else {
        text
    }
}

/// `text` without its trailing run of `mark`.
pub open spec fn unsuffixed(text: Seq<char>, mark: char) -> Seq<char>
    decreases text.len(),
{
    if text.len() > 0 && text.last() == mark {
        unsuffixed(text.drop_last(), mark)
    } else {
        text
    }
}

/// The ASCII lower-case form of a character.
pub open spec fn lower(c: char) -> char {
    if 'A' <= c <= 'Z' {
        ((c as u32 + 32) as u32) as char
    } else {
        c
    }
}

/// The ASCII lower-case form of `text`.
pub open spec fn lowered(text: Seq<char>) -> Seq<char> {
    text.map_values(|c: char| lower(c))
}

/// Whether `c` is an ASCII digit.
pub open spec fn is_digit(c: char) -> bool {
    '0' <= c <= '9'
}

/// The value of an ASCII digit.
pub open spec fn digit_value(c: char) -> nat {
    (c as u32 - '0' as u32) as nat
}

/// Whether `text` is made of ASCII digits alone, with at least one.
pub open spec fn all_digits(text: Seq<char>) -> bool {
    text.len() > 0 && forall|i: int| 0 <= i < text.len() ==> is_digit(#[trigger] text[i])
}

/// The number that a row of digits writes in base ten.
pub open spec fn digits_value(text: Seq<char>) -> nat
    decreases text.len(),
{
    if text.len() == 0 {
        0
    } else {
        digits_value(text.drop_last()) * 10 + digit_value(text.last())
    }
}

/// The number that `text` writes: digits, after an optional plus sign.
pub open spec fn unsigned_value(text: Seq<char>) -> Option<nat> {
    let digits = if text.len() > 0 && text[0] == '+' {
        text.skip(1)
    } else {
        text
    };
    if all_digits(digits) {
        Some(digits_value(digits))
    } else {
        None
    }
}

/// The number that `text` writes: digits, after an optional sign.
pub open spec fn signed_value(text: Seq<char>) -> Option<int> {
    if text.len() > 0 && text[0] == '-' {
        if all_digits(text.skip(1)) {
            Some(-(digits_value(text.skip(1)) as int))
        } else {
            None
        }
    } else {
        match unsigned_value(text) {
            Some(n) => Some(n as int),
            None => None,
        }
    }
}

/// The digit that writes a number below ten.
pub open spec fn digit_char(n: nat) -> char {
    (('0' as u32 + n) as u32) as char
}

/// A number written in base ten, without leading zeros.
pub open spec fn decimal_text(n: nat) -> Seq<char>
    decreases n,
{
    if n < 10 {
        seq![digit_char(n)]
    } else {
        decimal_text(n / 10).push(digit_char(n % 10))
    }
}

/// The characters of `text`, in order.
pub fn chars_of(text: &str) -> (r: Vec<char>)
    ensures
        r@ == text@,
{
    let mut r: Vec<char> = Vec::new();
    for c in it: text.chars()
        invariant
            r@ == it.seq().take(it.index() as int),
            it.seq() == text@,
    {
        proof {
            assert(it.seq().take(it.index() as int).push(c) =~= it.seq().take(it.index() + 1));
        }
        r.push(c);
    }
    proof {
        assert(text@.take(text@.len() as int) =~= text@);
    }
    r
}

/// Whether two texts are the same.
pub fn same(a: &str, b: &str) -> (r: bool)
    ensures
        r == (a@ == b@),
{
    a.to_owned() == b.to_owned()
}

/// Whether `text` begins with `prefix`.
pub fn starts_with(text: &str, prefix: &str) -> (r: bool)
    ensures
        r == begins(text@, prefix@),
{
    let t = chars_of(text);
    let p = chars_of(prefix);
    if p.len() > t.len() {
        return false;
    }
    let mut i: usize = 0;
    while i < p.len()
        invariant
            t@ == text@,
            p@ == prefix@,
            i <= p.len() <= t.len(),
            forall|j: int| 0 <= j < i ==> t@[j] == p@[j],
        decreases p.len() - i,
    {
        if t[i] != p[i] {
            proof {
                assert(text@.subrange(0, prefix@.len() as int)[i as int] == t@[i as int]);
            }
            return false;
        }
        i += 1;
    }
    proof {
        assert(text@.subrange(0, prefix@.len() as int) =~= prefix@);
    }
    true
}

/// Whether `text` ends with `suffix`.
pub fn ends_with(text: &str, suffix: &str) -> (r: bool)
    ensures
        r == ends(text@, suffix@),
{
    let n = text.unicode_len();
    let k = suffix.unicode_len();
    if k > n {
        return false;
    }
    same(text.substring_char(n - k, n), suffix)
}

/// What follows `prefix` in `text`, where `text` begins with it.
pub fn strip_prefix<'a>(text: &'a str, prefix: &str) -> (r: Option<&'a str>)
    ensures
        r is Some <==> begins(text@, prefix@),
        r matches Some(rest) ==> rest@ == text@.skip(prefix@.len() as int),
{
    if starts_with(text, prefix) {
        let k = prefix.unicode_len();
        let n = text.unicode_len();
        proof {
            assert(text@.subrange(k as int, n as int) =~= text@.skip(k as int));
        }
        Some(text.substring_char(k, n))
    } else {
        None
    }
}

/// What precedes `suffix` in `text`, where `text` ends with it.
pub fn strip_suffix<'a>(text: &'a str, suffix: &str) -> (r: Option<&'a str>)
    ensures
        r is Some <==> ends(text@, suffix@),
        r matches Some(rest) ==> rest@ == text@.take(text@.len() - suffix@.len()),
{
    if ends_with(text, suffix) {
        let k = suffix.unicode_len();
        let n = text.unicode_len();
        proof {
            assert(text@.subrange(0, n - k) =~= text@.take(n - k));
        }
        Some(text.substring_char(0, n - k))
    } else {
        None
    }
}

/// Splits `text` around its first `mark`.
pub fn split_once<'a>(text: &'a str, mark: char) -> (r: Option<(&'a str, &'a str)>)
    ensures
        r is Some <==> text@.contains(mark),
        r matches Some((head, tail)) ==> first_at(text@, mark, head@.len() as int) && head@
            == before(text@, mark) && tail@ == text@.skip(head@.len() as int + 1),
{
    let t = chars_of(text);
    let mut i: usize = 0;
    while i < t.len()
        invariant
            t@ == text@,
            i <= t.len(),
            forall|j: int| 0 <= j < i ==> t@[j] != mark,
        decreases t.len() - i,
    {
        if t[i] == mark {
            let n = text.unicode_len();
            let head = text.substring_char(0, i);
            let tail = text.substring_char(i + 1, n);
            proof {
                assert(text@.contains(text@[i as int]));
                before_is_take(text@, mark, i as int);
                assert(head@ =~= text@.take(i as int));
                assert(tail@ =~= text@.skip(i + 1));
            }
            return Some((head, tail));
        }
        i += 1;
    }
    None
}

/// What stands before the first mark ends there.
pub proof fn before_is_take(text: Seq<char>, mark: char, at: int)
    requires
        0 <= at <= text.len(),
        forall|j: int| 0 <= j < at ==> text[j] != mark,
        at == text.len() || text[at] == mark,
    ensures
        before(text, mark) == text.take(at),
    decreases at,
{
    if at == 0 {
        assert(text.take(0) =~= Seq::empty());
    } else {
        let rest = text.skip(1);
        assert forall|j: int| 0 <= j < at - 1 implies rest[j] != mark by {
            assert(rest[j] == text[j + 1]);
        }
        before_is_take(rest, mark, at - 1);
        assert(text.take(at) =~= seq![text[0]] + rest.take(at - 1));
    }
}

/// The part of `text` before the first `mark`, or all of it.
pub fn up_to<'a>(text: &'a str, mark: char) -> (r: &'a str)
    ensures
        r@ == before(text@, mark),
{
    match split_once(text, mark) {
        Some((head, _)) => head,
        None => {
            proof {
                assert forall|j: int| 0 <= j < text@.len() implies text@[j] != mark by {
                    if text@[j] == mark {
                        assert(text@.contains(mark));
                    }
                }
                before_is_take(text@, mark, text@.len() as int);
                assert(text@.take(text@.len() as int) =~= text@);
            }
            text
        },
    }
}

/// Whether `c` is white space.
pub fn is_white(c: char) -> (r: bool)
    ensures
        r == white(c),
{
    let n: u32 = c as u32;
    (0x09 <= n && n <= 0x0d) || n == 0x20 || n == 0x85 || n == 0xa0 || n == 0x1680 || (0x2000 <= n
        && n <= 0x200a) || n == 0x2028 || n == 0x2029 || n == 0x202f || n == 0x205f || n == 0x3000
}

/// `text` without leading and trailing white space.
pub fn trim<'a>(text: &'a str) -> (r: &'a str)
    ensures
        r@ == trimmed(text@),
{
    let t = chars_of(text);
    let mut from: usize = 0;
    proof {
        assert(text@.skip(0) =~= text@);
    }
    while from < t.len() && is_white(t[from])
        invariant
            t@ == text@,
            from <= t.len(),
            trimmed_start(text@) == trimmed_start(text@.skip(from as int)),
        decreases t.len() - from,
    {
        proof {
            assert(text@.skip(from as int).skip(1) =~= text@.skip(from + 1));
        }
        from += 1;
    }
    let mut to: usize = t.len();
    let ghost body = text@.skip(from as int);
    proof {
        assert(text@.subrange(from as int, to as int) =~= body);
    }
    while to > from && is_white(t[to - 1])
        invariant
            t@ == text@,
            from <= to <= t.len(),
            trimmed_end(body) == trimmed_end(text@.subrange(from as int, to as int)),
        decreases to,
    {
        proof {
            assert(text@.subrange(from as int, to as int).drop_last() =~= text@.subrange(
                from as int,
                to - 1,
            ));
        }
        to -= 1;
    }
    text.substring_char(from, to)
}

/// `text` without its leading run of `mark`.
pub fn trim_leading<'a>(text: &'a str, mark: char) -> (r: &'a str)
    ensures
        r@ == unprefixed(text@, mark),
{
    let t = chars_of(text);
    let mut from: usize = 0;
    proof {
        assert(text@.skip(0) =~= text@);
    }
    while from < t.len() && t[from] == mark
        invariant
            t@ == text@,
            from <= t.len(),
            unprefixed(text@, mark) == unprefixed(text@.skip(from as int), mark),
        decreases t.len() - from,
    {
        proof {
            assert(text@.skip(from as int).skip(1) =~= text@.skip(from + 1));
        }
        from += 1;
    }
    let n = t.len();
    proof {
        assert(text@.subrange(from as int, n as int) =~= text@.skip(from as int));
    }
    text.substring_char(from, n)
}

/// `text` without its trailing run of `mark`.
pub fn trim_trailing<'a>(text: &'a str, mark: char) -> (r: &'a str)
    ensures
        r@ == unsuffixed(text@, mark),
{
    let t = chars_of(text);
    let mut to: usize = t.len();
    proof {
        assert(text@.subrange(0, to as int) =~= text@);
    }
    while to > 0 && t[to - 1] == mark
        invariant
            t@ == text@,
            to <= t.len(),
            unsuffixed(text@, mark) == unsuffixed(text@.subrange(0, to as int), mark),
        decreases to,
    {
        proof {
            assert(text@.subrange(0, to as int).drop_last() =~= text@.subrange(0, to - 1));
        }
        to -= 1;
    }
    text.substring_char(0, to)
}

/// The ASCII lower-case form of a character.
pub fn to_lower(c: char) -> (r: char)
    ensures
        r == lower(c),
{
    if 'A' <= c && c <= 'Z' {
        let n: u8 = c as u8 + 32;
        n as char
    } else {
        c
    }
}

/// The characters of `text` in ASCII lower case.
pub fn lower_chars(text: &str) -> (r: Vec<char>)
    ensures
        r@ == lowered(text@),
{
    let t = chars_of(text);
    let mut r: Vec<char> = Vec::new();
    let mut i: usize = 0;
    while i < t.len()
        invariant
            t@ == text@,
            i <= t.len(),
            r@ == lowered(t@.take(i as int)),
        decreases t.len() - i,
    {
        r.push(to_lower(t[i]));
        i += 1;
        proof {
            assert(lowered(t@.take(i as int)) =~= lowered(t@.take(i - 1)).push(lower(t@[i - 1])));
        }
    }
    proof {
        assert(t@.take(t@.len() as int) =~= t@);
    }
    r
}

/// Whether two rows of characters are the same.
pub fn same_chars(a: &Vec<char>, b: &Vec<char>) -> (r: bool)
    ensures
        r == (a@ == b@),
{
    if a.len() != b.len() {
        return false;
    }
    let mut i: usize = 0;
    while i < a.len()
        invariant
            a.len() == b.len(),
            i <= a.len(),
            forall|j: int| 0 <= j < i ==> a@[j] == b@[j],
        decreases a.len() - i,
    {
        if a[i] != b[i] {
            return false;
        }
        i += 1;
    }
    proof {
        assert(a@ =~= b@);
    }
    true
}

/// Whether two texts are the same but for the case of ASCII letters.
pub fn same_ignoring_case(a: &str, b: &str) -> (r: bool)
    ensures
        r == (lowered(a@) == lowered(b@)),
{
    same_chars(&lower_chars(a), &lower_chars(b))
}

proof fn digits_value_grows(text: Seq<char>, from: int)
    requires
        0 <= from <= text.len(),
    ensures
        digits_value(text.take(from)) <= digits_value(text),
    decreases text.len() - from,
{
    if from == text.len() {
        assert(text.take(from) =~= text);
    } else {
        digits_value_grows(text, from + 1);
        let longer = text.take(from + 1);
        assert(longer.drop_last() =~= text.take(from));
        assert(digits_value(longer) == digits_value(longer.drop_last()) * 10 + digit_value(
            longer.last(),
        ));
    }
}

/// Reads digits in base ten, from `from` on, up to `max`.
fn parse_digits(t: &Vec<char>, from: usize, max: u64) -> (r: Option<u64>)
    requires
        from <= t.len(),
    ensures
        r is Some <==> all_digits(t@.skip(from as int)) && digits_value(t@.skip(from as int)) <= max,
        r matches Some(n) ==> n == digits_value(t@.skip(from as int)),
{
    let ghost digits = t@.skip(from as int);
    if from == t.len() {
        return None;
    }
    let mut value: u64 = 0;
    let mut i: usize = from;
    while i < t.len()
        invariant
            from <= i <= t.len(),
            from < t.len(),
            digits == t@.skip(from as int),
            forall|j: int| 0 <= j < i - from ==> is_digit(#[trigger] digits[j]),
            value == digits_value(digits.take(i - from)),
            value <= max,
        decreases t.len() - i,
    {
        let c = t[i];
        if !('0' <= c && c <= '9') {
            proof {
                assert(digits[i - from] == c);
            }
            return None;
        }
        let d: u64 = (c as u32 - '0' as u32) as u64;
        proof {
            let longer = digits.take(i - from + 1);
            assert(longer.drop_last() =~= digits.take(i - from));
            assert(longer.last() == c);
            assert(digits_value(longer) == value * 10 + d);
            digits_value_grows(digits, i - from + 1);
        }
        if value > max / 10 || d > max - value * 10 {
            return None;
        }
        value = value * 10 + d;
        i += 1;
    }
    proof {
        assert(digits.take(digits.len() as int) =~= digits);
    }
    Some(value)
}

/// Reads an unsigned number of at most `max`.
pub fn parse_unsigned(text: &str, max: u64) -> (r: Option<u64>)
    ensures
        r is Some <==> (unsigned_value(text@) matches Some(n) && n <= max),
        r matches Some(n) ==> unsigned_value(text@) == Some(n as nat),
{
    let t = chars_of(text);
    proof {
        assert(text@.skip(0) =~= text@);
    }
    if t.len() > 0 && t[0] == '+' {
        parse_digits(&t, 1, max)
    } else {
        parse_digits(&t, 0, max)
    }
}

/// Reads a number that fits 32 signed bits.
pub fn parse_i32(text: &str) -> (r: Option<i32>)
    ensures
        r is Some <==> (signed_value(text@) matches Some(n) && i32::MIN <= n <= i32::MAX),
        r matches Some(n) ==> signed_value(text@) == Some(n as int),
{
    let t = chars_of(text);
    if t.len() > 0 && t[0] == '-' {
        match parse_digits(&t, 1, 0x8000_0000) {
            Some(n) => {
                let negated: i64 = -(n as i64);
                Some(negated as i32)
            },
            None => None,
        }
    } else {
        match parse_unsigned(text, 0x7fff_ffff) {
            Some(n) => Some(n as i32),
            None => None,
        }
    }
}

/// The text of one decimal digit.
fn digit_text(n: u64) -> (r: &'static str)
    requires
        n < 10,
    ensures
        r@ == seq![digit_char(n as nat)],
{
    proof {
        reveal_strlit("0");
        reveal_strlit("1");
        reveal_strlit("2");
        reveal_strlit("3");
        reveal_strlit("4");
        reveal_strlit("5");
        reveal_strlit("6");
        reveal_strlit("7");
        reveal_strlit("8");
        reveal_strlit("9");
    }
    let r: &'static str = match n {
        0 => "0",
        1 => "1",
        2 => "2",
        3 => "3",
        4 => "4",
        5 => "5",
        6 => "6",
        7 => "7",
        8 => "8",
        _ => "9",
    };
    proof {
        assert(r@ =~= seq![digit_char(n as nat)]);
    }
    r
}

/// A number in base ten.
pub fn decimal(n: u64) -> (r: String)
    ensures
        r@ == decimal_text(n as nat),
    decreases n,
{
    if n < 10 {
        digit_text(n).to_owned()
    } else {
        let mut r = decimal(n / 10);
        r.append(digit_text(n % 10));
        proof {
            assert(r@ =~= decimal_text(n as nat));
        }
        r
    }
}

/// Two texts in a row.
pub fn join2(a: &str, b: &str) -> (r: String)
    ensures
        r@ == a@ + b@,
{
    let mut r = a.to_owned();
    r.append(b);
    r
}

/// Three texts in a row.
pub fn join3(a: &str, b: &str, c: &str) -> (r: String)
    ensures
        r@ == a@ + b@ + c@,
{
    let mut r = a.to_owned();
    r.append(b);
    r.append(c);
    r
}

} // verus!
