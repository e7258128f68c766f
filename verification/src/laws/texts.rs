//! What is kept of texts that are trimmed, cut, lowered and read as numbers.
#[allow(unused_imports)]
use crate::text;
use vstd::prelude::*;

verus! {

/// Whether a text is white space throughout.
pub open spec fn all_white(t: Seq<char>) -> bool {
    forall|i: int| 0 <= i < t.len() ==> text::white(#[trigger] t[i])
}

/// Spaces, tabs and the ends of lines are white space, and no visible character
/// of ASCII is.
pub proof fn visible_characters_are_not_white(c: char)
    ensures
        text::white(' '),
        text::white('\t'),
        text::white('\n'),
        text::white('\r'),
        '!' <= c <= '~' ==> !text::white(c),
{
}

proof fn leading_space_goes(space: Seq<char>, t: Seq<char>)
    requires
        all_white(space),
    ensures
        text::trimmed_start(space + t) == text::trimmed_start(t),
    decreases space.len(),
{
    if space.len() == 0 {
        assert(space + t =~= t);
    } else {
        let rest = space.skip(1);
        assert forall|i: int| 0 <= i < rest.len() implies text::white(#[trigger] rest[i]) by {
            assert(rest[i] == space[i + 1]);
        }
        leading_space_goes(rest, t);
        assert((space + t)[0] == space[0]);
        assert((space + t).skip(1) =~= rest + t);
    }
}

proof fn trailing_space_goes(t: Seq<char>, space: Seq<char>)
    requires
        all_white(space),
    ensures
        text::trimmed_end(t + space) == text::trimmed_end(t),
    decreases space.len(),
{
    if space.len() == 0 {
        assert(t + space =~= t);
    } else {
        let rest = space.drop_last();
        assert forall|i: int| 0 <= i < rest.len() implies text::white(#[trigger] rest[i]) by {
            assert(rest[i] == space[i]);
        }
        trailing_space_goes(t, rest);
        assert((t + space).last() == space[space.len() - 1]);
        assert((t + space).drop_last() =~= t + rest);
    }
}

/// White space around a text that begins and ends with something else is taken
/// away, and nothing else is.
pub proof fn space_around_is_trimmed(before: Seq<char>, t: Seq<char>, after: Seq<char>)
    requires
        all_white(before),
        all_white(after),
        t.len() > 0,
        !text::white(t[0]),
        !text::white(t.last()),
    ensures
        text::trimmed(before + t + after) == t,
{
    let whole = before + t + after;
    assert(whole =~= before + (t + after));
    leading_space_goes(before, t + after);
    assert((t + after)[0] == t[0]);
    trailing_space_goes(t, after);
}

/// A text that is white space throughout is trimmed to nothing.
pub proof fn space_alone_is_trimmed(t: Seq<char>)
    requires
        all_white(t),
    ensures
        text::trimmed(t).len() == 0,
{
    leading_space_goes(t, Seq::empty());
    assert(t + Seq::<char>::empty() =~= t);
}

/// Lowering a text keeps its length, makes small letters of the capital letters of
/// ASCII, and keeps every other character.
pub proof fn only_capitals_are_lowered(t: Seq<char>, i: int)
    requires
        0 <= i < t.len(),
    ensures
        text::lowered(t).len() == t.len(),
        'A' <= t[i] <= 'Z' ==> 'a' <= text::lowered(t)[i] <= 'z' && text::lowered(t)[i] as int
            - 'a' as int == t[i] as int - 'A' as int,
        !('A' <= t[i] <= 'Z') ==> text::lowered(t)[i] == t[i],
{
}

/// What stands before the first mark has no mark in it, is the beginning of the
/// text, and is followed by a mark unless it is the whole text.
pub proof fn texts_are_cut_at_the_first_mark(t: Seq<char>, mark: char)
    ensures
        ({
            let head = text::before(t, mark);
            &&& head.len() <= t.len()
            &&& head == t.take(head.len() as int)
            &&& forall|i: int| 0 <= i < head.len() ==> head[i] != mark
            &&& head.len() < t.len() ==> t[head.len() as int] == mark
        }),
    decreases t.len(),
{
    if t.len() > 0 && t[0] != mark {
        let rest = t.skip(1);
        texts_are_cut_at_the_first_mark(rest, mark);
        let head = text::before(t, mark);
        let inner = text::before(rest, mark);
        assert(head =~= t.take(head.len() as int)) by {
            assert forall|i: int| 0 <= i < head.len() implies head[i] == t[i] by {
                if i > 0 {
                    assert(inner[i - 1] == rest.take(inner.len() as int)[i - 1]);
                }
            }
        }
        if head.len() < t.len() {
            assert(t[head.len() as int] == rest[inner.len() as int]);
        }
    }
}

/// However many marks stand in front of a text that begins with another
/// character, or behind one that ends with another, they are taken away and
/// nothing else is.
pub proof fn runs_of_marks_are_taken_away(t: Seq<char>, mark: char, count: nat)
    requires
        t.len() > 0,
    ensures
        t[0] != mark ==> text::unprefixed(Seq::new(count, |i: int| mark) + t, mark) == t,
        t.last() != mark ==> text::unsuffixed(t + Seq::new(count, |i: int| mark), mark) == t,
    decreases count,
{
    let run = Seq::new(count, |i: int| mark);
    if count == 0 {
        assert(run + t =~= t);
        assert(t + run =~= t);
    } else {
        let less = Seq::new((count - 1) as nat, |i: int| mark);
        runs_of_marks_are_taken_away(t, mark, (count - 1) as nat);
        assert((run + t)[0] == mark);
        assert((run + t).skip(1) =~= less + t);
        assert((t + run).last() == mark);
        assert((t + run).drop_last() =~= t + less);
    }
}

/// A number that was written is read back, in digits alone and without a zero in
/// front, but for zero itself.
pub proof fn written_numbers_are_read_back(n: nat)
    ensures
        text::all_digits(text::decimal_text(n)),
        text::digits_value(text::decimal_text(n)) == n,
        text::unsigned_value(text::decimal_text(n)) == Some(n),
        text::signed_value(text::decimal_text(n)) == Some(n as int),
        n > 0 ==> text::decimal_text(n)[0] != '0',
    decreases n,
{
    let written = text::decimal_text(n);
    if n < 10 {
        assert(written.drop_last() =~= Seq::empty());
        assert(text::digits_value(written.drop_last()) == 0);
        assert(written.last() == text::digit_char(n));
        assert(text::is_digit(written[0]));
    } else {
        written_numbers_are_read_back(n / 10);
        let shorter = text::decimal_text(n / 10);
        assert(written.drop_last() =~= shorter);
        assert(written.last() == text::digit_char(n % 10));
        assert(written[0] == shorter[0]);
        assert forall|i: int| 0 <= i < written.len() implies text::is_digit(
            #[trigger] written[i],
        ) by {
            if i < shorter.len() {
                assert(written[i] == shorter[i]);
                assert(text::is_digit(shorter[i]));
            }
        }
        assert(text::is_digit(shorter[0]));
    }
}

/// Digits are read in base ten: one more digit makes ten times the number, and
/// the digit.
pub proof fn digits_count_in_base_ten(digits: Seq<char>, digit: char)
    requires
        '0' <= digit <= '9',
    ensures
        text::digits_value(digits.push(digit)) == text::digits_value(digits) * 10 + (digit as int
            - '0' as int),
        text::digits_value(Seq::empty()) == 0,
{
    assert(digits.push(digit).drop_last() =~= digits);
}

/// A plus sign in front of digits changes nothing, a minus sign negates, and
/// anything that is not a digit is no number.
pub proof fn numbers_have_signs(digits: Seq<char>, at: int)
    ensures
        text::all_digits(digits) ==> text::unsigned_value(digits) == Some(
            text::digits_value(digits),
        ) && text::unsigned_value(seq!['+'] + digits) == Some(text::digits_value(digits))
            && text::unsigned_value(seq!['-'] + digits) is None && text::signed_value(
            seq!['-'] + digits,
        ) == Some(0 - text::digits_value(digits)),
        0 < at < digits.len() && !('0' <= digits[at] <= '9') ==> text::unsigned_value(
            digits,
        ) is None && text::signed_value(digits) is None,
        text::unsigned_value(Seq::empty()) is None,
{
    let plus = seq!['+'] + digits;
    let minus = seq!['-'] + digits;
    assert(plus.skip(1) =~= digits);
    assert(minus.skip(1) =~= digits);
    assert(plus[0] == '+');
    assert(minus[0] == '-');
    if text::all_digits(digits) {
        assert(text::is_digit(digits[0]));
        assert(!text::is_digit(minus[0]));
    }
    if 0 < at < digits.len() && !('0' <= digits[at] <= '9') {
        assert(!text::is_digit(digits[at]));
        assert(digits.skip(1)[at - 1] == digits[at]);
    }
}

/// A text begins with whatever it was put together from first, and ends with
/// whatever came last; one that begins with a text is that text and a rest.
pub proof fn texts_begin_and_end(a: Seq<char>, b: Seq<char>, t: Seq<char>)
    ensures
        text::begins(a + b, a),
        text::ends(a + b, b),
        text::begins(t, a) ==> t == a + t.skip(a.len() as int),
        text::ends(t, b) ==> t == t.take(t.len() - b.len()) + b,
{
    assert((a + b).subrange(0, a.len() as int) =~= a);
    assert((a + b).subrange(a.len() as int, (a + b).len() as int) =~= b);
    if text::begins(t, a) {
        assert(t =~= t.subrange(0, a.len() as int) + t.skip(a.len() as int));
    }
    if text::ends(t, b) {
        assert(t =~= t.take(t.len() - b.len()) + t.subrange(
            t.len() - b.len(),
            t.len() as int,
        ));
    }
}

/// White space is what Unicode counts as such: the controls from the tab to the
/// carriage return, the space, the next line, the no-break space and the spaces
/// and separators of other scripts.
pub proof fn white_space_is_that_of_unicode(c: char)
    ensures
        text::white(c) <==> {
            ||| '\u{9}' <= c <= '\u{d}'
            ||| c == ' '
            ||| c == '\u{85}'
            ||| c == '\u{a0}'
            ||| c == '\u{1680}'
            ||| '\u{2000}' <= c <= '\u{200a}'
            ||| c == '\u{2028}'
            ||| c == '\u{2029}'
            ||| c == '\u{202f}'
            ||| c == '\u{205f}'
            ||| c == '\u{3000}'
        },
{
}

} // verus!
