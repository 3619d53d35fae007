//! How texts are read: where something stands in them, their lines and their numbers.
use crate::laws::lines::lemma_find_newline;
use crate::text::{
    all_digits, before_first, decimal, digit, find_from, has_infix, has_prefix, is_blank, is_digit,
    is_white_space, lemma_decimal_reads_back, lemma_find_from, lines_of, occurs_at, replaced_all,
    unsigned, value_of,
};
use vstd::prelude::*;

verus! {

// ---------------------------------------------------------------------------
// Searching
// ---------------------------------------------------------------------------

/// A text stands where it was put, and what begins a text is its prefix.
pub proof fn what_was_put_in_stands_there(a: Seq<char>, p: Seq<char>, b: Seq<char>)
    ensures
        occurs_at(a + p + b, p, a.len() as int),
        has_infix(a + p + b, p),
        has_prefix(p + b, p),
{
    let s = a + p + b;
    assert(s.subrange(a.len() as int, (a.len() + p.len()) as int) =~= p);
    assert(occurs_at(s, p, a.len() as int));
    assert((p + b).subrange(0, p.len() as int) =~= p);
}

/// Where a text is found, the text around it can be put together from what stands before it, the
/// text and what stands behind it.
pub proof fn what_is_found_was_there(s: Seq<char>, p: Seq<char>, i: int)
    ensures
        occurs_at(s, p, i) ==> 0 <= i <= s.len() - p.len() && s == s.take(i) + p + s.skip(
            i + p.len(),
        ),
        has_prefix(s, p) ==> p.len() <= s.len() && s == p + s.skip(p.len() as int),
        has_infix(s, p) ==> exists|k: int|
            0 <= k <= s.len() - p.len() && s == #[trigger] s.take(k) + p + s.skip(k + p.len()),
{
    if occurs_at(s, p, i) {
        assert(s =~= s.take(i) + s.subrange(i, i + p.len()) + s.skip(i + p.len()));
    }
    if has_prefix(s, p) {
        assert(s =~= s.subrange(0, p.len() as int) + s.skip(p.len() as int));
    }
    if has_infix(s, p) {
        let k = choose|k: int| occurs_at(s, p, k);
        assert(s =~= s.take(k) + s.subrange(k, k + p.len()) + s.skip(k + p.len()));
        assert(s == s.take(k) + p + s.skip(k + p.len()));
    }
}

/// What stands before the first `p`: the text is that and `p` and the rest, and `p` does not
/// stand earlier; or `p` stands nowhere, and then it is the whole text.
pub proof fn a_text_is_cut_at_the_first_mark(s: Seq<char>, p: Seq<char>)
    ensures
        ({
            let head = before_first(s, p);
            if has_infix(s, p) {
                &&& s == head + p + s.skip((head.len() + p.len()) as int)
                &&& forall|i: int| 0 <= i < head.len() ==> !#[trigger] occurs_at(s, p, i)
            } else {
                head == s
            }
        }),
{
    lemma_find_from(s, p, 0);
    match find_from(s, p, 0) {
        Some(k) => {
            assert(s =~= s.take(k) + s.subrange(k, k + p.len()) + s.skip(k + p.len()));
            assert(occurs_at(s, p, k));
        },
        None => {
            assert forall|i: int| !occurs_at(s, p, i) by {
                if 0 <= i {
                    assert(!occurs_at(s, p, i));
                }
            }
        },
    }
}

// ---------------------------------------------------------------------------
// White space
// ---------------------------------------------------------------------------

/// A text is blank if and only if its parts are; one character is blank if and only if it is
/// white space, and the empty text is blank.
pub proof fn blank_texts_have_blank_parts(a: Seq<char>, b: Seq<char>, c: char)
    ensures
        is_blank(a + b) <==> is_blank(a) && is_blank(b),
        is_blank(seq![c]) <==> is_white_space(c),
        is_blank(Seq::empty()),
{
    if is_blank(a + b) {
        assert forall|i: int| 0 <= i < a.len() implies is_white_space(#[trigger] a[i]) by {
            assert((a + b)[i] == a[i]);
        }
        assert forall|i: int| 0 <= i < b.len() implies is_white_space(#[trigger] b[i]) by {
            assert((a + b)[a.len() + i] == b[i]);
        }
    }
    if is_blank(seq![c]) {
        assert(is_white_space(seq![c][0]));
    }
}

/// Among the ASCII characters, the space and the characters from the tab to the carriage return
/// are white space, and no others.
pub proof fn white_space_among_ascii(c: char)
    requires
        c <= '\u{7f}',
    ensures
        is_white_space(c) <==> c == ' ' || c == '\t' || c == '\n' || c == '\u{b}' || c == '\u{c}'
            || c == '\r',
{
}

// ---------------------------------------------------------------------------
// Lines
// ---------------------------------------------------------------------------

/// A line feed ends a line; a carriage return right before it does not belong to the line. What
/// follows has the lines that it has by itself. A text without a line feed is one line as it
/// stands, and the empty text has no line.
pub proof fn a_line_feed_ends_a_line(line: Seq<char>, rest: Seq<char>)
    requires
        !line.contains('\n'),
    ensures
        lines_of(line + seq!['\n'] + rest) == seq![
            if line.len() > 0 && line.last() == '\r' {
                line.drop_last()
            } else {
                line
            },
        ] + lines_of(rest),
        line.len() > 0 ==> lines_of(line) == seq![line],
        lines_of(Seq::empty()) == Seq::<Seq<char>>::empty(),
{
    let s = line + seq!['\n'] + rest;
    lemma_find_newline(s);
    lemma_find_newline(line);
    assert(s[line.len() as int] == '\n');
    assert(s.contains('\n'));
    let k = find_from(s, seq!['\n'], 0)->0;
    if k < line.len() {
        assert(line[k] == s[k]);
        assert(line.contains(line[k]));
    }
    assert(k == line.len());
    assert(s.take(k) =~= line);
    assert(s.skip(k + 1) =~= rest);
    if find_from(line, seq!['\n'], 0) is Some {
        assert(line.contains('\n'));
    }
}

// ---------------------------------------------------------------------------
// Replacing
// ---------------------------------------------------------------------------

/// Where a text stands for the first time it gives way to the other, and the rest is gone
/// through in the same way. Where it does not stand nothing changes.
pub proof fn each_occurrence_gives_way(a: Seq<char>, from: Seq<char>, to: Seq<char>, b: Seq<char>)
    requires
        from.len() > 0,
        forall|i: int| 0 <= i < a.len() ==> !#[trigger] occurs_at(a + from + b, from, i),
    ensures
        replaced_all(a + from + b, from, to) == a + to + replaced_all(b, from, to),
        !has_infix(b, from) ==> replaced_all(b, from, to) == b,
{
    let s = a + from + b;
    what_was_put_in_stands_there(a, from, b);
    lemma_find_from(s, from, 0);
    let k = find_from(s, from, 0)->0;
    if k < a.len() {
        assert(occurs_at(s, from, k));
    }
    assert(k == a.len());
    assert(s.take(k) =~= a);
    assert(s.skip(k + from.len()) =~= b);
    lemma_find_from(b, from, 0);
    if find_from(b, from, 0) is Some {
        assert(occurs_at(b, from, find_from(b, from, 0)->0));
    }
}

/// The empty text stands before each character and behind the last one, and gives way at each of
/// these places.
pub proof fn the_empty_text_stands_everywhere(c: char, s: Seq<char>, to: Seq<char>)
    ensures
        replaced_all(Seq::empty(), Seq::empty(), to) == to,
        replaced_all(seq![c] + s, Seq::empty(), to) == to + seq![c] + replaced_all(
            s,
            Seq::empty(),
            to,
        ),
{
    assert((seq![c] + s).skip(1) =~= s);
}

// ---------------------------------------------------------------------------
// Numbers
// ---------------------------------------------------------------------------

/// Decimal notation is digit by digit: a number below ten is its digit, and ten times a number
/// and a digit more has that digit at the end. What it stands for follows the same way.
pub proof fn decimal_notation_is_positional(n: nat, d: nat)
    requires
        d < 10,
    ensures
        digit(d) == seq!['0', '1', '2', '3', '4', '5', '6', '7', '8', '9'][d as int],
        decimal(d) == seq![seq!['0', '1', '2', '3', '4', '5', '6', '7', '8', '9'][d as int]],
        n > 0 ==> decimal(10 * n + d) == decimal(n).push(
            seq!['0', '1', '2', '3', '4', '5', '6', '7', '8', '9'][d as int],
        ),
        unsigned(decimal(n)) == Some(n),
{
    lemma_decimal_reads_back(n);
    assert(digit(d) == seq!['0', '1', '2', '3', '4', '5', '6', '7', '8', '9'][d as int]) by {
        assert(d == 0 || d == 1 || d == 2 || d == 3 || d == 4 || d == 5 || d == 6 || d == 7 || d
            == 8 || d == 9);
    }
    assert(decimal(d) =~= seq![digit(d)]);
    if n > 0 {
        let m = 10 * n + d;
        assert(m / 10 == n);
        assert(m % 10 == d);
    }
}

/// A number is read from digits with or without a plus sign before them, and from nothing else.
/// Leading zeros count nothing, and a digit at the end counts ten times what is before it.
pub proof fn numbers_are_read_digit_by_digit(s: Seq<char>, d: nat)
    requires
        d < 10,
    ensures
        unsigned(s) is Some ==> unsigned(s.push(digit(d))) == Some(10 * unsigned(s)->0 + d),
        unsigned(seq![digit(d)]) == Some(d),
        s.len() > 0 && s[0] != '+' ==> unsigned(seq!['+'] + s) == unsigned(s),
        unsigned(Seq::empty()) is None,
        unsigned(seq!['+']) is None,
        (exists|i: int|
            0 <= i < s.len() && !('0' <= #[trigger] s[i] <= '9') && (i > 0 || s[i] != '+'))
            ==> unsigned(s) is None,
{
    reveal_with_fuel(value_of, 2);
    let one = seq![digit(d)];
    assert(one.drop_last() =~= Seq::<char>::empty());
    assert(all_digits(one));
    assert(one[0] != '+');
    if unsigned(s) is Some {
        let longer = s.push(digit(d));
        let plus = s[0] == '+';
        let digits = if plus {
            s.skip(1)
        } else {
            s
        };
        let more = if plus {
            longer.skip(1)
        } else {
            longer
        };
        assert(longer[0] == s[0]);
        assert(more =~= digits.push(digit(d)));
        assert(more.drop_last() =~= digits);
        assert forall|i: int| 0 <= i < more.len() implies is_digit(#[trigger] more[i]) by {
            if i < digits.len() {
                assert(more[i] == digits[i]);
            }
        }
    }
    assert((seq!['+'] + s).skip(1) =~= s);
    assert(seq!['+'].skip(1) =~= Seq::<char>::empty());
    if exists|i: int|
        0 <= i < s.len() && !('0' <= #[trigger] s[i] <= '9') && (i > 0 || s[i] != '+') {
        let i = choose|i: int|
            0 <= i < s.len() && !('0' <= #[trigger] s[i] <= '9') && (i > 0 || s[i] != '+');
        if s[0] == '+' {
            assert(s.skip(1)[i - 1] == s[i]);
            assert(!is_digit(s.skip(1)[i - 1]));
        } else {
            assert(!is_digit(s[i]));
        }
    }
}

} // verus!
