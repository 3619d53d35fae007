//! Lines in a text.
use crate::text::{find_from, lemma_find_from, lines_of, occurs_at, without_cr};
use vstd::prelude::*;

verus! {

/// No line feed stands in `s`.
pub open spec fn is_one_line(s: Seq<char>) -> bool {
    !s.contains('\n')
}

/// `s` can stand as a line and is read back as it stands: there is no line feed in it and no
/// carriage return at its end.
pub open spec fn is_whole_line(s: Seq<char>) -> bool {
    is_one_line(s) && without_cr(s) == s
}

/// The text is empty or its last line is ended.
pub open spec fn is_ended(s: Seq<char>) -> bool {
    s.len() == 0 || s.last() == '\n'
}

/// Searching for a line feed finds the first one.
pub(crate) proof fn lemma_find_newline(s: Seq<char>)
    ensures
        match find_from(s, seq!['\n'], 0) {
            Some(i) => {
                &&& 0 <= i < s.len()
                &&& s[i] == '\n'
                &&& forall|j: int| 0 <= j < i ==> #[trigger] s[j] != '\n'
            },
            None => is_one_line(s),
        },
{
    let newline = seq!['\n'];
    lemma_find_from(s, newline, 0);
    assert forall|j: int| 0 <= j < s.len() && #[trigger] s[j] == '\n' implies occurs_at(
        s,
        newline,
        j,
    ) by {
        assert(s.subrange(j, j + 1) =~= newline);
    }
    match find_from(s, newline, 0) {
        Some(i) => {
            assert(s.subrange(i, i + 1)[0] == newline[0]);
        },
        None => {},
    }
}

/// A line of a text is one line.
pub(crate) proof fn lemma_lines_are_lines(s: Seq<char>)
    ensures
        forall|k: int| 0 <= k < lines_of(s).len() ==> is_one_line(#[trigger] lines_of(s)[k]),
    decreases s.len(),
{
    if s.len() > 0 {
        lemma_find_newline(s);
        match find_from(s, seq!['\n'], 0) {
            Some(i) => {
                let head = without_cr(s.take(i));
                if head.contains('\n') {
                    let j = choose|j: int| 0 <= j < head.len() && head[j] == '\n';
                    assert(s[j] == '\n');
                }
                lemma_lines_are_lines(s.skip(i + 1));
                assert forall|k: int| 0 <= k < lines_of(s).len() implies is_one_line(
                    #[trigger] lines_of(s)[k],
                ) by {
                    if k > 0 {
                        assert(lines_of(s)[k] == lines_of(s.skip(i + 1))[k - 1]);
                    }
                }
            },
            None => {},
        }
    }
}

/// A line that is added to ended lines becomes the last line.
pub(crate) proof fn lemma_line_added(p: Seq<char>, line: Seq<char>)
    requires
        is_ended(p),
        is_one_line(line),
    ensures
        lines_of(p + line + seq!['\n']) == lines_of(p).push(without_cr(line)),
    decreases p.len(),
{
    let newline = seq!['\n'];
    let s = p + line + newline;
    lemma_find_newline(s);
    let k = find_from(s, newline, 0)->0;
    assert(s[(p.len() + line.len()) as int] == '\n');
    assert(s.contains('\n'));
    if p.len() == 0 {
        if k < line.len() {
            assert(line[k] == s[k]);
        }
        assert(s.take(k) =~= line);
        assert(s.skip(k + 1) =~= Seq::<char>::empty());
        assert(lines_of(s.skip(k + 1)) =~= Seq::empty());
        assert(lines_of(s) =~= seq![without_cr(line)]);
        assert(lines_of(p) =~= Seq::empty());
    } else {
        lemma_find_newline(p);
        assert(p[p.len() - 1] == '\n');
        let i = find_from(p, newline, 0)->0;
        assert(s[i] == p[i]);
        if k < i {
            assert(s[k] == p[k]);
        }
        let rest = p.skip(i + 1);
        assert(s.take(i) =~= p.take(i));
        assert(s.skip(i + 1) =~= rest + line + newline);
        lemma_line_added(rest, line);
        let first = seq![without_cr(p.take(i))];
        assert(first + lines_of(rest).push(without_cr(line)) =~= (first + lines_of(rest)).push(
            without_cr(line),
        ));
    }
}

/// A character that does not stand in a text stands in none of its lines.
pub(crate) proof fn lemma_lines_hold_no_more(s: Seq<char>, c: char)
    requires
        !s.contains(c),
    ensures
        forall|k: int| 0 <= k < lines_of(s).len() ==> !(#[trigger] lines_of(s)[k]).contains(c),
    decreases s.len(),
{
    if s.len() > 0 {
        lemma_find_newline(s);
        match find_from(s, seq!['\n'], 0) {
            Some(i) => {
                let head = without_cr(s.take(i));
                if head.contains(c) {
                    let j = choose|j: int| 0 <= j < head.len() && head[j] == c;
                    assert(s[j] == c);
                }
                let rest = s.skip(i + 1);
                if rest.contains(c) {
                    let j = choose|j: int| 0 <= j < rest.len() && rest[j] == c;
                    assert(s[i + 1 + j] == c);
                }
                lemma_lines_hold_no_more(rest, c);
                assert forall|k: int| 0 <= k < lines_of(s).len() implies !(
                #[trigger] lines_of(s)[k]).contains(c) by {
                    if k > 0 {
                        assert(lines_of(s)[k] == lines_of(rest)[k - 1]);
                    }
                }
            },
            None => {},
        }
    }
}

/// Every character of a line stands in the text.
pub(crate) proof fn lemma_lines_are_of_the_text(s: Seq<char>)
    ensures
        forall|k: int, i: int|
            0 <= k < lines_of(s).len() && 0 <= i < lines_of(s)[k].len() ==> s.contains(
                #[trigger] lines_of(s)[k][i],
            ),
{
    assert forall|k: int, i: int|
        0 <= k < lines_of(s).len() && 0 <= i < lines_of(s)[k].len() implies s.contains(
        #[trigger] lines_of(s)[k][i],
    ) by {
        let c = lines_of(s)[k][i];
        if !s.contains(c) {
            lemma_lines_hold_no_more(s, c);
            assert(lines_of(s)[k].contains(c));
        }
    }
}

} // verus!
