//! The single tokenization rule: a word is a maximal run of non-whitespace
//! characters, where whitespace is Unicode's `White_Space` property.
use vstd::prelude::*;

verus! {

/// Unicode `White_Space`, the set that `char::is_whitespace` tests.
pub open spec fn is_ws(c: char) -> bool {
    let u = c as u32;
    (0x09 <= u && u <= 0x0d) || u == 0x20 || u == 0x85 || u == 0xa0 || u == 0x1680 || (0x2000
        <= u && u <= 0x200a) || u == 0x2028 || u == 0x2029 || u == 0x202f || u == 0x205f || u
        == 0x3000
}

/// Left-to-right scan of `s`: the words already closed, and the run of
/// non-whitespace characters still open at the end of `s`.
pub open spec fn scan(s: Seq<char>) -> (Seq<Seq<char>>, Seq<char>)
    decreases s.len(),
{
    if s.len() == 0 {
        (Seq::empty(), Seq::empty())
    } else {
        let (closed, open) = scan(s.drop_last());
        let c = s.last();
        if is_ws(c) {
            if open.len() > 0 {
                (closed.push(open), Seq::empty())
            } else {
                (closed, open)
            }
        } else {
            (closed, open.push(c))
        }
    }
}

/// The words of `s`, in order: its maximal runs of non-whitespace characters.
pub open spec fn words_of(s: Seq<char>) -> Seq<Seq<char>> {
    let (closed, open) = scan(s);
    if open.len() > 0 {
        closed.push(open)
    } else {
        closed
    }
}

/// The words of a text given as its lines, in file order.
pub open spec fn words_of_lines(lines: Seq<Seq<char>>) -> Seq<Seq<char>>
    decreases lines.len(),
{
    if lines.len() == 0 {
        Seq::empty()
    } else {
        words_of_lines(lines.drop_last()) + words_of(lines.last())
    }
}

/// The views of a vector of strings.
pub open spec fn views(v: Seq<String>) -> Seq<Seq<char>> {
    v.map_values(|w: String| w@)
}

/// Every word is non-empty and holds no whitespace.
pub proof fn lemma_words_are_runs(s: Seq<char>)
    ensures
        forall|i: int|
            0 <= i < words_of(s).len() ==> #[trigger] words_of(s)[i].len() > 0 && forall|j: int|
                0 <= j < words_of(s)[i].len() ==> !is_ws(words_of(s)[i][j]),
{
    lemma_scan_runs(s);
    let (closed, open) = scan(s);
    if open.len() > 0 {
        assert forall|i: int| 0 <= i < closed.push(open).len() implies #[trigger] closed.push(
            open,
        )[i].len() > 0 && forall|j: int|
            0 <= j < closed.push(open)[i].len() ==> !is_ws(closed.push(open)[i][j]) by {
            if i < closed.len() {
                assert(closed.push(open)[i] == closed[i]);
            }
        }
    }
}

proof fn lemma_scan_runs(s: Seq<char>)
    ensures
        forall|i: int|
            0 <= i < scan(s).0.len() ==> #[trigger] scan(s).0[i].len() > 0 && forall|j: int|
                0 <= j < scan(s).0[i].len() ==> !is_ws(scan(s).0[i][j]),
        forall|j: int| 0 <= j < scan(s).1.len() ==> !is_ws(#[trigger] scan(s).1[j]),
    decreases s.len(),
{
    if s.len() > 0 {
        lemma_scan_runs(s.drop_last());
        let (closed, open) = scan(s.drop_last());
        let c = s.last();
        if is_ws(c) {
            if open.len() > 0 {
                assert(scan(s).0 == closed.push(open));
                assert forall|i: int| 0 <= i < closed.push(open).len() implies #[trigger] closed.push(
                    open,
                )[i].len() > 0 && forall|j: int|
                    0 <= j < closed.push(open)[i].len() ==> !is_ws(closed.push(open)[i][j]) by {
                    if i < closed.len() {
                        assert(closed.push(open)[i] == closed[i]);
                    }
                }
            }
        } else {
            assert(scan(s).1 == open.push(c));
            assert forall|j: int| 0 <= j < open.push(c).len() implies !is_ws(
                #[trigger] open.push(c)[j],
            ) by {
                if j < open.len() {
                    assert(open.push(c)[j] == open[j]);
                }
            }
        }
    }
}

/// Appending lines appends their words.
pub proof fn lemma_words_of_lines_append(a: Seq<Seq<char>>, b: Seq<Seq<char>>)
    ensures
        words_of_lines(a + b) == words_of_lines(a) + words_of_lines(b),
    decreases b.len(),
{
    if b.len() == 0 {
        assert(a + b =~= a);
        assert(words_of_lines(b) =~= Seq::empty());
        assert(words_of_lines(a) + words_of_lines(b) =~= words_of_lines(a));
    } else {
        lemma_words_of_lines_append(a, b.drop_last());
        assert((a + b).drop_last() =~= a + b.drop_last());
        assert((a + b).last() == b.last());
        assert(words_of_lines(a + b) =~= words_of_lines(a) + words_of_lines(b));
    }
}

/// Whether `c` is whitespace, as `char::is_whitespace` decides.
pub fn is_whitespace(c: char) -> (r: bool)
    ensures
        r == is_ws(c),
{
    let u = c as u32;
    (0x09 <= u && u <= 0x0d) || u == 0x20 || u == 0x85 || u == 0xa0 || u == 0x1680 || (0x2000
        <= u && u <= 0x200a) || u == 0x2028 || u == 0x2029 || u == 0x202f || u == 0x205f || u
        == 0x3000
}

/// Relies on `String::push`: the character is appended at the end.
#[verifier::external_body]
fn push_char(s: &mut String, c: char)
    ensures
        final(s)@ == old(s)@.push(c),
{
    s.push(c)
}

/// The words of one line, in order.
pub fn line_words(line: &str) -> (r: Vec<String>)
    ensures
        views(r@) == words_of(line@),
{
    let mut closed: Vec<String> = Vec::new();
    let mut open = String::new();
    let mut open_nonempty = false;
    for c in it: line.chars()
        invariant
            it.seq() == line@,
            views(closed@) == scan(line@.take(it.index() as int)).0,
            open@ == scan(line@.take(it.index() as int)).1,
            open_nonempty == (open@.len() > 0),
    {
        let ghost i = it.index() as int;
        assert(line@.take(i + 1).drop_last() =~= line@.take(i));
        if is_whitespace(c) {
            if open_nonempty {
                let ghost before = closed@;
                let ghost word = open@;
                closed.push(open);
                open = String::new();
                open_nonempty = false;
                assert(views(closed@) =~= views(before).push(word));
            }
        } else {
            push_char(&mut open, c);
            open_nonempty = true;
        }
    }
    assert(line@.take(line@.len() as int) =~= line@);
    if open_nonempty {
        let ghost before = closed@;
        closed.push(open);
        assert(views(closed@) =~= views(before).push(open@));
    }
    closed
}

} // verus!
