//! Streaming over a text resource, one line at a time: counting its words,
//! and collecting the window of words that starts at an absolute word index.
//! Both go through `line_words`, so counts and windows agree on word indices.
use vstd::prelude::*;
use crate::words::{line_words, views, words_of, words_of_lines, lemma_words_of_lines_append};

verus! {

/// The words of `all` at indices `[start, start + size)`, cut off at the end.
pub open spec fn window(all: Seq<Seq<char>>, start: int, size: int) -> Seq<Seq<char>> {
    let lo = if start < all.len() { start } else { all.len() as int };
    let hi = if start + size < all.len() { start + size } else { all.len() as int };
    all.subrange(lo, hi)
}

/// Counts the words of the lines fed to it.
pub struct WordCounter {
    total: usize,
    lines: Ghost<Seq<Seq<char>>>,
}

impl WordCounter {
    /// The lines fed so far.
    pub closed spec fn lines_fed(&self) -> Seq<Seq<char>> {
        self.lines@
    }

    pub closed spec fn wf(&self) -> bool {
        self.total == words_of_lines(self.lines@).len()
    }

    pub fn new() -> (r: Self)
        ensures
            r.wf(),
            r.lines_fed() == Seq::<Seq<char>>::empty(),
    {
        WordCounter { total: 0, lines: Ghost(Seq::empty()) }
    }

    /// The number of words in the lines fed so far.
    pub fn total(&self) -> (r: usize)
        requires
            self.wf(),
        ensures
            r == words_of_lines(self.lines_fed()).len(),
    {
        self.total
    }

    /// Takes the next line into the count. Returns false, and takes nothing,
    /// when the new total would not fit in a `usize`.
    pub fn feed_line(&mut self, line: &str) -> (r: bool)
        requires
            old(self).wf(),
        ensures
            final(self).wf(),
            r == (words_of_lines(old(self).lines_fed()).len() + words_of(line@).len()
                <= usize::MAX),
            r ==> final(self).lines_fed() == old(self).lines_fed().push(line@),
            !r ==> final(self).lines_fed() == old(self).lines_fed(),
    {
        let lw = line_words(line);
        let n = lw.len();
        assert(n == words_of(line@).len()) by {
            assert(views(lw@).len() == lw@.len());
        }
        match self.total.checked_add(n) {
            Some(t) => {
                proof {
                    let old_lines = self.lines@;
                    assert(old_lines.push(line@).drop_last() =~= old_lines);
                }
                self.total = t;
                self.lines = Ghost(self.lines@.push(line@));
                true
            },
            None => false,
        }
    }
}

/// Collects the window of `size` words starting at absolute word index
/// `start`, from the lines fed to it in order.
pub struct WordWindow {
    start: usize,
    size: usize,
    skip: usize,
    words: Vec<String>,
    lines: Ghost<Seq<Seq<char>>>,
}

impl WordWindow {
    /// The lines fed so far.
    pub closed spec fn lines_fed(&self) -> Seq<Seq<char>> {
        self.lines@
    }

    pub closed spec fn start(&self) -> nat {
        self.start as nat
    }

    pub closed spec fn size(&self) -> nat {
        self.size as nat
    }

    /// The words collected so far.
    pub closed spec fn collected(&self) -> Seq<Seq<char>> {
        views(self.words@)
    }

    pub closed spec fn wf(&self) -> bool {
        let all = words_of_lines(self.lines@);
        &&& views(self.words@) == window(all, self.start as int, self.size as int)
        &&& self.words@.len() < self.size ==> self.skip == (if all.len() < self.start {
            self.start - all.len()
        } else {
            0
        })
    }

    pub fn new(start_index: usize, buffer_size: usize) -> (r: Self)
        ensures
            r.wf(),
            r.lines_fed() == Seq::<Seq<char>>::empty(),
            r.start() == start_index,
            r.size() == buffer_size,
    {
        let r = WordWindow {
            start: start_index,
            size: buffer_size,
            skip: start_index,
            words: Vec::new(),
            lines: Ghost(Seq::empty()),
        };
        assert(views(r.words@) =~= window(Seq::empty(), start_index as int, buffer_size as int));
        r
    }

    /// Whether the window holds all the words it asked for; no later line
    /// can change it then.
    pub fn is_full(&self) -> (r: bool)
        requires
            self.wf(),
        ensures
            r == (self.collected().len() >= self.size()),
    {
        self.words.len() >= self.size
    }

    /// Takes the next line.
    pub fn feed_line(&mut self, line: &str)
        requires
            old(self).wf(),
        ensures
            final(self).wf(),
            final(self).lines_fed() == old(self).lines_fed().push(line@),
            final(self).start() == old(self).start(),
            final(self).size() == old(self).size(),
    {
        let lw = line_words(line);
        let ghost prev = words_of_lines(self.lines@);
        let ghost lwv = views(lw@);
        let ghost start = self.start as int;
        let ghost size = self.size as int;
        proof {
            let old_lines = self.lines@;
            assert(old_lines.push(line@).drop_last() =~= old_lines);
            assert(words_of_lines(old_lines.push(line@)) == prev + lwv);
        }
        let mut i: usize = 0;
        while i < lw.len()
            invariant
                i <= lw.len(),
                lwv == views(lw@),
                self.lines@ == old(self).lines@,
                prev + lwv == words_of_lines(self.lines@.push(line@)),
                start == self.start,
                size == self.size,
                views(self.words@) == window(prev + lwv.take(i as int), start, size),
                self.words@.len() < size ==> self.skip == (if (prev + lwv.take(i as int)).len()
                    < start {
                    start - (prev + lwv.take(i as int)).len()
                } else {
                    0
                }),
            ensures
                i <= lw.len(),
                self.lines@ == old(self).lines@,
                start == self.start,
                size == self.size,
                views(self.words@) == window(prev + lwv.take(i as int), start, size),
                self.words@.len() < size ==> self.skip == (if (prev + lwv.take(i as int)).len()
                    < start {
                    start - (prev + lwv.take(i as int)).len()
                } else {
                    0
                }),
                i < lw.len() ==> self.words@.len() >= size,
            decreases lw.len() - i,
        {
            let ghost before = prev + lwv.take(i as int);
            let ghost after = prev + lwv.take(i as int + 1);
            assert(after =~= before.push(lwv[i as int]));
            if self.words.len() >= self.size {
                break;
            }
            if self.skip > 0 {
                self.skip = self.skip - 1;
                assert(window(after, start, size) =~= window(before, start, size));
            } else {
                let ghost old_words = self.words@;
                self.words.push(lw[i].clone());
                assert(views(self.words@) =~= views(old_words).push(lwv[i as int]));
                assert(window(after, start, size) =~= window(before, start, size).push(
                    lwv[i as int],
                ));
            }
            i = i + 1;
        }
        proof {
            let before = prev + lwv.take(i as int);
            if i < lw.len() {
                lemma_full_window_stable(before, lwv.skip(i as int), start, size);
                assert(before + lwv.skip(i as int) =~= prev + lwv);
            } else {
                assert(lwv.take(i as int) =~= lwv);
            }
        }
        self.lines = Ghost(self.lines@.push(line@));
    }

    /// The words collected: once every line of a resource has been fed, or
    /// the window is full, exactly the window of the whole resource.
    pub fn into_words(self) -> (r: Vec<String>)
        requires
            self.wf(),
        ensures
            views(r@) == window(words_of_lines(self.lines_fed()), self.start() as int,
                self.size() as int),
    {
        self.words
    }
}

/// The window of `buffer_size` words from `start_index` of a text given as
/// its lines. Stops reading lines as soon as the window is full.
pub fn read_window(lines: &Vec<String>, start_index: usize, buffer_size: usize) -> (r: Vec<
    String,
>)
    ensures
        views(r@) == window(
            words_of_lines(views(lines@)),
            start_index as int,
            buffer_size as int,
        ),
{
    let mut w = WordWindow::new(start_index, buffer_size);
    let mut i: usize = 0;
    while i < lines.len() && !w.is_full()
        invariant
            i <= lines.len(),
            w.wf(),
            w.start() == start_index,
            w.size() == buffer_size,
            w.lines_fed() == views(lines@).take(i as int),
        decreases lines.len() - i,
    {
        w.feed_line(lines[i].as_str());
        assert(views(lines@).take(i as int + 1) =~= views(lines@).take(i as int).push(lines@[i as int]@));
        i = i + 1;
    }
    proof {
        let fed = views(lines@).take(i as int);
        let rest = views(lines@).skip(i as int);
        assert(fed + rest =~= views(lines@));
        lemma_words_of_lines_append(fed, rest);
        if i < lines.len() {
            lemma_full_window_stable(words_of_lines(fed), words_of_lines(rest), start_index as int, buffer_size as int);
        } else {
            assert(rest =~= Seq::<Seq<char>>::empty());
            assert(words_of_lines(rest) =~= Seq::<Seq<char>>::empty());
            assert(words_of_lines(fed) + words_of_lines(rest) =~= words_of_lines(fed));
        }
    }
    w.into_words()
}

/// Reading from word 0 as many words as the text holds gives back every
/// word of the text, so the count and the window agree.
pub proof fn lemma_count_matches_full_window(lines: Seq<Seq<char>>)
    ensures
        window(words_of_lines(lines), 0, words_of_lines(lines).len() as int) == words_of_lines(
            lines,
        ),
        window(words_of_lines(lines), 0, words_of_lines(lines).len() as int).len()
            == words_of_lines(lines).len(),
{
    let all = words_of_lines(lines);
    assert(window(all, 0, all.len() as int) =~= all);
}

/// A window holds `min(size, max(0, total - start))` words.
pub proof fn lemma_window_length(all: Seq<Seq<char>>, start: int, size: int)
    requires
        0 <= start,
        0 <= size,
    ensures
        window(all, start, size).len() == (if all.len() - start <= 0 {
            0
        } else if size < all.len() - start {
            size
        } else {
            all.len() - start
        }),
{
}

/// The window of the first `k` words followed by the window of the rest is
/// the whole text, in order.
pub proof fn lemma_window_split(all: Seq<Seq<char>>, k: int)
    requires
        0 <= k <= all.len(),
    ensures
        window(all, 0, k) + window(all, k, all.len() - k) == all,
{
    assert(window(all, 0, k) + window(all, k, all.len() - k) =~= all);
}

/// Once a window holds `size` words, nothing that follows can change it:
/// stopping the scan there loses nothing.
pub proof fn lemma_full_window_stable(a: Seq<Seq<char>>, b: Seq<Seq<char>>, start: int, size: int)
    requires
        0 <= start,
        0 <= size,
        window(a, start, size).len() == size,
    ensures
        window(a + b, start, size) == window(a, start, size),
{
    assert(window(a + b, start, size) =~= window(a, start, size));
}

} // verus!
