//! Following a session file while it grows.
//!
//! A session file holds a configuration block, a divider line and the
//! transcript. When the file is opened, the transcript so far is shown once.
//! After that, whenever the file has changed, it is read again and the lines
//! beyond those already seen are passed on. What counts is the number of
//! lines seen, not a position in the file: a session file may be rewritten
//! in place.

use vstd::prelude::*;
use crate::completion::{divider, divider_chars};
use crate::text::{
    chars_of, find, find_in, lemma_lines_view, lines, slice_of, split_lines, to_string,
    trim_start, trimmed_start,
};

verus! {

/// The lines of `ls` before index `n`, each followed by an empty line.
pub open spec fn spaced(ls: Seq<Seq<char>>, n: int) -> Seq<char>
    decreases n,
{
    if n <= 0 || n > ls.len() {
        Seq::empty()
    } else {
        spaced(ls, n - 1) + ls[n - 1] + seq!['\n', '\n']
    }
}

/// The transcript that a session file holds when it is opened, as it is
/// shown: what follows the divider line, without the whitespace at its
/// start, with an empty line after each of its lines. A file without a
/// divider has no transcript yet.
pub open spec fn baseline(content: Seq<char>) -> Seq<char> {
    match find(content, divider()) {
        None => Seq::empty(),
        Some(at) => {
            let from = if at + 4 <= content.len() {
                at + 4
            } else {
                content.len() as int
            };
            let shown = lines(trim_start(content.subrange(from, content.len() as int)));
            spaced(shown, shown.len() as int)
        },
    }
}

/// The lines of `ls` from index `from` up to index `n`, with a line feed
/// between one and the next.
pub open spec fn joined_lines(ls: Seq<Seq<char>>, from: int, n: int) -> Seq<char>
    decreases n,
{
    if n <= from || from < 0 || n > ls.len() {
        Seq::empty()
    } else if n == from + 1 {
        ls[from]
    } else {
        joined_lines(ls, from, n - 1) + seq!['\n'] + ls[n - 1]
    }
}

/// What is passed on when the file holds `content` and `seen` of its lines
/// were seen before: the lines beyond those.
pub open spec fn appended(content: Seq<char>, seen: nat) -> Seq<char> {
    joined_lines(lines(content), seen as int, lines(content).len() as int)
}

/// The number of lines seen once a file that holds `content` was read.
pub open spec fn seen_after(content: Seq<char>, seen: nat) -> nat {
    if lines(content).len() > seen {
        lines(content).len()
    } else {
        seen
    }
}

/// What was passed on once is not passed on again: after a file was read,
/// reading the same content again passes nothing on and leaves the number
/// of lines seen as it is.
pub proof fn lemma_lines_are_passed_on_once(content: Seq<char>, seen: nat)
    ensures
        appended(content, seen_after(content, seen)) == Seq::<char>::empty(),
        seen_after(content, seen_after(content, seen)) == seen_after(content, seen),
        seen_after(content, seen) >= seen,
{
}

/// The watcher of one session file: it remembers how many lines it has
/// seen.
#[derive(Clone, Copy, Debug, PartialEq, Eq)]
pub struct Tail {
    pub seen: usize,
}

fn show(content: &Vec<char>) -> (out: Vec<char>)
    ensures
        out@ == baseline(content@),
{
    let mark = divider_chars();
    let at = match find_in(content, &mark, 0) {
        None => { return Vec::new(); },
        Some(at) => at,
    };
    let from = if content.len() - at >= 4 {
        at + 4
    } else {
        content.len()
    };
    let rest = slice_of(content, from, content.len());
    let ls = split_lines(&trimmed_start(&rest));
    proof {
        lemma_lines_view(ls);
    }
    let mut out: Vec<char> = Vec::new();
    let mut n: usize = 0;
    while n < ls.len()
        invariant
            n <= ls.len(),
            ls.deep_view().len() == ls.len(),
            forall|i: int| 0 <= i < ls.len() ==> #[trigger] ls.deep_view()[i] == ls@[i]@,
            out@ == spaced(ls.deep_view(), n as int),
        decreases ls.len() - n,
    {
        let ghost before = out@;
        let line = &ls[n];
        let mut j: usize = 0;
        while j < line.len()
            invariant
                j <= line.len(),
                out@ == before + line@.take(j as int),
            decreases line.len() - j,
        {
            out.push(line[j]);
            j += 1;
            assert(line@.take(j as int) == line@.take(j - 1).push(line@[j - 1]));
        }
        out.push('\n');
        out.push('\n');
        proof {
            assert(line@.take(line.len() as int) == line@);
            assert(out@ =~= before + line@ + seq!['\n', '\n']);
        }
        n += 1;
    }
    out
}

impl Tail {
    /// Opens the watch on a file that holds `content`. Returns the watcher
    /// and the transcript to show.
    pub fn open(content: &str) -> (r: (Tail, String))
        ensures
            r.0.seen == lines(content@).len(),
            r.1@ == baseline(content@),
    {
        let chars = chars_of(content);
        let ls = split_lines(&chars);
        proof {
            lemma_lines_view(ls);
        }
        (Tail { seen: ls.len() }, to_string(&show(&chars)))
    }

    /// Takes note that the file has changed and now holds `content`.
    /// Returns what is to be passed on: the lines that were not seen before.
    pub fn modified(&mut self, content: &str) -> (r: String)
        ensures
            r@ == appended(content@, old(self).seen as nat),
            final(self).seen == seen_after(content@, old(self).seen as nat),
    {
        let chars = chars_of(content);
        let ls = split_lines(&chars);
        proof {
            lemma_lines_view(ls);
        }
        let from = self.seen;
        let mut out: Vec<char> = Vec::new();
        if from >= ls.len() {
            return to_string(&out);
        }
        let mut n: usize = from;
        while n < ls.len()
            invariant
                from <= n <= ls.len(),
                from < ls.len(),
                ls.deep_view().len() == ls.len(),
                forall|i: int| 0 <= i < ls.len() ==> #[trigger] ls.deep_view()[i] == ls@[i]@,
                out@ == joined_lines(ls.deep_view(), from as int, n as int),
            decreases ls.len() - n,
        {
            if n > from {
                out.push('\n');
            }
            let ghost before = out@;
            let line = &ls[n];
            let mut j: usize = 0;
            while j < line.len()
                invariant
                    j <= line.len(),
                    out@ == before + line@.take(j as int),
                decreases line.len() - j,
            {
                out.push(line[j]);
                j += 1;
                assert(line@.take(j as int) == line@.take(j - 1).push(line@[j - 1]));
            }
            proof {
                assert(line@.take(line.len() as int) == line@);
                if n == from {
                    assert(out@ =~= line@);
                } else {
                    assert(out@ =~= joined_lines(ls.deep_view(), from as int, n as int) + seq![
                        '\n',
                    ] + line@);
                }
            }
            n += 1;
        }
        self.seen = ls.len();
        to_string(&out)
    }
}

} // verus!
