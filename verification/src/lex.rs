//! Cutting a line into pieces: at pipes into segments, at whitespace into
//! words.
use vstd::prelude::*;
use crate::text::{char_views, is_space, is_whitespace};

verus! {

/// What a sequence of characters is cut at.
#[derive(Clone, Copy, Debug, PartialEq, Eq)]
pub enum Separator {
    /// The pipe character `|`.
    Pipe,
    /// Any whitespace character.
    Whitespace,
}

impl Separator {
    /// Whether `c` is a separator of this kind.
    pub open spec fn holds(self, c: char) -> bool {
        match self {
            Separator::Pipe => c == '|',
            Separator::Whitespace => is_space(c),
        }
    }

    /// Tests whether `c` is a separator of this kind.
    pub fn matches(&self, c: char) -> (b: bool)
        ensures
            b == self.holds(c),
    {
        match self {
            Separator::Pipe => c == '|',
            Separator::Whitespace => is_whitespace(c),
        }
    }
}

/// The pieces of `s` that lie between its separators, in order. Two
/// separators in a row, or one at either end, give an empty piece; a sequence
/// without separators is its own single piece.
pub open spec fn pieces(s: Seq<char>, sep: Separator) -> Seq<Seq<char>>
    decreases s.len(),
{
    if s.len() == 0 {
        seq![Seq::<char>::empty()]
    } else {
        let before = pieces(s.drop_last(), sep);
        if sep.holds(s.last()) {
            before.push(Seq::<char>::empty())
        } else {
            before.drop_last().push(before.last().push(s.last()))
        }
    }
}

/// `s` without its leading whitespace.
pub open spec fn trimmed_start(s: Seq<char>) -> Seq<char>
    decreases s.len(),
{
    if s.len() > 0 && is_space(s.first()) {
        trimmed_start(s.drop_first())
    } else {
        s
    }
}

/// `s` without its trailing whitespace.
pub open spec fn trimmed_end(s: Seq<char>) -> Seq<char>
    decreases s.len(),
{
    if s.len() > 0 && is_space(s.last()) {
        trimmed_end(s.drop_last())
    } else {
        s
    }
}

/// `s` without its leading and trailing whitespace.
pub open spec fn trimmed(s: Seq<char>) -> Seq<char> {
    trimmed_end(trimmed_start(s))
}

/// The words of `s`: its maximal runs of characters that are not whitespace.
pub open spec fn words(s: Seq<char>) -> Seq<Seq<char>> {
    filled(pieces(s, Separator::Whitespace))
}

/// The segments of a line: its pieces between pipes, each trimmed.
pub open spec fn segments(line: Seq<char>) -> Seq<Seq<char>> {
    pieces(line, Separator::Pipe).map_values(|p: Seq<char>| trimmed(p))
}

/// Cuts `s` at every separator of the kind `sep`.
pub fn split(s: &Vec<char>, sep: Separator) -> (r: Vec<Vec<char>>)
    ensures
        char_views(r@) == pieces(s@, sep),
{
    let mut done: Vec<Vec<char>> = Vec::new();
    let mut current: Vec<char> = Vec::new();
    let mut i: usize = 0;
    while i < s.len()
        invariant
            i <= s.len(),
            char_views(done@).push(current@) == pieces(s@.take(i as int), sep),
        decreases s.len() - i,
    {
        let c = s[i];
        let ghost before = pieces(s@.take(i as int), sep);
        proof {
            assert(s@.take(i + 1).drop_last() =~= s@.take(i as int));
            assert(before.last() == current@);
            assert(before.drop_last() =~= char_views(done@));
        }
        if sep.matches(c) {
            done.push(current);
            current = Vec::new();
            assert(char_views(done@) =~= before);
        } else {
            current.push(c);
        }
        i = i + 1;
    }
    proof {
        assert(s@.take(s.len() as int) =~= s@);
    }
    done.push(current);
    assert(char_views(done@) =~= pieces(s@, sep));
    done
}

/// Removes the whitespace at both ends of `s`.
pub fn trim(s: &Vec<char>) -> (r: Vec<char>)
    ensures
        r@ == trimmed(s@),
{
    let mut start: usize = 0;
    proof {
        assert(s@.skip(0) =~= s@);
    }
    while start < s.len() && is_whitespace(s[start])
        invariant
            start <= s.len(),
            trimmed_start(s@) == trimmed_start(s@.skip(start as int)),
        decreases s.len() - start,
    {
        proof {
            assert(s@.skip(start as int).drop_first() =~= s@.skip(start + 1));
        }
        start = start + 1;
    }
    let mut end: usize = s.len();
    while end > start && is_whitespace(s[end - 1])
        invariant
            start <= end <= s.len(),
            trimmed(s@) == trimmed_end(s@.subrange(start as int, end as int)),
        decreases end - start,
    {
        proof {
            assert(s@.subrange(start as int, end as int).drop_last() =~= s@.subrange(
                start as int,
                end - 1,
            ));
        }
        end = end - 1;
    }
    let mut r: Vec<char> = Vec::new();
    let mut i: usize = start;
    while i < end
        invariant
            start <= i <= end <= s.len(),
            r@ == s@.subrange(start as int, i as int),
        decreases end - i,
    {
        r.push(s[i]);
        i = i + 1;
    }
    r
}

/// A cut always yields at least one piece.
pub proof fn lemma_pieces_nonempty(s: Seq<char>, sep: Separator)
    ensures
        pieces(s, sep).len() >= 1,
    decreases s.len(),
{
    if s.len() > 0 {
        lemma_pieces_nonempty(s.drop_last(), sep);
    }
}

/// The pieces of `p` that hold at least one character.
pub open spec fn filled(p: Seq<Seq<char>>) -> Seq<Seq<char>> {
    p.filter(|q: Seq<char>| q.len() > 0)
}

/// Adding a piece at the end adds it to the filled pieces if it holds a
/// character, and changes nothing otherwise.
pub proof fn lemma_filled_push(p: Seq<Seq<char>>, q: Seq<char>)
    ensures
        filled(p.push(q)) == if q.len() > 0 {
            filled(p).push(q)
        } else {
            filled(p)
        },
{
    reveal(Seq::filter);
    assert(p.push(q).drop_last() =~= p);
}

/// Cuts `s` into its words.
pub fn tokenize(s: &Vec<char>) -> (r: Vec<Vec<char>>)
    ensures
        char_views(r@) == words(s@),
{
    let mut done: Vec<Vec<char>> = Vec::new();
    let mut current: Vec<char> = Vec::new();
    let mut i: usize = 0;
    proof {
        reveal(Seq::filter);
        assert(pieces(s@.take(0), Separator::Whitespace).drop_last() =~= Seq::<Seq<char>>::empty());
        assert(char_views(done@) =~= Seq::<Seq<char>>::empty());
    }
    while i < s.len()
        invariant
            i <= s.len(),
            pieces(s@.take(i as int), Separator::Whitespace).len() >= 1,
            char_views(done@) == filled(
                pieces(s@.take(i as int), Separator::Whitespace).drop_last(),
            ),
            current@ == pieces(s@.take(i as int), Separator::Whitespace).last(),
        decreases s.len() - i,
    {
        let c = s[i];
        let ghost before = pieces(s@.take(i as int), Separator::Whitespace);
        proof {
            assert(s@.take(i + 1).drop_last() =~= s@.take(i as int));
            lemma_pieces_nonempty(s@.take(i + 1), Separator::Whitespace);
            assert(before =~= before.drop_last().push(before.last()));
            lemma_filled_push(before.drop_last(), before.last());
        }
        if is_whitespace(c) {
            if current.len() > 0 {
                let ghost views = char_views(done@);
                done.push(current);
                current = Vec::new();
                assert(char_views(done@) =~= views.push(before.last()));
            }
            assert(before.push(Seq::<char>::empty()).drop_last() =~= before);
        } else {
            current.push(c);
            assert(before.drop_last().push(before.last().push(c)).drop_last()
                =~= before.drop_last());
        }
        i = i + 1;
    }
    let ghost all = pieces(s@, Separator::Whitespace);
    proof {
        assert(s@.take(s.len() as int) =~= s@);
        assert(all =~= all.drop_last().push(all.last()));
        lemma_filled_push(all.drop_last(), all.last());
    }
    if current.len() > 0 {
        let ghost views = char_views(done@);
        done.push(current);
        assert(char_views(done@) =~= views.push(all.last()));
    }
    done
}

/// Cuts a line at its pipes and trims each piece.
pub fn split_segments(line: &Vec<char>) -> (r: Vec<Vec<char>>)
    ensures
        char_views(r@) == segments(line@),
{
    let raw = split(line, Separator::Pipe);
    let mut r: Vec<Vec<char>> = Vec::new();
    let mut i: usize = 0;
    while i < raw.len()
        invariant
            i <= raw.len(),
            char_views(raw@) == pieces(line@, Separator::Pipe),
            r.len() == i,
            forall|j: int| 0 <= j < i ==> (#[trigger] r@[j])@ == trimmed(raw@[j]@),
        decreases raw.len() - i,
    {
        let t = trim(&raw[i]);
        r.push(t);
        i = i + 1;
    }
    proof {
        let p = pieces(line@, Separator::Pipe);
        assert forall|j: int| 0 <= j < r.len() implies char_views(r@)[j] == segments(line@)[j] by {
            assert(char_views(raw@)[j] == p[j]);
        }
        assert(char_views(r@) =~= segments(line@));
    }
    r
}

} // verus!
