//! What holds of pieces, trimmed sequences and words.
use vstd::prelude::*;
use crate::lex::{
    filled, lemma_filled_push, lemma_pieces_nonempty, pieces, trimmed, trimmed_end, trimmed_start,
    words, Separator,
};
use crate::text::{is_blank, is_space};

verus! {

/// Whether no character of `s` is a separator of the kind `sep`.
pub open spec fn free_of(s: Seq<char>, sep: Separator) -> bool {
    forall|i: int| 0 <= i < s.len() ==> !sep.holds(#[trigger] s[i])
}

/// The number of separators of the kind `sep` in `s`.
pub open spec fn separator_count(s: Seq<char>, sep: Separator) -> nat {
    s.filter(|c: char| sep.holds(c)).len()
}

/// The pieces `p` put together again, with `c` between each two.
pub open spec fn joined(p: Seq<Seq<char>>, c: char) -> Seq<char>
    decreases p.len(),
{
    if p.len() == 0 {
        Seq::empty()
    } else if p.len() == 1 {
        p[0]
    } else {
        joined(p.drop_last(), c) + seq![c] + p.last()
    }
}

/// A sequence without separators is its own single piece.
pub proof fn lemma_pieces_without_separator(s: Seq<char>, sep: Separator)
    requires
        free_of(s, sep),
    ensures
        pieces(s, sep) == seq![s],
    decreases s.len(),
{
    if s.len() == 0 {
        assert(s =~= Seq::<char>::empty());
        assert(pieces(s, sep) =~= seq![s]);
    } else {
        lemma_pieces_without_separator(s.drop_last(), sep);
        assert(s.drop_last().push(s.last()) =~= s);
        assert(pieces(s, sep) =~= seq![s]);
    }
}

/// No piece holds a separator.
pub proof fn lemma_pieces_free_of_separator(s: Seq<char>, sep: Separator)
    ensures
        forall|i: int| 0 <= i < pieces(s, sep).len() ==> free_of(#[trigger] pieces(s, sep)[i], sep),
    decreases s.len(),
{
    if s.len() > 0 {
        lemma_pieces_free_of_separator(s.drop_last(), sep);
        lemma_pieces_nonempty(s.drop_last(), sep);
        let before = pieces(s.drop_last(), sep);
        assert forall|i: int| 0 <= i < pieces(s, sep).len() implies free_of(
            #[trigger] pieces(s, sep)[i],
            sep,
        ) by {
            if i < before.len() - 1 {
                assert(pieces(s, sep)[i] == before[i]);
            } else if !sep.holds(s.last()) {
                assert(free_of(before[before.len() - 1], sep));
            }
        }
    }
}

/// There is one piece more than there are separators.
pub proof fn lemma_pieces_count(s: Seq<char>, sep: Separator)
    ensures
        pieces(s, sep).len() == separator_count(s, sep) + 1,
    decreases s.len(),
{
    reveal(Seq::filter);
    if s.len() > 0 {
        lemma_pieces_count(s.drop_last(), sep);
        lemma_pieces_nonempty(s.drop_last(), sep);
    }
}

/// The pieces between the pipes of `s`, joined by pipes, are `s` again.
pub proof fn lemma_pieces_joined(s: Seq<char>)
    ensures
        joined(pieces(s, Separator::Pipe), '|') == s,
    decreases s.len(),
{
    let sep = Separator::Pipe;
    if s.len() == 0 {
    } else {
        let t = s.drop_last();
        let before = pieces(t, sep);
        lemma_pieces_joined(t);
        lemma_pieces_nonempty(t, sep);
        let after = pieces(s, sep);
        if sep.holds(s.last()) {
            assert(after.drop_last() =~= before);
            assert(joined(after, '|') =~= s);
        } else if before.len() == 1 {
            assert(after =~= seq![before[0].push(s.last())]);
            assert(joined(before, '|') == before[0]);
            assert(joined(after, '|') == after[0]);
            assert(s =~= t.push(s.last()));
        } else {
            assert(after.drop_last() =~= before.drop_last());
            assert(after.last() == before.last().push(s.last()));
            assert(t == joined(before.drop_last(), '|') + seq!['|'] + before.last());
            assert(s =~= t.push(s.last()));
            assert(joined(after, '|') =~= s);
        }
    }
}

/// The pieces of `s` are the only way to write `s` as pipe-free pieces
/// joined by pipes.
pub proof fn lemma_pieces_unique(s: Seq<char>, p: Seq<Seq<char>>)
    requires
        p.len() >= 1,
        forall|i: int| 0 <= i < p.len() ==> free_of(#[trigger] p[i], Separator::Pipe),
        joined(p, '|') == s,
    ensures
        p == pieces(s, Separator::Pipe),
    decreases s.len(),
{
    let sep = Separator::Pipe;
    if p.len() == 1 {
        lemma_pieces_without_separator(s, sep);
        assert(p =~= seq![s]);
    } else {
        let head = joined(p.drop_last(), '|') + seq!['|'];
        assert(s == head + p.last());
        assert forall|i: int| 0 <= i < p.drop_last().len() implies free_of(
            #[trigger] p.drop_last()[i],
            sep,
        ) by {
            assert(p.drop_last()[i] == p[i]);
        }
        if p.last().len() == 0 {
            assert(s =~= head);
            assert(s.drop_last() =~= joined(p.drop_last(), '|'));
            lemma_pieces_unique(s.drop_last(), p.drop_last());
            assert(p.last() =~= Seq::<char>::empty());
            assert(p =~= p.drop_last().push(Seq::<char>::empty()));
        } else {
            let q = p.drop_last().push(p.last().drop_last());
            assert(q.drop_last() =~= p.drop_last());
            assert(s.last() == p.last().last());
            assert(free_of(p[p.len() - 1], sep));
            assert(!sep.holds(p.last()[p.last().len() - 1]));
            assert(joined(q, '|') =~= s.drop_last());
            assert forall|i: int| 0 <= i < q.len() implies free_of(#[trigger] q[i], sep) by {
                if i < q.len() - 1 {
                    assert(q[i] == p[i]);
                } else {
                    assert forall|j: int| 0 <= j < q[i].len() implies !sep.holds(
                        #[trigger] q[i][j],
                    ) by {
                        assert(q[i][j] == p[p.len() - 1][j]);
                    }
                }
            }
            lemma_pieces_unique(s.drop_last(), q);
            assert(p.last() =~= q.last().push(s.last()));
            assert(p =~= q.drop_last().push(q.last().push(s.last())));
        }
    }
}

/// What is trimmed from the start is whitespace, and what stays does not
/// begin with whitespace.
pub proof fn lemma_trimmed_start(s: Seq<char>)
    ensures
        trimmed_start(s).len() <= s.len(),
        trimmed_start(s) == s.skip(s.len() - trimmed_start(s).len()),
        is_blank(s.take(s.len() - trimmed_start(s).len())),
        trimmed_start(s).len() > 0 ==> !is_space(trimmed_start(s).first()),
    decreases s.len(),
{
    if s.len() > 0 && is_space(s.first()) {
        let t = s.drop_first();
        lemma_trimmed_start(t);
        let a = t.len() - trimmed_start(t).len();
        assert(t.skip(a) =~= s.skip(a + 1));
        assert forall|i: int| 0 <= i < a + 1 implies is_space(#[trigger] s.take(a + 1)[i]) by {
            if i > 0 {
                assert(s.take(a + 1)[i] == t.take(a)[i - 1]);
            }
        }
    } else {
        assert(s.skip(0) =~= s);
    }
}

/// What is trimmed from the end is whitespace, and what stays does not end
/// with whitespace.
pub proof fn lemma_trimmed_end(s: Seq<char>)
    ensures
        trimmed_end(s).len() <= s.len(),
        trimmed_end(s) == s.take(trimmed_end(s).len() as int),
        is_blank(s.skip(trimmed_end(s).len() as int)),
        trimmed_end(s).len() > 0 ==> !is_space(trimmed_end(s).last()),
    decreases s.len(),
{
    if s.len() > 0 && is_space(s.last()) {
        let t = s.drop_last();
        lemma_trimmed_end(t);
        let b = trimmed_end(t).len() as int;
        assert(t.take(b) =~= s.take(b));
        assert forall|i: int| 0 <= i < s.len() - b implies is_space(#[trigger] s.skip(b)[i]) by {
            if i < t.len() - b {
                assert(s.skip(b)[i] == t.skip(b)[i]);
            }
        }
    } else {
        assert(s.take(s.len() as int) =~= s);
    }
}

/// Trimming cuts a stretch out of `s`: whitespace stands before and after
/// it, and the stretch itself neither begins nor ends with whitespace.
pub proof fn lemma_trimmed(s: Seq<char>) -> (start: int)
    ensures
        0 <= start <= start + trimmed(s).len() <= s.len(),
        trimmed(s) == s.subrange(start, start + trimmed(s).len()),
        is_blank(s.take(start)),
        is_blank(s.skip(start + trimmed(s).len())),
        trimmed(s).len() > 0 ==> !is_space(trimmed(s).first()) && !is_space(trimmed(s).last()),
{
    let u = trimmed_start(s);
    let t = trimmed(s);
    lemma_trimmed_start(s);
    lemma_trimmed_end(u);
    let start = s.len() - u.len();
    assert(t =~= s.subrange(start, start + t.len()));
    assert forall|i: int| 0 <= i < s.len() - (start + t.len()) implies is_space(
        #[trigger] s.skip(start + t.len())[i],
    ) by {
        assert(s.skip(start + t.len())[i] == u.skip(t.len() as int)[i]);
    }
    if t.len() > 0 {
        assert(t.first() == u.first());
    }
    start
}

/// Trimming leaves nothing exactly of the blank sequences.
pub proof fn lemma_trimmed_empty_iff_blank(s: Seq<char>)
    ensures
        trimmed(s).len() == 0 <==> is_blank(s),
{
    let start = lemma_trimmed(s);
    let t = trimmed(s);
    if t.len() == 0 {
        assert forall|i: int| 0 <= i < s.len() implies is_space(#[trigger] s[i]) by {
            if i < start {
                assert(s[i] == s.take(start)[i]);
            } else {
                assert(s[i] == s.skip(start)[i - start]);
            }
        }
    } else {
        assert(t.first() == s[start]);
    }
}

/// Every word holds a character, and none holds whitespace.
pub proof fn lemma_words_are_solid(s: Seq<char>)
    ensures
        forall|i: int|
            0 <= i < words(s).len() ==> (#[trigger] words(s)[i]).len() > 0 && free_of(
                words(s)[i],
                Separator::Whitespace,
            ),
{
    let p = pieces(s, Separator::Whitespace);
    let keep = |q: Seq<char>| q.len() > 0;
    lemma_pieces_free_of_separator(s, Separator::Whitespace);
    assert forall|i: int| 0 <= i < words(s).len() implies (#[trigger] words(s)[i]).len() > 0
        && free_of(words(s)[i], Separator::Whitespace) by {
        p.lemma_filter_pred(keep, i);
        p.lemma_filter_contains_rev(keep, words(s)[i]);
        let j = choose|j: int| 0 <= j < p.len() && p[j] == words(s)[i];
        assert(free_of(p[j], Separator::Whitespace));
    }
}

/// The characters of `s` that are not whitespace.
pub open spec fn solid_characters(s: Seq<char>) -> Seq<char> {
    s.filter(|c: char| !is_space(c))
}

/// The words of a sequence, one after the other, are its characters other
/// than whitespace, in order: cutting into words loses no such character
/// and adds none.
pub proof fn lemma_words_keep_characters(s: Seq<char>)
    ensures
        words(s).flatten() == solid_characters(s),
    decreases s.len(),
{
    let sep = Separator::Whitespace;
    reveal(Seq::filter);
    if s.len() == 0 {
        let none = Seq::<Seq<char>>::empty();
        assert(pieces(s, sep) =~= none.push(Seq::<char>::empty()));
        lemma_filled_push(none, Seq::<char>::empty());
        assert(filled(none) =~= none);
        assert(words(s).flatten() =~= solid_characters(s));
    } else {
        let t = s.drop_last();
        let before = pieces(t, sep);
        lemma_words_keep_characters(t);
        lemma_pieces_nonempty(t, sep);
        assert(before =~= before.drop_last().push(before.last()));
        lemma_filled_push(before.drop_last(), before.last());
        let kept = filled(before.drop_last());
        kept.lemma_flatten_push(before.last());
        assert(words(t).flatten() =~= kept.flatten() + before.last());
        if is_space(s.last()) {
            lemma_filled_push(before, Seq::<char>::empty());
        } else {
            lemma_filled_push(before.drop_last(), before.last().push(s.last()));
            kept.lemma_flatten_push(before.last().push(s.last()));
            assert(words(s).flatten() =~= solid_characters(t).push(s.last()));
        }
    }
}

/// A sequence that holds a character and no whitespace is its own single
/// word.
pub proof fn lemma_single_word(s: Seq<char>)
    requires
        s.len() > 0,
        free_of(s, Separator::Whitespace),
    ensures
        words(s) == seq![s],
{
    let none = Seq::<Seq<char>>::empty();
    lemma_pieces_without_separator(s, Separator::Whitespace);
    assert(seq![s] =~= none.push(s));
    lemma_filled_push(none, s);
    assert(filled(none) =~= none) by {
        reveal(Seq::filter);
    }
}

/// A sequence has no word exactly if it is blank.
pub proof fn lemma_no_word_iff_blank(s: Seq<char>)
    ensures
        words(s).len() == 0 <==> is_blank(s),
    decreases s.len(),
{
    let sep = Separator::Whitespace;
    if s.len() == 0 {
        reveal(Seq::filter);
        assert(pieces(s, sep).drop_last() =~= Seq::<Seq<char>>::empty());
        assert(pieces(s, sep) =~= Seq::<Seq<char>>::empty().push(Seq::<char>::empty()));
        lemma_filled_push(Seq::<Seq<char>>::empty(), Seq::<char>::empty());
    } else {
        let t = s.drop_last();
        let before = pieces(t, sep);
        lemma_no_word_iff_blank(t);
        lemma_pieces_nonempty(t, sep);
        if is_space(s.last()) {
            lemma_filled_push(before, Seq::<char>::empty());
            assert(is_blank(t) ==> is_blank(s)) by {
                if is_blank(t) {
                    assert forall|i: int| 0 <= i < s.len() implies is_space(#[trigger] s[i]) by {
                        if i < t.len() {
                            assert(s[i] == t[i]);
                        }
                    }
                }
            }
            assert(is_blank(s) ==> is_blank(t)) by {
                if is_blank(s) {
                    assert forall|i: int| 0 <= i < t.len() implies is_space(#[trigger] t[i]) by {
                        assert(t[i] == s[i]);
                    }
                }
            }
        } else {
            lemma_filled_push(before.drop_last(), before.last().push(s.last()));
            assert(!is_space(s[s.len() - 1]));
        }
    }
}

/// A separator at the front gives an empty piece before the pieces of the
/// rest.
pub proof fn lemma_pieces_after_separator(c: char, s: Seq<char>, sep: Separator)
    requires
        sep.holds(c),
    ensures
        pieces(seq![c] + s, sep) == seq![Seq::<char>::empty()] + pieces(s, sep),
    decreases s.len(),
{
    let whole = seq![c] + s;
    if s.len() == 0 {
        let nothing = Seq::<char>::empty();
        assert(s =~= nothing);
        assert(whole.drop_last() =~= nothing);
        assert(pieces(nothing, sep) =~= seq![nothing]);
        assert(pieces(whole, sep) =~= seq![nothing] + pieces(s, sep));
    } else {
        let t = s.drop_last();
        lemma_pieces_after_separator(c, t, sep);
        lemma_pieces_nonempty(t, sep);
        assert(whole.drop_last() =~= seq![c] + t);
        assert(whole.last() == s.last());
        assert(pieces(whole, sep) =~= seq![Seq::<char>::empty()] + pieces(s, sep));
    }
}

/// Whitespace at either end of a sequence does not change its words.
pub proof fn lemma_words_of_trimmed(s: Seq<char>)
    ensures
        words(trimmed(s)) == words(s),
{
    lemma_words_of_trimmed_start(s);
    lemma_words_of_trimmed_end(trimmed_start(s));
}

/// Whitespace at the start of a sequence does not change its words.
pub proof fn lemma_words_of_trimmed_start(s: Seq<char>)
    ensures
        words(trimmed_start(s)) == words(s),
    decreases s.len(),
{
    if s.len() > 0 && is_space(s.first()) {
        let sep = Separator::Whitespace;
        let t = s.drop_first();
        lemma_words_of_trimmed_start(t);
        assert(s =~= seq![s.first()] + t);
        lemma_pieces_after_separator(s.first(), t, sep);
        let keep = |q: Seq<char>| q.len() > 0;
        Seq::filter_distributes_over_add(seq![Seq::<char>::empty()], pieces(t, sep), keep);
        assert(seq![Seq::<char>::empty()].filter(keep) =~= Seq::<Seq<char>>::empty()) by {
            reveal(Seq::filter);
            let none = Seq::<Seq<char>>::empty();
            assert(seq![Seq::<char>::empty()] =~= none.push(Seq::<char>::empty()));
            lemma_filled_push(none, Seq::<char>::empty());
            assert(filled(none) =~= none);
        }
        assert(words(s) =~= words(t));
    }
}

/// Whitespace at the end of a sequence does not change its words.
pub proof fn lemma_words_of_trimmed_end(s: Seq<char>)
    ensures
        words(trimmed_end(s)) == words(s),
    decreases s.len(),
{
    if s.len() > 0 && is_space(s.last()) {
        let sep = Separator::Whitespace;
        let t = s.drop_last();
        lemma_words_of_trimmed_end(t);
        lemma_filled_push(pieces(t, sep), Seq::<char>::empty());
    }
}

} // verus!
