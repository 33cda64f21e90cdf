//! The stages of a pipeline: what each segment of a line asks for.
use vstd::prelude::*;
use crate::text::{char_views, chars_of, is_blank, string_of, string_views, strings_of};
use crate::lex::{pieces, segments, split_segments, tokenize, trimmed, words, Separator};
use crate::lex_proofs::{
    lemma_no_word_iff_blank, lemma_trimmed_empty_iff_blank, lemma_words_of_trimmed,
};

verus! {

/// One stage of a pipeline.
#[derive(Clone, Debug, PartialEq, Eq)]
pub enum Stage {
    /// A segment that holds nothing but whitespace.
    Empty,
    /// The builtin `cd`, which runs in the shell itself. `target` is its
    /// first argument, if it has one; further arguments are ignored.
    ChangeDirectory { target: Option<String> },
    /// A program to be run as a child process.
    External { program: String, arguments: Vec<String> },
}

/// What a [`Stage`] stands for.
pub enum StageView {
    Empty,
    ChangeDirectory { target: Option<Seq<char>> },
    External { program: Seq<char>, arguments: Seq<Seq<char>> },
}

impl StageView {
    /// The first word of the segment that the stage was read from; for a
    /// segment without words, a placeholder.
    pub open spec fn name(self) -> Seq<char> {
        match self {
            StageView::Empty => "Unknown command"@,
            StageView::ChangeDirectory { .. } => builtin_name(),
            StageView::External { program, .. } => program,
        }
    }
}

impl View for Stage {
    type V = StageView;

    open spec fn view(&self) -> StageView {
        match self {
            Stage::Empty => StageView::Empty,
            Stage::ChangeDirectory { target } => StageView::ChangeDirectory {
                target: match target {
                    Some(t) => Some(t@),
                    None => None,
                },
            },
            Stage::External { program, arguments } => StageView::External {
                program: program@,
                arguments: string_views(arguments@),
            },
        }
    }
}

impl Stage {
    /// The first word of the segment that the stage was read from; for a
    /// segment without words, a placeholder.
    pub fn name(&self) -> (s: String)
        ensures
            s@ == self@.name(),
    {
        match self {
            Stage::Empty => "Unknown command".to_owned(),
            Stage::ChangeDirectory { .. } => {
                proof {
                    reveal_strlit("cd");
                    assert("cd"@ =~= builtin_name());
                }
                "cd".to_owned()
            },
            Stage::External { program, .. } => program.clone(),
        }
    }
}

/// The views of a sequence of stages.
pub open spec fn stage_views(v: Seq<Stage>) -> Seq<StageView> {
    v.map_values(|s: Stage| s@)
}

/// The name of the builtin that changes the working directory.
pub open spec fn builtin_name() -> Seq<char> {
    seq!['c', 'd']
}

/// The stage that a segment with the words `w` asks for: none if it has no
/// word, the builtin if its first word is `cd`, else the program named by
/// its first word, with the words after it as arguments.
pub open spec fn stage_of(w: Seq<Seq<char>>) -> StageView {
    if w.len() == 0 {
        StageView::Empty
    } else if w[0] == builtin_name() {
        StageView::ChangeDirectory {
            target: if w.len() > 1 {
                Some(w[1])
            } else {
                None
            },
        }
    } else {
        StageView::External { program: w[0], arguments: w.skip(1) }
    }
}

/// The stages of a line, one for each of its segments, in order.
pub open spec fn pipeline(line: Seq<char>) -> Seq<StageView> {
    segments(line).map_values(|s: Seq<char>| stage_of(words(s)))
}

/// Whether `word` is the name of the builtin `cd`.
pub fn is_builtin(word: &Vec<char>) -> (b: bool)
    ensures
        b == (word@ == builtin_name()),
{
    let b = word.len() == 2 && word[0] == 'c' && word[1] == 'd';
    proof {
        if b {
            assert(word@ =~= builtin_name());
        }
    }
    b
}

/// Decides what stage the words of a segment ask for.
pub fn classify(w: &Vec<Vec<char>>) -> (stage: Stage)
    ensures
        stage@ == stage_of(char_views(w@)),
{
    if w.len() == 0 {
        Stage::Empty
    } else if is_builtin(&w[0]) {
        if w.len() > 1 {
            Stage::ChangeDirectory { target: Some(string_of(&w[1])) }
        } else {
            Stage::ChangeDirectory { target: None }
        }
    } else {
        let mut arguments = strings_of(w);
        let ghost names = string_views(arguments@);
        let program = arguments.remove(0);
        proof {
            assert(program@ == names[0]);
            assert(string_views(arguments@) =~= names.skip(1));
        }
        Stage::External { program, arguments }
    }
}

/// Reads a line as a pipeline.
pub fn parse_pipeline(line: &str) -> (stages: Vec<Stage>)
    ensures
        stage_views(stages@) == pipeline(line@),
{
    let chars = chars_of(line);
    let segs = split_segments(&chars);
    let mut stages: Vec<Stage> = Vec::new();
    let mut i: usize = 0;
    while i < segs.len()
        invariant
            i <= segs.len(),
            stages.len() == i,
            forall|j: int| 0 <= j < i ==> (#[trigger] stages@[j])@ == stage_of(words(segs@[j]@)),
        decreases segs.len() - i,
    {
        let w = tokenize(&segs[i]);
        stages.push(classify(&w));
        i = i + 1;
    }
    proof {
        assert forall|j: int| 0 <= j < stages.len() implies stage_views(stages@)[j] == pipeline(
            line@,
        )[j] by {
            assert(char_views(segs@)[j] == segments(line@)[j]);
        }
        assert(stage_views(stages@) =~= pipeline(line@));
    }
    stages
}

/// Whitespace around a segment does not change the stage that it asks for.
pub proof fn lemma_stage_ignores_margins(segment: Seq<char>)
    ensures
        stage_of(words(trimmed(segment))) == stage_of(words(segment)),
{
    lemma_words_of_trimmed(segment);
}

/// A segment asks for no stage exactly if it is blank. So a trimmed segment
/// that holds a character always has a first word, its command.
pub proof fn lemma_empty_stage_iff_blank(segment: Seq<char>)
    ensures
        stage_of(words(trimmed(segment))) is Empty <==> is_blank(segment),
        trimmed(segment).len() > 0 ==> words(trimmed(segment)).len() > 0,
{
    lemma_words_of_trimmed(segment);
    lemma_no_word_iff_blank(segment);
    lemma_trimmed_empty_iff_blank(segment);
}

/// The stage at `index` of a line is read from the piece at `index` between
/// the pipes of the line, and there are as many stages as pieces.
pub proof fn lemma_stage_of_piece(line: Seq<char>, index: int)
    requires
        0 <= index < pieces(line, Separator::Pipe).len(),
    ensures
        pipeline(line).len() == pieces(line, Separator::Pipe).len(),
        pipeline(line)[index] == stage_of(words(pieces(line, Separator::Pipe)[index])),
{
    lemma_words_of_trimmed(pieces(line, Separator::Pipe)[index]);
}

} // verus!
