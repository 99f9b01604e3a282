//! Flashcards: questions and answers written into a note, which are
//! replaced by their rendered form.
//!
//! A card is written on one line, `question: answer #flashcard #tag`, or as
//! a block: a line `question #flashcard #tag`, the lines of the answer, and
//! a line `---` that closes the block.

use crate::parsers::search::{captures, captures_view, regex_captures};
use crate::parsers::Parser;
use crate::text::{
    delimiter, is_delimiter, lemma_replace_all_keeps, lemma_replace_all_once,
    lemma_replace_all_stays, lemma_unlines_front, lines, replace, replace_all, split_lines,
    unlines, views,
};
use vstd::prelude::*;

verus! {

/// A question with its answer and its tags.
#[derive(Debug, PartialEq, Eq)]
pub struct Flashcard {
    pub question: String,
    pub answer: String,
    /// The tags as they were written: `#tag` tokens separated by spaces.
    pub tags: String,
}

/// The view of a flashcard.
pub struct FlashcardView {
    pub question: Seq<char>,
    pub answer: Seq<char>,
    pub tags: Seq<char>,
}

impl View for Flashcard {
    type V = FlashcardView;

    open spec fn view(&self) -> FlashcardView {
        FlashcardView { question: self.question@, answer: self.answer@, tags: self.tags@ }
    }
}

/// What a line is to a parser that is not inside a block.
#[derive(Debug, PartialEq, Eq)]
pub enum LineKind {
    /// A whole card on one line.
    Oneline(Flashcard),
    /// The question that opens a block.
    Regular(String),
    /// Any other line.
    Plain,
}

/// The view of a line's kind.
pub enum LineKindView {
    Oneline(FlashcardView),
    Regular(Seq<char>),
    Plain,
}

impl View for LineKind {
    type V = LineKindView;

    open spec fn view(&self) -> LineKindView {
        match self {
            LineKind::Oneline(card) => LineKindView::Oneline(card@),
            LineKind::Regular(question) => LineKindView::Regular(question@),
            LineKind::Plain => LineKindView::Plain,
        }
    }
}

/// Where the parser stands between two lines.
#[derive(Debug, PartialEq, Eq)]
pub enum State {
    /// Outside a block.
    Idle,
    /// Inside the block of the card, whose answer holds the lines read so
    /// far.
    InRegularBlock(Flashcard),
}

/// The view of a state.
pub enum StateView {
    Idle,
    InRegularBlock(FlashcardView),
}

impl View for State {
    type V = StateView;

    open spec fn view(&self) -> StateView {
        match self {
            State::Idle => StateView::Idle,
            State::InRegularBlock(card) => StateView::InRegularBlock(card@),
        }
    }
}

/// The pattern of a card on one line: question, colon, answer, the marker,
/// and tags if there are any. A space follows the colon, and the answer
/// opens with it.
pub const ONELINE_PATTERN: &'static str = r"(.+):( .*) #flashcard(?: ((?:#[\w\d-]+ ?)+))?";

/// The pattern of a line that opens a block: question, the marker, and tags
/// if there are any.
pub const REGULAR_PATTERN: &'static str = r"(.+) #flashcard(?: ((?:#[\w\d-]+ ?)+))?";

/// The card that a search for `ONELINE_PATTERN` found: question and answer
/// are its first two groups, the tags its third, or empty without one.
pub open spec fn oneline_card(found: Option<Seq<Option<Seq<char>>>>) -> Option<FlashcardView> {
    match found {
        Some(groups) => if groups.len() > 2 && groups[1] is Some && groups[2] is Some {
            Some(
                FlashcardView {
                    question: groups[1]->0,
                    answer: groups[2]->0,
                    tags: if groups.len() > 3 && groups[3] is Some {
                        groups[3]->0
                    } else {
                        Seq::empty()
                    },
                },
            )
        } else {
            None
        },
        None => None,
    }
}

/// The question that a search for `REGULAR_PATTERN` found: its first group.
pub open spec fn regular_question(found: Option<Seq<Option<Seq<char>>>>) -> Option<Seq<char>> {
    match found {
        Some(groups) => if groups.len() > 1 && groups[1] is Some {
            groups[1]
        } else {
            None
        },
        None => None,
    }
}

/// The kind of a line, given what the two searches found. The card on one
/// line comes first: the pattern of a block's first line matches such a
/// line too.
pub open spec fn kind_of(
    oneline: Option<Seq<Option<Seq<char>>>>,
    regular: Option<Seq<Option<Seq<char>>>>,
) -> LineKindView {
    match oneline_card(oneline) {
        Some(card) => LineKindView::Oneline(card),
        None => match regular_question(regular) {
            Some(question) => LineKindView::Regular(question),
            None => LineKindView::Plain,
        },
    }
}

/// The kind of `line`.
pub open spec fn line_kind(line: Seq<char>) -> LineKindView {
    kind_of(regex_captures(ONELINE_PATTERN@, line), regex_captures(REGULAR_PATTERN@, line))
}

/// The card that a search for the pattern of a card on one line found.
pub fn card_of(found: Option<Vec<Option<String>>>) -> (card: Option<Flashcard>)
    ensures
        match card {
            Some(card) => oneline_card(captures_view(found)) == Some(card@),
            None => oneline_card(captures_view(found)) is None,
        },
{
    match found {
        Some(mut groups) => {
            if groups.len() > 2 {
                let tags = if groups.len() > 3 {
                    match groups.swap_remove(3) {
                        Some(tags) => tags,
                        None => String::new(),
                    }
                } else {
                    String::new()
                };
                let answer = groups.swap_remove(2);
                let question = groups.swap_remove(1);
                match (question, answer) {
                    (Some(question), Some(answer)) => Some(Flashcard { question, answer, tags }),
                    _ => None,
                }
            } else {
                None
            }
        },
        None => None,
    }
}

/// The question that a search for the pattern of a block's first line
/// found.
pub fn question_of(found: Option<Vec<Option<String>>>) -> (question: Option<String>)
    ensures
        match question {
            Some(question) => regular_question(captures_view(found)) == Some(question@),
            None => regular_question(captures_view(found)) is None,
        },
{
    match found {
        Some(mut groups) => {
            if groups.len() > 1 {
                groups.swap_remove(1)
            } else {
                None
            }
        },
        None => None,
    }
}

/// Finds out what kind of line `line` is.
pub fn classify(line: &str) -> (kind: LineKind)
    ensures
        kind@ == line_kind(line@),
{
    match card_of(captures(ONELINE_PATTERN, line)) {
        Some(card) => LineKind::Oneline(card),
        None => match question_of(captures(REGULAR_PATTERN, line)) {
            Some(question) => LineKind::Regular(question),
            None => LineKind::Plain,
        },
    }
}

/// The markup that a card is rendered with. It holds each of `QUESTION`,
/// `ANSWER` and `TAGS` once. Question and answer stand on lines of their
/// own, the answer after an empty line, so that it is read as Markdown. The
/// tags follow the answer in an element of the class `tags`, on the line of
/// its opening and its closing tag: nothing but their place in a card is
/// laid down for them, and this markup is the choice made here.
pub const CARD_TEMPLATE: &'static str = r#"<div class="flashcard">
<div class="question">
{question}
</div>
<div class="answer">

{answer}
</div>
<div class="tags">{tags}</div>
</div>"#;

/// What stands for the question in the markup of a card.
pub const QUESTION: &'static str = "{question}";

/// What stands for the answer in the markup of a card.
pub const ANSWER: &'static str = "{answer}";

/// What stands for the tags in the markup of a card.
pub const TAGS: &'static str = "{tags}";

/// `template` with the parts of `card` in place of `{question}`, `{answer}`
/// and `{tags}`, put in one after the other, in this order, each wherever
/// its placeholder then stands.
pub open spec fn rendered(template: Seq<char>, card: FlashcardView) -> Seq<char> {
    replace_all(
        replace_all(replace_all(template, QUESTION@, card.question), ANSWER@, card.answer),
        TAGS@,
        card.tags,
    )
}

/// What the markup of a card holds before the question.
pub const CARD_START: &'static str = "<div class=\"flashcard\">\n<div class=\"question\">\n";

/// What the markup of a card holds between the question and the answer.
pub const CARD_ANSWER: &'static str = "\n</div>\n<div class=\"answer\">\n\n";

/// What the markup of a card holds between the answer and the tags.
pub const CARD_TAGS: &'static str = "\n</div>\n<div class=\"tags\">";

/// What the markup of a card holds after the tags.
pub const CARD_END: &'static str = "</div>\n</div>";

/// Whether `text` holds no opening brace, and so no start of a placeholder.
pub open spec fn is_plain(text: Seq<char>) -> bool {
    forall|i: int| 0 <= i < text.len() ==> text[i] != '{'
}

/// The markup of `card`: the markup of a card with question, answer and
/// tags each at its place.
pub open spec fn card_markup(card: FlashcardView) -> Seq<char> {
    CARD_START@ + card.question + CARD_ANSWER@ + card.answer + CARD_TAGS@ + card.tags + CARD_END@
}

/// `CARD_TEMPLATE` is the markup of a card with `QUESTION`, `ANSWER` and
/// `TAGS` each at its place, once.
pub proof fn lemma_card_template()
    ensures
        CARD_TEMPLATE@ == CARD_START@ + QUESTION@ + CARD_ANSWER@ + ANSWER@ + CARD_TAGS@ + TAGS@
            + CARD_END@,
        is_plain(CARD_START@),
        is_plain(CARD_ANSWER@),
        is_plain(CARD_TAGS@),
        is_plain(CARD_END@),
{
    reveal_strlit(
        r#"<div class="flashcard">
<div class="question">
{question}
</div>
<div class="answer">

{answer}
</div>
<div class="tags">{tags}</div>
</div>"#,
    );
    reveal_strlit("<div class=\"flashcard\">\n<div class=\"question\">\n");
    reveal_strlit("\n</div>\n<div class=\"answer\">\n\n");
    reveal_strlit("\n</div>\n<div class=\"tags\">");
    reveal_strlit("</div>\n</div>");
    reveal_strlit("{question}");
    reveal_strlit("{answer}");
    reveal_strlit("{tags}");
    assert(CARD_TEMPLATE@ =~= CARD_START@ + QUESTION@ + CARD_ANSWER@ + ANSWER@ + CARD_TAGS@ + TAGS@
        + CARD_END@);
}

/// Whether `text` opens with a brace, goes on with `mark` and holds no
/// other brace: what tells one placeholder from another.
pub open spec fn is_placeholder(text: Seq<char>, mark: char) -> bool {
    &&& text.len() >= 2
    &&& text[0] == '{'
    &&& text[1] == mark
    &&& forall|i: int| 1 <= i < text.len() ==> text[i] != '{'
}

/// The three placeholders differ in the character after the brace.
pub proof fn lemma_placeholders()
    ensures
        is_placeholder(QUESTION@, 'q'),
        is_placeholder(ANSWER@, 'a'),
        is_placeholder(TAGS@, 't'),
{
    reveal_strlit("{question}");
    reveal_strlit("{answer}");
    reveal_strlit("{tags}");
}

/// The markup of a card with the question in place.
proof fn lemma_question_goes_in(question: Seq<char>)
    ensures
        replace_all(CARD_TEMPLATE@, QUESTION@, question) == CARD_START@ + question + CARD_ANSWER@
            + ANSWER@ + CARD_TAGS@ + TAGS@ + CARD_END@,
{
    lemma_card_template();
    lemma_placeholders();
    let from = QUESTION@;
    lemma_replace_all_stays(CARD_END@, from, question);
    lemma_replace_all_keeps(CARD_TAGS@, TAGS@, CARD_END@, from, question);
    let tags = CARD_TAGS@ + TAGS@ + CARD_END@;
    lemma_replace_all_keeps(CARD_ANSWER@, ANSWER@, tags, from, question);
    let after = CARD_ANSWER@ + ANSWER@ + tags;
    lemma_replace_all_once(CARD_START@, after, from, question);
    assert(CARD_TEMPLATE@ =~= CARD_START@ + from + after);
    assert(CARD_START@ + question + after =~= CARD_START@ + question + CARD_ANSWER@ + ANSWER@
        + CARD_TAGS@ + TAGS@ + CARD_END@);
}

/// The markup of a card with the answer in place.
proof fn lemma_answer_goes_in(question: Seq<char>, answer: Seq<char>)
    requires
        is_plain(question),
    ensures
        replace_all(
            CARD_START@ + question + CARD_ANSWER@ + ANSWER@ + CARD_TAGS@ + TAGS@ + CARD_END@,
            ANSWER@,
            answer,
        ) == CARD_START@ + question + CARD_ANSWER@ + answer + CARD_TAGS@ + TAGS@ + CARD_END@,
{
    lemma_card_template();
    lemma_placeholders();
    let from = ANSWER@;
    lemma_replace_all_stays(CARD_END@, from, answer);
    lemma_replace_all_keeps(CARD_TAGS@, TAGS@, CARD_END@, from, answer);
    let after = CARD_TAGS@ + TAGS@ + CARD_END@;
    let before = CARD_START@ + question + CARD_ANSWER@;
    lemma_replace_all_once(before, after, from, answer);
    assert(before + from + after =~= CARD_START@ + question + CARD_ANSWER@ + ANSWER@ + CARD_TAGS@
        + TAGS@ + CARD_END@);
    assert(before + answer + after =~= CARD_START@ + question + CARD_ANSWER@ + answer + CARD_TAGS@
        + TAGS@ + CARD_END@);
}

/// The markup of a card with the tags in place.
proof fn lemma_tags_go_in(card: FlashcardView)
    requires
        is_plain(card.question),
        is_plain(card.answer),
    ensures
        replace_all(
            CARD_START@ + card.question + CARD_ANSWER@ + card.answer + CARD_TAGS@ + TAGS@
                + CARD_END@,
            TAGS@,
            card.tags,
        ) == card_markup(card),
{
    lemma_card_template();
    lemma_placeholders();
    let from = TAGS@;
    lemma_replace_all_stays(CARD_END@, from, card.tags);
    let before = CARD_START@ + card.question + CARD_ANSWER@ + card.answer + CARD_TAGS@;
    lemma_replace_all_once(before, CARD_END@, from, card.tags);
}

/// The rendering of a card whose question and answer hold no opening brace
/// is the markup of the card: question, answer and tags stand each at its
/// place, and no placeholder is left.
pub proof fn lemma_rendered_card(card: FlashcardView)
    requires
        is_plain(card.question),
        is_plain(card.answer),
    ensures
        rendered(CARD_TEMPLATE@, card) == card_markup(card),
{
    lemma_question_goes_in(card.question);
    lemma_answer_goes_in(card.question, card.answer);
    lemma_tags_go_in(card);
}

/// The card of a block that `question` opens.
pub open spec fn opened(question: Seq<char>) -> FlashcardView {
    FlashcardView { question, answer: Seq::empty(), tags: Seq::empty() }
}

/// What a line of the kind `kind` leads to outside a block: the next state
/// and what stands for the line in the output. A card on one line is
/// rendered; a question opens a block and leaves nothing; any other line
/// stays.
pub open spec fn after_idle(template: Seq<char>, line: Seq<char>, kind: LineKindView) -> (
    StateView,
    Seq<char>,
) {
    match kind {
        LineKindView::Oneline(card) => (StateView::Idle, rendered(template, card)),
        LineKindView::Regular(question) => (
            StateView::InRegularBlock(opened(question)),
            Seq::empty(),
        ),
        LineKindView::Plain => (StateView::Idle, line),
    }
}

/// What `line` leads to inside the block of `card`: the delimiter closes
/// the block and the card is rendered; any other line joins the answer,
/// with a line feed after it, and leaves nothing.
pub open spec fn after_block(template: Seq<char>, card: FlashcardView, line: Seq<char>) -> (
    StateView,
    Seq<char>,
) {
    if line == delimiter() {
        (StateView::Idle, rendered(template, card))
    } else {
        (
            StateView::InRegularBlock(
                FlashcardView { answer: card.answer + line.push('\n'), ..card },
            ),
            Seq::empty(),
        )
    }
}

/// What `line` leads to in `state`. Inside a block a line is never looked
/// at for the syntax of a card.
pub open spec fn after(template: Seq<char>, state: StateView, line: Seq<char>) -> (
    StateView,
    Seq<char>,
) {
    match state {
        StateView::Idle => after_idle(template, line, line_kind(line)),
        StateView::InRegularBlock(card) => after_block(template, card, line),
    }
}

/// The output for `lines`, read from `state` on: what each line leaves,
/// followed by a line feed. A block that is still open after the last line
/// leaves nothing of its card.
pub open spec fn transformed(template: Seq<char>, state: StateView, lines: Seq<Seq<char>>) -> Seq<
    char,
>
    decreases lines.len(),
{
    if lines.len() == 0 {
        Seq::empty()
    } else {
        let (next, output) = after(template, state, lines[0]);
        output.push('\n') + transformed(template, next, lines.skip(1))
    }
}

/// Lines that hold no card stay as they are: outside a block, plain lines
/// come out one after the other, each followed by a line feed.
pub proof fn lemma_plain_lines_stay(template: Seq<char>, lines: Seq<Seq<char>>)
    requires
        forall|i: int| 0 <= i < lines.len() ==> line_kind(#[trigger] lines[i]) == LineKindView::Plain,
    ensures
        transformed(template, StateView::Idle, lines) == unlines(lines),
    decreases lines.len(),
{
    if lines.len() > 0 {
        let rest = lines.skip(1);
        lemma_plain_lines_stay(template, rest);
        lemma_unlines_front(lines[0], rest);
        assert(seq![lines[0]] + rest == lines);
    }
}

/// A block that no delimiter closes leaves nothing of its card: each of its
/// lines comes out as a line feed.
pub proof fn lemma_open_block_is_dropped(
    template: Seq<char>,
    card: FlashcardView,
    lines: Seq<Seq<char>>,
)
    requires
        forall|i: int| 0 <= i < lines.len() ==> #[trigger] lines[i] != delimiter(),
    ensures
        transformed(template, StateView::InRegularBlock(card), lines) == Seq::new(
            lines.len(),
            |i: int| '\n',
        ),
    decreases lines.len(),
{
    if lines.len() > 0 {
        let rest = lines.skip(1);
        let next = FlashcardView { answer: card.answer + lines[0].push('\n'), ..card };
        lemma_open_block_is_dropped(template, next, rest);
    }
}

/// Finds the flashcards in a text and puts their rendered form in their
/// place.
pub struct FlashcardParser {
    template: String,
}

impl FlashcardParser {
    /// The markup that cards are rendered with.
    pub closed spec fn template(&self) -> Seq<char> {
        self.template@
    }

    /// A parser that renders with `CARD_TEMPLATE`.
    pub fn new() -> (out: Self)
        ensures
            out.template() == CARD_TEMPLATE@,
    {
        Self { template: CARD_TEMPLATE.to_owned() }
    }

    /// Renders `flashcard`.
    pub fn format_flashcard(&self, flashcard: &Flashcard) -> (out: String)
        ensures
            out@ == rendered(self.template(), flashcard@),
    {
        let out = replace(self.template.as_str(), QUESTION, flashcard.question.as_str());
        let out = replace(out.as_str(), ANSWER, flashcard.answer.as_str());
        replace(out.as_str(), TAGS, flashcard.tags.as_str())
    }

    /// Reads `line`, of the kind `kind`, outside a block.
    pub fn step_idle(&self, line: &str, kind: LineKind) -> (step: (State, String))
        ensures
            (step.0@, step.1@) == after_idle(self.template(), line@, kind@),
    {
        match kind {
            LineKind::Oneline(card) => {
                let output = self.format_flashcard(&card);
                (State::Idle, output)
            },
            LineKind::Regular(question) => {
                let card = Flashcard { question, answer: String::new(), tags: String::new() };
                (State::InRegularBlock(card), String::new())
            },
            LineKind::Plain => (State::Idle, line.to_owned()),
        }
    }

    /// Reads `line` inside the block of `card`.
    pub fn step_block(&self, card: Flashcard, line: &str) -> (step: (State, String))
        ensures
            (step.0@, step.1@) == after_block(self.template(), card@, line@),
    {
        if is_delimiter(line) {
            let output = self.format_flashcard(&card);
            (State::Idle, output)
        } else {
            let mut card = card;
            card.answer.append(line);
            card.answer.push('\n');
            (State::InRegularBlock(card), String::new())
        }
    }
}

impl Parser for FlashcardParser {
    open spec fn parsed(&self, content: Seq<char>) -> Seq<char> {
        transformed(self.template(), StateView::Idle, lines(content))
    }

    fn parse(&self, content: &str) -> (out: String) {
        let all = split_lines(content);
        let mut out = String::new();
        let mut state = State::Idle;
        let mut i: usize = 0;
        assert(views(all@).skip(0) == views(all@));
        while i < all.len()
            invariant
                i <= all.len(),
                out@ + transformed(self.template(), state@, views(all@).skip(i as int))
                    == transformed(self.template(), StateView::Idle, views(all@)),
            decreases all.len() - i,
        {
            let ghost rest = views(all@).skip(i as int);
            let line = all[i].as_str();
            let (next, output) = match state {
                State::Idle => {
                    let kind = classify(line);
                    self.step_idle(line, kind)
                },
                State::InRegularBlock(card) => self.step_block(card, line),
            };
            out.append(output.as_str());
            out.push('\n');
            state = next;
            i += 1;
            proof {
                assert(rest.skip(1) == views(all@).skip(i as int));
            }
        }
        out
    }
}

} // verus!
