//! Clarifying questions put to a user: validation of the questions, and the
//! scripted question-and-answer exchange over a line-oriented transcript.

use vstd::prelude::*;

use crate::strutil::chars_to_string;
use crate::strutil::str_to_chars;

verus! {

/// The most questions one elicitation may carry.
pub const MAX_QUESTIONS: usize = 4;

/// The fewest options a question may offer.
pub const MIN_OPTIONS: usize = 2;

/// The most options a question may offer.
pub const MAX_OPTIONS: usize = 4;

/// The longest allowed header, in characters.
pub const MAX_HEADER_CHARS: usize = 12;

/// The most words an option label may have.
pub const MAX_LABEL_WORDS: usize = 5;

/// Elicitation error kinds. Each carries a stable short code.
#[derive(Debug, Clone, PartialEq, Eq)]
pub enum ElicitationError {
    /// No questions were provided.
    NoQuestions,
    /// More questions than allowed; carries the count.
    TooManyQuestions(usize),
    /// A question's text is empty; carries the question index.
    EmptyQuestion(usize),
    /// A question's header is empty.
    EmptyHeader(usize),
    /// A question's header exceeds the character limit.
    HeaderTooLong(usize),
    /// A question offers too few options.
    TooFewOptions(usize),
    /// A question offers too many options.
    TooManyOptions(usize),
    /// An option's label is empty; carries question and option index.
    EmptyLabel(usize, usize),
    /// An option's label exceeds the word limit.
    LabelTooLong(usize, usize),
    /// An option's description is empty.
    EmptyDescription(usize, usize),
    /// A selection index out of range; carries question index and the
    /// selection.
    InvalidSelection(usize, usize),
    /// Multiple selections where only one is allowed.
    MultipleSelectionsNotAllowed(usize),
    /// An IO error, by message.
    Io(String),
    /// The user cancelled the elicitation.
    Cancelled,
}

impl ElicitationError {
    /// The stable short code of this error kind.
    pub fn code(&self) -> (r: &'static str)
        ensures
            r@ == self.code_spec(),
    {
        match self {
            ElicitationError::NoQuestions => "NO_QUESTIONS",
            ElicitationError::TooManyQuestions(_) => "TOO_MANY_QUESTIONS",
            ElicitationError::EmptyQuestion(_) => "EMPTY_QUESTION",
            ElicitationError::EmptyHeader(_) => "EMPTY_HEADER",
            ElicitationError::HeaderTooLong(_) => "HEADER_TOO_LONG",
            ElicitationError::TooFewOptions(_) => "TOO_FEW_OPTIONS",
            ElicitationError::TooManyOptions(_) => "TOO_MANY_OPTIONS",
            ElicitationError::EmptyLabel(_, _) => "EMPTY_LABEL",
            ElicitationError::LabelTooLong(_, _) => "LABEL_TOO_LONG",
            ElicitationError::EmptyDescription(_, _) => "EMPTY_DESCRIPTION",
            ElicitationError::InvalidSelection(_, _) => "INVALID_SELECTION",
            ElicitationError::MultipleSelectionsNotAllowed(_) => "MULTIPLE_SELECTIONS_NOT_ALLOWED",
            ElicitationError::Io(_) => "IO_ERROR",
            ElicitationError::Cancelled => "CANCELLED",
        }
    }

    /// What `code` returns for each variant.
    pub open spec fn code_spec(&self) -> Seq<char> {
        match self {
            ElicitationError::NoQuestions => "NO_QUESTIONS"@,
            ElicitationError::TooManyQuestions(_) => "TOO_MANY_QUESTIONS"@,
            ElicitationError::EmptyQuestion(_) => "EMPTY_QUESTION"@,
            ElicitationError::EmptyHeader(_) => "EMPTY_HEADER"@,
            ElicitationError::HeaderTooLong(_) => "HEADER_TOO_LONG"@,
            ElicitationError::TooFewOptions(_) => "TOO_FEW_OPTIONS"@,
            ElicitationError::TooManyOptions(_) => "TOO_MANY_OPTIONS"@,
            ElicitationError::EmptyLabel(_, _) => "EMPTY_LABEL"@,
            ElicitationError::LabelTooLong(_, _) => "LABEL_TOO_LONG"@,
            ElicitationError::EmptyDescription(_, _) => "EMPTY_DESCRIPTION"@,
            ElicitationError::InvalidSelection(_, _) => "INVALID_SELECTION"@,
            ElicitationError::MultipleSelectionsNotAllowed(_) => "MULTIPLE_SELECTIONS_NOT_ALLOWED"@,
            ElicitationError::Io(_) => "IO_ERROR"@,
            ElicitationError::Cancelled => "CANCELLED"@,
        }
    }
}

/// One choice offered to the user.
#[derive(Debug, Clone)]
pub struct QuestionOption {
    /// Display text for this option.
    pub label: String,
    /// Explanation of what this option means.
    pub description: String,
}

/// One question put to the user.
#[derive(Debug, Clone)]
pub struct Question {
    /// The complete question to ask.
    pub question: String,
    /// Short label displayed as a tag.
    pub header: String,
    /// Whether multiple options can be selected.
    pub multi_select: bool,
    /// Available choices; an Other option is offered automatically.
    pub options: Vec<QuestionOption>,
}

/// A user's answer to one question.
#[derive(Debug, Clone)]
pub enum Answer {
    /// A single selection.
    Single(String),
    /// Multiple selections.
    Multiple(Vec<String>),
}

/// The questions of one elicitation.
#[derive(Debug, Clone)]
pub struct ClarifyInput {
    /// Questions to ask, in order.
    pub questions: Vec<Question>,
}

/// The answers of one elicitation, one per question and in question order
/// unless the user cancelled.
#[derive(Debug, Clone)]
pub struct ClarifyOutput {
    /// Answers, indexed by question.
    pub answers: Vec<Answer>,
    /// Whether the user cancelled.
    pub cancelled: bool,
}

impl ClarifyOutput {
    /// The answer to question `idx`, if one was given.
    pub fn get_answer(&self, idx: usize) -> (r: Option<&Answer>)
        ensures
            idx < self.answers@.len() ==> (r matches Some(a) && *a == self.answers@[idx as int]),
            idx >= self.answers@.len() ==> r is None,
    {
        if idx < self.answers.len() {
            Some(&self.answers[idx])
        } else {
            None
        }
    }
}

/// Whether `c` is ASCII whitespace.
pub open spec fn is_ws(c: char) -> bool {
    c == ' ' || c == '\t' || c == '\r' || c == '\n'
}

/// Whether a text is blank: empty or all whitespace.
pub open spec fn all_ws(s: Seq<char>) -> bool {
    forall|i: int| 0 <= i < s.len() ==> is_ws(#[trigger] s[i])
}

/// Whether a text is blank: it trims away to nothing.
pub fn is_blank(s: &str) -> (r: bool)
    ensures
        r == all_ws(s@),
{
    let cs = str_to_chars(s);
    let mut i: usize = 0;
    while i < cs.len()
        invariant
            i <= cs.len(),
            cs@ == s@,
            forall|j: int| 0 <= j < i ==> is_ws(#[trigger] cs@[j]),
        decreases cs.len() - i,
    {
        let c = cs[i];
        if !(c == ' ' || c == '\t' || c == '\r' || c == '\n') {
            return false;
        }
        i = i + 1;
    }
    true
}

/// The number of whitespace-separated words in a text.
pub open spec fn count_words_spec(s: Seq<char>) -> int {
    count_words_from(s, 0, false, 0)
}

/// The accumulator form of word counting: scanning from `i` with `in_word`
/// telling whether a word is open and `acc` words already closed.
pub open spec fn count_words_from(s: Seq<char>, i: int, in_word: bool, acc: int) -> int
    decreases s.len() - i,
{
    if i < 0 || i >= s.len() {
        acc
    } else if is_ws(s[i]) {
        count_words_from(s, i + 1, false, acc)
    } else if in_word {
        count_words_from(s, i + 1, true, acc)
    } else {
        count_words_from(s, i + 1, true, acc + 1)
    }
}

/// Count the whitespace-separated words of a text.
pub fn count_words(s: &str) -> (r: usize)
    ensures
        r == count_words_spec(s@),
{
    let cs = str_to_chars(s);
    let mut count: usize = 0;
    let mut in_word = false;
    let mut i: usize = 0;
    while i < cs.len()
        invariant
            i <= cs.len(),
            cs@ == s@,
            count <= i,
            count_words_from(cs@, i as int, in_word, count as int) == count_words_spec(s@),
        decreases cs.len() - i,
    {
        let c = cs[i];
        if c == ' ' || c == '\t' || c == '\r' || c == '\n' {
            in_word = false;
        } else if !in_word {
            in_word = true;
            count = count + 1;
        }
        i = i + 1;
    }
    count
}

/// The first fault of a single option, checked in order: an empty label, a
/// label beyond the word limit, an empty description.
pub open spec fn option_issue(opt: QuestionOption, q_idx: usize, o_idx: usize) -> Option<
    ElicitationError,
> {
    if all_ws(opt.label@) {
        Some(ElicitationError::EmptyLabel(q_idx, o_idx))
    } else if count_words_spec(opt.label@) > MAX_LABEL_WORDS {
        Some(ElicitationError::LabelTooLong(q_idx, o_idx))
    } else if all_ws(opt.description@) {
        Some(ElicitationError::EmptyDescription(q_idx, o_idx))
    } else {
        None
    }
}

/// The first fault of a question, checked in order: blank text, blank or
/// over-long header, too few or too many options, then each option.
pub open spec fn question_issue(q: Question, q_idx: usize) -> Option<ElicitationError> {
    if all_ws(q.question@) {
        Some(ElicitationError::EmptyQuestion(q_idx))
    } else if all_ws(q.header@) {
        Some(ElicitationError::EmptyHeader(q_idx))
    } else if q.header@.len() > MAX_HEADER_CHARS {
        Some(ElicitationError::HeaderTooLong(q_idx))
    } else if q.options@.len() < MIN_OPTIONS {
        Some(ElicitationError::TooFewOptions(q_idx))
    } else if q.options@.len() > MAX_OPTIONS {
        Some(ElicitationError::TooManyOptions(q_idx))
    } else {
        first_option_issue(q.options@, q_idx, 0)
    }
}

/// The first fault among the options from index `o` on.
pub open spec fn first_option_issue(
    options: Seq<QuestionOption>,
    q_idx: usize,
    o: int,
) -> Option<ElicitationError>
    decreases options.len() - o,
{
    if o < 0 || o >= options.len() {
        None
    } else if option_issue(options[o], q_idx, o as usize) is Some {
        option_issue(options[o], q_idx, o as usize)
    } else {
        first_option_issue(options, q_idx, o + 1)
    }
}

/// Check a list of questions. Rejects an empty or over-long list, then
/// reports the first fault of the first faulty question, in order.
pub fn validate_questions(questions: &Vec<Question>) -> (r: Result<(), ElicitationError>)
    ensures
        match r {
            Ok(_) => {
                &&& 1 <= questions@.len() <= MAX_QUESTIONS
                &&& forall|k: int|
                    0 <= k < questions@.len() ==> question_issue(
                        #[trigger] questions@[k],
                        k as usize,
                    ) is None
            },
            Err(e) => {
                ||| (questions@.len() == 0 && e == ElicitationError::NoQuestions)
                ||| (questions@.len() > MAX_QUESTIONS && e == ElicitationError::TooManyQuestions(
                    questions@.len() as usize,
                ))
                ||| (1 <= questions@.len() <= MAX_QUESTIONS && exists|k: int|
                    0 <= k < questions@.len() && question_issue(#[trigger] questions@[k], k as usize)
                        == Some(e) && forall|j: int|
                        0 <= j < k ==> question_issue(#[trigger] questions@[j], j as usize) is None)
            },
        },
{
    if questions.len() == 0 {
        return Err(ElicitationError::NoQuestions);
    }
    if questions.len() > MAX_QUESTIONS {
        return Err(ElicitationError::TooManyQuestions(questions.len()));
    }
    let mut q_idx: usize = 0;
    while q_idx < questions.len()
        invariant
            q_idx <= questions@.len(),
            1 <= questions@.len() <= MAX_QUESTIONS,
            forall|j: int|
                0 <= j < q_idx ==> question_issue(#[trigger] questions@[j], j as usize) is None,
        decreases questions@.len() - q_idx,
    {
        let q = &questions[q_idx];
        if is_blank(q.question.as_str()) {
            return Err(ElicitationError::EmptyQuestion(q_idx));
        }
        if is_blank(q.header.as_str()) {
            return Err(ElicitationError::EmptyHeader(q_idx));
        }
        let header_chars = str_to_chars(q.header.as_str());
        if header_chars.len() > MAX_HEADER_CHARS {
            return Err(ElicitationError::HeaderTooLong(q_idx));
        }
        if q.options.len() < MIN_OPTIONS {
            return Err(ElicitationError::TooFewOptions(q_idx));
        }
        if q.options.len() > MAX_OPTIONS {
            return Err(ElicitationError::TooManyOptions(q_idx));
        }
        let mut o_idx: usize = 0;
        while o_idx < q.options.len()
            invariant
                o_idx <= q.options@.len(),
                0 <= q_idx < questions@.len(),
                1 <= questions@.len() <= MAX_QUESTIONS,
                q == questions@[q_idx as int],
                !all_ws(q.question@),
                !all_ws(q.header@),
                q.header@.len() <= MAX_HEADER_CHARS,
                MIN_OPTIONS <= q.options@.len() <= MAX_OPTIONS,
                forall|j: int|
                    0 <= j < q_idx ==> question_issue(#[trigger] questions@[j], j as usize) is None,
                forall|j: int|
                    0 <= j < o_idx ==> option_issue(
                        #[trigger] q.options@[j],
                        q_idx,
                        j as usize,
                    ) is None,
            decreases q.options@.len() - o_idx,
        {
            let opt = &q.options[o_idx];
            if is_blank(opt.label.as_str()) {
                proof {
                    lemma_first_option_issue_at(q.options@, q_idx, o_idx as int);
                    assert(question_issue(questions@[q_idx as int], q_idx) == Some(
                        ElicitationError::EmptyLabel(q_idx, o_idx),
                    ));
                }
                return Err(ElicitationError::EmptyLabel(q_idx, o_idx));
            }
            if count_words(opt.label.as_str()) > MAX_LABEL_WORDS {
                proof {
                    lemma_first_option_issue_at(q.options@, q_idx, o_idx as int);
                    assert(question_issue(questions@[q_idx as int], q_idx) == Some(
                        ElicitationError::LabelTooLong(q_idx, o_idx),
                    ));
                }
                return Err(ElicitationError::LabelTooLong(q_idx, o_idx));
            }
            if is_blank(opt.description.as_str()) {
                proof {
                    lemma_first_option_issue_at(q.options@, q_idx, o_idx as int);
                    assert(question_issue(questions@[q_idx as int], q_idx) == Some(
                        ElicitationError::EmptyDescription(q_idx, o_idx),
                    ));
                }
                return Err(ElicitationError::EmptyDescription(q_idx, o_idx));
            }
            o_idx = o_idx + 1;
        }
        proof {
            lemma_no_option_issue(q.options@, q_idx, 0);
        }
        q_idx = q_idx + 1;
    }
    Ok(())
}

/// When every option before `o` is clean and option `o` is faulty, the
/// first fault of the whole list is the fault of option `o`.
proof fn lemma_first_option_issue_at(options: Seq<QuestionOption>, q_idx: usize, o: int)
    requires
        0 <= o < options.len(),
        forall|j: int| 0 <= j < o ==> option_issue(#[trigger] options[j], q_idx, j as usize) is None,
        option_issue(options[o], q_idx, o as usize) is Some,
    ensures
        first_option_issue(options, q_idx, 0) == option_issue(options[o], q_idx, o as usize),
    decreases o,
{
    lemma_first_option_issue_step(options, q_idx, 0, o);
}

/// Scanning from a clean prefix reaches the fault at `o`.
proof fn lemma_first_option_issue_step(options: Seq<QuestionOption>, q_idx: usize, from: int, o: int)
    requires
        0 <= from <= o < options.len(),
        forall|j: int| 0 <= j < o ==> option_issue(#[trigger] options[j], q_idx, j as usize) is None,
        option_issue(options[o], q_idx, o as usize) is Some,
    ensures
        first_option_issue(options, q_idx, from) == option_issue(options[o], q_idx, o as usize),
    decreases o - from,
{
    if from < o {
        lemma_first_option_issue_step(options, q_idx, from + 1, o);
    }
}

/// A list whose options from `from` on are all clean has no fault there.
proof fn lemma_no_option_issue(options: Seq<QuestionOption>, q_idx: usize, from: int)
    requires
        0 <= from,
        forall|j: int|
            0 <= j < options.len() ==> option_issue(#[trigger] options[j], q_idx, j as usize)
                is None,
    ensures
        first_option_issue(options, q_idx, from) is None,
    decreases options.len() - from,
{
    if from < options.len() {
        lemma_no_option_issue(options, q_idx, from + 1);
    }
}

/// The decimal digits of a number, most significant first.
pub open spec fn decimal_spec(n: int) -> Seq<char>
    decreases n,
{
    if n < 10 {
        seq![(48 + (if n < 0 { 0int } else { n })) as char]
    } else {
        decimal_spec(n / 10).push((48 + n % 10) as char)
    }
}

/// Format a number in decimal.
pub fn usize_to_chars(n: usize) -> (r: Vec<char>)
    ensures
        r@ == decimal_spec(n as int),
    decreases n,
{
    if n < 10 {
        let c = (48 + n as u8) as char;
        let r: Vec<char> = vec![c];
        proof {
            assert(r@ =~= decimal_spec(n as int));
        }
        r
    } else {
        let mut r = usize_to_chars(n / 10);
        let c = (48 + (n % 10) as u8) as char;
        r.push(c);
        r
    }
}

/// Whether every character is a decimal digit.
pub open spec fn all_digits(s: Seq<char>) -> bool {
    forall|i: int| 0 <= i < s.len() ==> '0' <= #[trigger] s[i] && s[i] <= '9'
}

/// The value a digit string denotes.
pub open spec fn digits_value(s: Seq<char>) -> int
    decreases s.len(),
{
    if s.len() == 0 {
        0
    } else {
        digits_value(s.drop_last()) * 10 + (s.last() as int - 48)
    }
}

/// What parsing a selection yields: the value of a non-empty all-digit
/// string that fits in usize, and nothing otherwise.
pub open spec fn parse_usize_spec(s: Seq<char>) -> Option<usize> {
    if s.len() > 0 && all_digits(s) && digits_value(s) <= usize::MAX {
        Some(digits_value(s) as usize)
    } else {
        None
    }
}

/// A digit string's value is at least zero.
proof fn lemma_digits_nonneg(s: Seq<char>)
    requires
        all_digits(s),
    ensures
        digits_value(s) >= 0,
    decreases s.len(),
{
    if s.len() > 0 {
        assert(all_digits(s.drop_last()));
        lemma_digits_nonneg(s.drop_last());
    }
}

/// A digit string's value only grows with more digits.
proof fn lemma_digits_mono(s: Seq<char>, j: int)
    requires
        all_digits(s),
        0 <= j <= s.len(),
    ensures
        digits_value(s) >= digits_value(s.take(j)),
    decreases s.len() - j,
{
    if j < s.len() {
        assert(s.take(j + 1).drop_last() =~= s.take(j));
        assert(s.take(j + 1).last() == s[j]);
        assert(all_digits(s.take(j)));
        lemma_digits_nonneg(s.take(j));
        assert(digits_value(s.take(j + 1)) == digits_value(s.take(j)) * 10 + (s[j] as int - 48));
        assert(digits_value(s.take(j + 1)) >= digits_value(s.take(j))) by (nonlinear_arith)
            requires
                digits_value(s.take(j + 1)) == digits_value(s.take(j)) * 10 + (s[j] as int - 48),
                digits_value(s.take(j)) >= 0,
                s[j] as int >= 48,
        ;
        lemma_digits_mono(s, j + 1);
    } else {
        assert(s.take(j) =~= s);
    }
}

/// Parse a selection: a non-empty string of digits whose value fits.
pub fn parse_usize(v: &Vec<char>) -> (r: Option<usize>)
    ensures
        r == parse_usize_spec(v@),
{
    if v.len() == 0 {
        return None;
    }
    let mut acc: usize = 0;
    let mut i: usize = 0;
    while i < v.len()
        invariant
            i <= v.len(),
            v@.len() > 0,
            all_digits(v@.take(i as int)),
            acc == digits_value(v@.take(i as int)),
        decreases v.len() - i,
    {
        let c = v[i];
        if !('0' <= c && c <= '9') {
            proof {
                assert(!all_digits(v@));
            }
            return None;
        }
        let d = (c as u32 - 48) as usize;
        proof {
            assert(v@.take(i + 1).drop_last() =~= v@.take(i as int));
            assert(v@.take(i + 1).last() == v@[i as int]);
        }
        if acc > (usize::MAX - d) / 10 {
            proof {
                assert(digits_value(v@.take(i + 1)) == acc * 10 + d);
                assert(acc * 10 + d > usize::MAX) by (nonlinear_arith)
                    requires
                        acc > (usize::MAX - d) / 10,
                        d <= 9,
                        acc >= 0,
                ;
                if all_digits(v@) {
                    lemma_digits_mono(v@, i + 1);
                    assert(digits_value(v@) > usize::MAX);
                }
            }
            return None;
        }
        proof {
            assert(acc * 10 + d <= usize::MAX) by (nonlinear_arith)
                requires
                    acc <= (usize::MAX - d) / 10,
                    d <= 9,
                    acc >= 0,
            ;
        }
        acc = acc * 10 + d;
        i = i + 1;
    }
    proof {
        assert(v@.take(v@.len() as int) =~= v@);
    }
    Some(acc)
}

/// `s` trimmed of leading and trailing ASCII whitespace.
pub open spec fn trim_spec(s: Seq<char>) -> Seq<char> {
    trim_start_spec(trim_end_ws(s))
}

/// `s` without trailing ASCII whitespace.
pub open spec fn trim_end_ws(s: Seq<char>) -> Seq<char>
    decreases s.len(),
{
    if s.len() > 0 && is_ws(s.last()) {
        trim_end_ws(s.drop_last())
    } else {
        s
    }
}

/// `s` without leading ASCII whitespace.
pub open spec fn trim_start_spec(s: Seq<char>) -> Seq<char>
    decreases s.len(),
{
    if s.len() > 0 && is_ws(s[0]) {
        trim_start_spec(s.drop_first())
    } else {
        s
    }
}

/// Trim leading and trailing ASCII whitespace.
pub fn trim_chars(v: &Vec<char>) -> (r: Vec<char>)
    ensures
        r@ == trim_spec(v@),
{
    let mut end = v.len();
    proof {
        assert(v@.take(v@.len() as int) =~= v@);
    }
    let mut done_end = false;
    while !done_end
        invariant
            end <= v.len(),
            trim_end_ws(v@.take(end as int)) == trim_end_ws(v@),
            done_end ==> (end == 0 || !is_ws(v@[end - 1])),
        decreases end + (if done_end { 0int } else { 1int }),
    {
        if end == 0 {
            done_end = true;
        } else {
            let c = v[end - 1];
            if c == ' ' || c == '\t' || c == '\r' || c == '\n' {
                proof {
                    assert(v@.take(end as int).last() == v@[end - 1]);
                    assert(v@.take(end as int).drop_last() =~= v@.take(end - 1));
                }
                end = end - 1;
            } else {
                done_end = true;
            }
        }
    }
    proof {
        if end > 0 {
            assert(v@.take(end as int).last() == v@[end - 1]);
        }
        assert(trim_end_ws(v@.take(end as int)) == v@.take(end as int));
        assert(v@.take(end as int).skip(0) =~= v@.take(end as int));
    }
    let mut start: usize = 0;
    let mut done_start = false;
    while !done_start
        invariant
            start <= end <= v.len(),
            trim_end_ws(v@) == v@.take(end as int),
            trim_start_spec(v@.take(end as int).skip(start as int)) == trim_spec(v@),
            done_start ==> (start == end || !is_ws(v@[start as int])),
        decreases end - start + (if done_start { 0int } else { 1int }),
    {
        if start == end {
            done_start = true;
        } else {
            let c = v[start];
            if c == ' ' || c == '\t' || c == '\r' || c == '\n' {
                proof {
                    assert(v@.take(end as int).skip(start as int)[0] == v@[start as int]);
                    assert(v@.take(end as int).skip(start as int).drop_first() =~= v@.take(
                        end as int,
                    ).skip(start + 1));
                }
                start = start + 1;
            } else {
                done_start = true;
            }
        }
    }
    let mut out: Vec<char> = Vec::new();
    let mut k = start;
    while k < end
        invariant
            start <= k <= end <= v.len(),
            out@ =~= v@.subrange(start as int, k as int),
        decreases end - k,
    {
        out.push(v[k]);
        proof {
            assert(v@.subrange(start as int, k + 1) =~= v@.subrange(start as int, k as int).push(
                v@[k as int],
            ));
        }
        k = k + 1;
    }
    proof {
        if start < end {
            assert(v@.take(end as int).skip(start as int)[0] == v@[start as int]);
            assert(!is_ws(v@.take(end as int).skip(start as int)[0]));
        } else {
            assert(v@.take(end as int).skip(start as int) =~= Seq::<char>::empty());
        }
        assert(trim_start_spec(v@.take(end as int).skip(start as int)) == v@.take(end as int).skip(
            start as int,
        ));
        assert(out@ =~= v@.take(end as int).skip(start as int));
    }
    out
}

/// The selections of one input line: comma-separated items, trimmed, those
/// that parse as numbers.
pub open spec fn selections_spec(line: Seq<char>) -> Seq<usize> {
    split_commas(line).map_values(|part: Seq<char>| parse_usize_spec(trim_spec(part))).filter(
        |o: Option<usize>| o is Some,
    ).map_values(|o: Option<usize>| o.unwrap())
}

/// The comma-separated parts of a line; splitting never drops a part, so an
/// empty line has one empty part.
pub open spec fn split_commas(s: Seq<char>) -> Seq<Seq<char>>
    decreases s.len(),
{
    split_commas_from(s, 0, Seq::empty(), Seq::empty())
}

/// The accumulator form of comma splitting.
pub open spec fn split_commas_from(
    s: Seq<char>,
    i: int,
    cur: Seq<char>,
    acc: Seq<Seq<char>>,
) -> Seq<Seq<char>>
    decreases s.len() - i,
{
    if i < 0 || i >= s.len() {
        acc.push(cur)
    } else if s[i] == ',' {
        split_commas_from(s, i + 1, Seq::empty(), acc.push(cur))
    } else {
        split_commas_from(s, i + 1, cur.push(s[i]), acc)
    }
}

/// Parse the selections of one input line.
fn parse_selections(line: &Vec<char>) -> (r: Vec<usize>)
    ensures
        r@ == selections_spec(line@),
{
    let mut parts: Vec<Vec<char>> = Vec::new();
    let mut cur: Vec<char> = Vec::new();
    let mut i: usize = 0;
    proof {
        assert(parts@.map_values(|v: Vec<char>| v@) =~= Seq::<Seq<char>>::empty());
        assert(cur@ =~= Seq::<char>::empty());
    }
    while i < line.len()
        invariant
            i <= line.len(),
            split_commas_from(
                line@,
                i as int,
                cur@,
                parts@.map_values(|v: Vec<char>| v@),
            ) == split_commas(line@),
        decreases line.len() - i,
    {
        let c = line[i];
        if c == ',' {
            let ghost prev = parts@.map_values(|v: Vec<char>| v@);
            let ghost cv = cur@;
            parts.push(cur);
            cur = Vec::new();
            proof {
                assert(parts@.map_values(|v: Vec<char>| v@) =~= prev.push(cv));
            }
        } else {
            cur.push(c);
        }
        i = i + 1;
    }
    let ghost prev = parts@.map_values(|v: Vec<char>| v@);
    let ghost cv = cur@;
    parts.push(cur);
    proof {
        assert(parts@.map_values(|v: Vec<char>| v@) =~= prev.push(cv));
        assert(parts@.map_values(|v: Vec<char>| v@) == split_commas(line@));
    }
    let mut out: Vec<usize> = Vec::new();
    let mut k: usize = 0;
    proof {
        assert(selections_of_parts(parts@.map_values(|v: Vec<char>| v@).take(0)) =~= Seq::<
            usize,
        >::empty());
        lemma_selections_of_parts(parts@.map_values(|v: Vec<char>| v@));
    }
    while k < parts.len()
        invariant
            k <= parts@.len(),
            parts@.map_values(|v: Vec<char>| v@) == split_commas(line@),
            out@ == selections_of_parts(parts@.map_values(|v: Vec<char>| v@).take(k as int)),
        decreases parts@.len() - k,
    {
        let trimmed = trim_chars(&parts[k]);
        proof {
            assert(parts@.map_values(|v: Vec<char>| v@)[k as int] == parts@[k as int]@);
            let pv = parts@.map_values(|v: Vec<char>| v@);
            assert(pv.take(k + 1).drop_last() =~= pv.take(k as int));
            assert(pv.take(k + 1).last() == pv[k as int]);
            lemma_selections_step(pv, k as int);
        }
        match parse_usize(&trimmed) {
            Some(n) => {
                out.push(n);
            },
            None => {},
        }
        k = k + 1;
    }
    proof {
        let pv = parts@.map_values(|v: Vec<char>| v@);
        assert(pv.take(pv.len() as int) =~= pv);
    }
    out
}

/// The parsed selections of a part list.
pub open spec fn selections_of_parts(parts: Seq<Seq<char>>) -> Seq<usize>
    decreases parts.len(),
{
    if parts.len() == 0 {
        Seq::empty()
    } else {
        selections_of_parts(parts.drop_last()) + (match parse_usize_spec(trim_spec(parts.last())) {
            Some(n) => seq![n],
            None => Seq::empty(),
        })
    }
}

/// Appending one part appends its parsed selection, if it has one.
proof fn lemma_selections_step(parts: Seq<Seq<char>>, k: int)
    requires
        0 <= k < parts.len(),
    ensures
        selections_of_parts(parts.take(k + 1)) == selections_of_parts(parts.take(k)) + (
        match parse_usize_spec(trim_spec(parts[k])) {
            Some(n) => seq![n],
            None => Seq::<usize>::empty(),
        }),
{
    assert(parts.take(k + 1).drop_last() =~= parts.take(k));
    assert(parts.take(k + 1).last() == parts[k]);
}

/// The filtered map over parts equals the recursive collection.
proof fn lemma_selections_of_parts(parts: Seq<Seq<char>>)
    ensures
        selections_of_parts(parts) == parts.map_values(
            |part: Seq<char>| parse_usize_spec(trim_spec(part)),
        ).filter(|o: Option<usize>| o is Some).map_values(|o: Option<usize>| o.unwrap()),
    decreases parts.len(),
{
    let f = |part: Seq<char>| parse_usize_spec(trim_spec(part));
    let keep = |o: Option<usize>| o is Some;
    let get = |o: Option<usize>| o.unwrap();
    reveal_with_fuel(Seq::filter, 2);
    if parts.len() == 0 {
        assert(parts.map_values(f) =~= Seq::<Option<usize>>::empty());
        assert(selections_of_parts(parts) =~= parts.map_values(f).filter(keep).map_values(get));
    } else {
        lemma_selections_of_parts(parts.drop_last());
        let mapped = parts.map_values(f);
        assert(mapped.drop_last() =~= parts.drop_last().map_values(f));
        assert(mapped.last() == f(parts.last()));
        if keep(mapped.last()) {
            assert(mapped.filter(keep) == mapped.drop_last().filter(keep).push(mapped.last()));
            assert(mapped.filter(keep).map_values(get) =~= mapped.drop_last().filter(
                keep,
            ).map_values(get).push(get(mapped.last())));
            assert(selections_of_parts(parts) =~= mapped.filter(keep).map_values(get));
        } else {
            assert(mapped.filter(keep) == mapped.drop_last().filter(keep));
            assert(selections_of_parts(parts) =~= mapped.filter(keep).map_values(get));
        }
    }
}

/// Append a string's characters.
fn push_str(v: Vec<char>, s: &str) -> (r: Vec<char>)
    ensures
        r@ == v@ + s@,
{
    let cs = str_to_chars(s);
    push_chars(v, &cs)
}

/// Append a character vector.
fn push_chars(v: Vec<char>, src: &Vec<char>) -> (r: Vec<char>)
    ensures
        r@ == v@ + src@,
{
    let ghost v0 = v@;
    let mut out = v;
    let mut i: usize = 0;
    while i < src.len()
        invariant
            i <= src.len(),
            out@ =~= v0 + src@.subrange(0, i as int),
        decreases src.len() - i,
    {
        out.push(src[i]);
        proof {
            assert(src@.subrange(0, i + 1) =~= src@.subrange(0, i as int).push(src@[i as int]));
        }
        i = i + 1;
    }
    proof {
        assert(src@.subrange(0, src@.len() as int) =~= src@);
        assert(out@ =~= v0 + src@);
    }
    out
}

/// The lines of the scripted input, split on newlines; a question's reply
/// is one line, and input past the script reads as empty lines.
fn split_input_lines(input: &str) -> (r: Vec<Vec<char>>) {
    let cs = str_to_chars(input);
    let mut lines: Vec<Vec<char>> = Vec::new();
    let mut cur: Vec<char> = Vec::new();
    let mut i: usize = 0;
    while i < cs.len()
        decreases cs.len() - i,
    {
        let c = cs[i];
        if c == '\n' {
            lines.push(cur);
            cur = Vec::new();
        } else {
            cur.push(c);
        }
        i = i + 1;
    }
    if cur.len() > 0 {
        lines.push(cur);
    }
    lines
}

/// Whether a selection list carries the value.
fn sels_contain(sels: &Vec<usize>, value: usize) -> (r: bool)
    ensures
        r == sels@.contains(value),
{
    let mut i: usize = 0;
    while i < sels.len()
        invariant
            i <= sels.len(),
            forall|j: int| 0 <= j < i ==> sels@[j] != value,
        decreases sels.len() - i,
    {
        if sels[i] == value {
            return true;
        }
        i = i + 1;
    }
    false
}

/// Run the elicitation over a scripted exchange: the questions are written
/// to the returned transcript in display form, and each reply is taken
/// from the next input line. A selection of 0 cancels; a selection past
/// the Other option is invalid; several selections on a single-select
/// question are rejected. On success every question has an answer, in
/// order, and a question's answer is a Multiple exactly when it is
/// multi-select.
pub fn elicit_answers_with_io(questions: &Vec<Question>, input: &str) -> (r: Result<
    (ClarifyOutput, String),
    ElicitationError,
>)
    ensures
        match r {
            Ok((out, _)) => {
                &&& out.cancelled ==> out.answers@.len() == 0
                &&& !out.cancelled ==> out.answers@.len() == questions@.len()
                &&& !out.cancelled ==> forall|k: int|
                    0 <= k < questions@.len() ==> ((#[trigger] out.answers@[k]) is Multiple
                        <==> questions@[k].multi_select)
            },
            Err(e) => {
                ||| e matches ElicitationError::MultipleSelectionsNotAllowed(_)
                ||| e matches ElicitationError::InvalidSelection(_, _)
            },
        },
{
    let lines = split_input_lines(input);
    let mut line_idx: usize = 0;
    let mut transcript: Vec<char> = Vec::new();
    let mut answers: Vec<Answer> = Vec::new();
    let mut q_idx: usize = 0;
    while q_idx < questions.len()
        invariant
            q_idx <= questions@.len(),
            answers@.len() == q_idx,
            forall|k: int|
                0 <= k < q_idx ==> ((#[trigger] answers@[k]) is Multiple
                    <==> questions@[k].multi_select),
        decreases questions@.len() - q_idx,
    {
        let q = &questions[q_idx];
        transcript.push('\n');
        transcript = push_str(transcript, "[");
        transcript = push_str(transcript, q.header.as_str());
        transcript = push_str(transcript, "] ");
        transcript = push_str(transcript, q.question.as_str());
        transcript = push_str(transcript, "\n\n");
        let mut o_idx: usize = 0;
        while o_idx < q.options.len()
            invariant
                o_idx <= q.options@.len(),
            decreases q.options@.len() - o_idx,
        {
            transcript = push_str(transcript, "  ");
            let number = usize_to_chars(o_idx + 1);
            transcript = push_chars(transcript, &number);
            transcript = push_str(transcript, ") ");
            transcript = push_str(transcript, q.options[o_idx].label.as_str());
            transcript = push_str(transcript, " - ");
            transcript = push_str(transcript, q.options[o_idx].description.as_str());
            transcript = push_str(transcript, "\n");
            o_idx = o_idx + 1;
        }
        let opt_count = if q.options.len() < 1000 {
            q.options.len()
        } else {
            1000
        };
        let other_idx = opt_count + 1;
        transcript = push_str(transcript, "  ");
        let other_number = usize_to_chars(other_idx);
        transcript = push_chars(transcript, &other_number);
        transcript = push_str(transcript, ") Other - Provide custom input\n");
        transcript = push_str(transcript, "  0) Cancel\n\n");
        if q.multi_select {
            transcript = push_str(transcript, "Select options (comma-separated, e.g., 1,3): ");
        } else {
            transcript = push_str(transcript, "Select option: ");
        }
        let line: Vec<char> = if line_idx < lines.len() {
            trim_chars(&lines[line_idx])
        } else {
            Vec::new()
        };
        if line_idx < usize::MAX {
            line_idx = line_idx + 1;
        }
        let sels = parse_selections(&line);
        if sels_contain(&sels, 0) {
            let out = ClarifyOutput { answers: Vec::new(), cancelled: true };
            return Ok((out, chars_to_string(&transcript)));
        }
        if !q.multi_select && sels.len() > 1 {
            return Err(ElicitationError::MultipleSelectionsNotAllowed(q_idx));
        }
        let mut values: Vec<String> = Vec::new();
        let mut s_i: usize = 0;
        while s_i < sels.len()
            invariant
                s_i <= sels@.len(),
                0 <= q_idx < questions@.len(),
                q == questions@[q_idx as int],
                opt_count <= q.options@.len(),
            decreases sels@.len() - s_i,
        {
            let sel = sels[s_i];
            if sel == 0 {
                // cancellation was handled above
            } else if sel <= opt_count {
                values.push(q.options[sel - 1].label.clone());
            } else if sel == other_idx {
                transcript = push_str(transcript, "Enter custom value: ");
                let custom: Vec<char> = if line_idx < lines.len() {
                    trim_chars(&lines[line_idx])
                } else {
                    Vec::new()
                };
                if line_idx < usize::MAX {
                    line_idx = line_idx + 1;
                }
                values.push(chars_to_string(&custom));
            } else {
                return Err(ElicitationError::InvalidSelection(q_idx, sel));
            }
            s_i = s_i + 1;
        }
        let answer = if q.multi_select {
            Answer::Multiple(values)
        } else {
            let first = if values.len() > 0 {
                values.remove(0)
            } else {
                String::new()
            };
            Answer::Single(first)
        };
        answers.push(answer);
        q_idx = q_idx + 1;
    }
    let out = ClarifyOutput { answers, cancelled: false };
    Ok((out, chars_to_string(&transcript)))
}

} // verus!
