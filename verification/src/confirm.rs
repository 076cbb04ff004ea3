//! Asking the user for confirmation.
use vstd::prelude::*;
use vstd::utf8::is_ascii_chars;

use crate::error::{CliError, CliErrorView, CliTypedResult};
use crate::text::{followed_by, same_text, trim};

verus! {

/// How prompts are answered without asking.
#[derive(Debug, Clone, Copy, PartialEq, Eq, Structural)]
pub struct PromptOptions {
    /// Assume yes for all yes/no prompts
    pub assume_yes: bool,
    /// Assume no for all yes/no prompts
    pub assume_no: bool,
}

/// The lower case text that `str::to_lowercase` gives.
pub uninterp spec fn lowercase(s: Seq<char>) -> Seq<char>;

/// The lower case letter of an ASCII letter; any other character is its own.
pub open spec fn ascii_lower(c: char) -> char {
    if 'A' <= c <= 'Z' {
        (c as u32 + 32) as char
    } else {
        c
    }
}

/// `str::to_lowercase`: the text depends on the characters and on nothing else,
/// and of ASCII characters the letters alone are changed.
pub assume_specification[ str::to_lowercase ](s: &str) -> (res: String)
    ensures
        res@ == lowercase(s@),
        is_ascii_chars(s@) ==> res@ == s@.map_values(|c: char| ascii_lower(c)),
;

/// What an answer in lower case says: yes, no, or neither.
pub open spec fn answer(lowered: Seq<char>) -> Option<bool> {
    if lowered == "yes"@ || lowered == "y"@ {
        Some(true)
    } else if lowered == "no"@ || lowered == "n"@ {
        Some(false)
    } else {
        None
    }
}

/// Whether `s` is a word in lower case, but for letters that are written as capitals.
pub open spec fn in_either_case(s: Seq<char>, word: Seq<char>) -> bool {
    &&& s.len() == word.len()
    &&& forall|i: int|
        0 <= i < s.len() ==> (#[trigger] s[i] == word[i] || 'a' <= word[i] <= 'z' && s[i] as int
            == word[i] as int - 32)
}

proof fn lemma_answers_differ()
    ensures
        "yes"@ != "no"@,
        "yes"@ != "n"@,
        "y"@ != "no"@,
        "y"@ != "n"@,
        forall|i: int| 0 <= i < "yes"@.len() ==> 'a' <= #[trigger] "yes"@[i] <= 'z',
        forall|i: int| 0 <= i < "y"@.len() ==> 'a' <= #[trigger] "y"@[i] <= 'z',
        forall|i: int| 0 <= i < "no"@.len() ==> 'a' <= #[trigger] "no"@[i] <= 'z',
        forall|i: int| 0 <= i < "n"@.len() ==> 'a' <= #[trigger] "n"@[i] <= 'z',
{
    reveal_strlit("yes");
    reveal_strlit("y");
    reveal_strlit("no");
    reveal_strlit("n");
    assert("yes"@.len() != "no"@.len());
    assert("y"@[0] != "n"@[0]);
}

proof fn lemma_lowered_word(s: Seq<char>, word: Seq<char>)
    requires
        forall|i: int| 0 <= i < word.len() ==> 'a' <= #[trigger] word[i] <= 'z',
    ensures
        s.map_values(|c: char| ascii_lower(c)) == word <==> in_either_case(s, word),
{
    let lowered = s.map_values(|c: char| ascii_lower(c));
    if lowered == word {
        assert forall|i: int| 0 <= i < s.len() implies (#[trigger] s[i] == word[i] || 'a' <= word[i]
            <= 'z' && s[i] as int == word[i] as int - 32) by {
            assert(lowered[i] == ascii_lower(s[i]));
        }
    }
    if in_either_case(s, word) {
        assert forall|i: int| 0 <= i < s.len() implies lowered[i] == word[i] by {
            assert(lowered[i] == ascii_lower(s[i]));
            assert('a' <= word[i] <= 'z');
            assert(s[i] == word[i] || s[i] as int == word[i] as int - 32);
        }
        assert(lowered =~= word);
    }
}

proof fn lemma_in_either_case(s: Seq<char>)
    ensures
        s.map_values(|c: char| ascii_lower(c)) == "yes"@ <==> in_either_case(s, "yes"@),
        s.map_values(|c: char| ascii_lower(c)) == "y"@ <==> in_either_case(s, "y"@),
        s.map_values(|c: char| ascii_lower(c)) == "no"@ <==> in_either_case(s, "no"@),
        s.map_values(|c: char| ascii_lower(c)) == "n"@ <==> in_either_case(s, "n"@),
{
    lemma_answers_differ();
    lemma_lowered_word(s, "yes"@);
    lemma_lowered_word(s, "y"@);
    lemma_lowered_word(s, "no"@);
    lemma_lowered_word(s, "n"@);
}

/// What a line says that the user gave.
pub open spec fn line_answer(line: Seq<char>) -> Option<bool> {
    answer(lowercase(crate::text::trimmed(line)))
}

/// What a line says that was to be read; one that could not be read says nothing.
pub open spec fn read_answer(line: Option<Seq<char>>) -> Option<bool> {
    match line {
        Some(line) => line_answer(line),
        None => None,
    }
}

/// Reads an answer in lower case without white space around it.
pub fn lowered_answer(lowered: &str) -> (res: Option<bool>)
    ensures
        res == answer(lowered@),
{
    proof {
        reveal_strlit("yes");
        reveal_strlit("y");
        reveal_strlit("no");
        reveal_strlit("n");
        assert("y"@[0] != "n"@[0]);
    }
    if same_text(lowered, "yes") || same_text(lowered, "y") {
        Some(true)
    } else if same_text(lowered, "no") || same_text(lowered, "n") {
        Some(false)
    } else {
        None
    }
}

/// Reads what the user gave for an answer: `None` for a line that could not be
/// read. Where the answer is neither yes nor no, the prompt is repeated.
pub fn prompt_yes(line: Option<&str>) -> (res: Option<bool>)
    ensures
        res == read_answer(
            match line {
                Some(line) => Some(line@),
                None => None,
            },
        ),
        line matches Some(line) ==> is_ascii_chars(crate::text::trimmed(line@)) ==> res == answer(
            crate::text::trimmed(line@).map_values(|c: char| ascii_lower(c)),
        ),
        line is None ==> res is None,
        line matches Some(line) ==> {
            let lowered = lowercase(crate::text::trimmed(line@));
            &&& res == Some(true) <==> lowered == "yes"@ || lowered == "y"@
            &&& res == Some(false) <==> lowered == "no"@ || lowered == "n"@
        },
        line matches Some(line) ==> is_ascii_chars(crate::text::trimmed(line@)) ==> {
            &&& res == Some(true) <==> in_either_case(crate::text::trimmed(line@), "yes"@)
                || in_either_case(crate::text::trimmed(line@), "y"@)
            &&& res == Some(false) <==> in_either_case(crate::text::trimmed(line@), "no"@)
                || in_either_case(crate::text::trimmed(line@), "n"@)
        },
{
    match line {
        Some(line) => {
            let lowered = trim(line).to_lowercase();
            proof {
                lemma_answers_differ();
                if is_ascii_chars(crate::text::trimmed(line@)) {
                    lemma_in_either_case(crate::text::trimmed(line@));
                }
            }
            lowered_answer(lowered.as_str())
        },
        None => None,
    }
}

/// The line that asks the user.
pub fn prompt_line(prompt: &str) -> (res: String)
    ensures
        res@ == prompt@ + " [yes/no] >"@,
{
    followed_by(prompt, " [yes/no] >")
}

/// Where a confirmation stands, and so what is to be done next.
#[derive(Debug)]
pub enum Confirmation {
    /// The configuration is to be loaded for its default response to prompts.
    LoadConfig,
    /// The user is to be asked.
    Ask,
    /// This is the outcome.
    Done(CliTypedResult<()>),
}

/// The state of a confirmation.
pub enum ConfirmationView {
    LoadConfig,
    Ask,
    Done(Result<(), CliErrorView>),
}

impl View for Confirmation {
    type V = ConfirmationView;

    open spec fn view(&self) -> ConfirmationView {
        match *self {
            Confirmation::LoadConfig => ConfirmationView::LoadConfig,
            Confirmation::Ask => ConfirmationView::Ask,
            Confirmation::Done(Ok(())) => ConfirmationView::Done(Ok(())),
            Confirmation::Done(Err(error)) => ConfirmationView::Done(Err(error@)),
        }
    }
}

/// What came of doing what a confirmation asked for.
#[derive(Debug)]
pub enum ConfirmationEvent {
    /// The configuration was loaded: its default response, or why there is none.
    ConfigLoaded(CliTypedResult<Option<bool>>),
    /// A line was read from the user, or could not be read.
    LineRead(Option<String>),
}

/// An event of a confirmation.
pub enum ConfirmationEventView {
    ConfigLoaded(Result<Option<bool>, CliErrorView>),
    LineRead(Option<Seq<char>>),
}

impl View for ConfirmationEvent {
    type V = ConfirmationEventView;

    open spec fn view(&self) -> ConfirmationEventView {
        match *self {
            ConfirmationEvent::ConfigLoaded(Ok(response)) => ConfirmationEventView::ConfigLoaded(
                Ok(response),
            ),
            ConfirmationEvent::ConfigLoaded(Err(error)) => ConfirmationEventView::ConfigLoaded(
                Err(error@),
            ),
            ConfirmationEvent::LineRead(Some(line)) => ConfirmationEventView::LineRead(
                Some(line@),
            ),
            ConfirmationEvent::LineRead(None) => ConfirmationEventView::LineRead(None),
        }
    }
}

/// The outcome of an answer.
pub open spec fn verdict(is_yes: bool) -> Result<(), CliErrorView> {
    if is_yes {
        Ok(())
    } else {
        Err(CliErrorView::AbortedError)
    }
}

/// Where a confirmation begins.
pub open spec fn begun(options: PromptOptions) -> ConfirmationView {
    if options.assume_no {
        ConfirmationView::Done(Err(CliErrorView::AbortedError))
    } else if options.assume_yes {
        ConfirmationView::Done(Ok(()))
    } else {
        ConfirmationView::LoadConfig
    }
}

/// Where a confirmation stands after an event. An event that it did not ask for
/// changes nothing.
pub open spec fn stepped(
    state: ConfirmationView,
    event: ConfirmationEventView,
) -> ConfirmationView {
    match (state, event) {
        (ConfirmationView::LoadConfig, ConfirmationEventView::ConfigLoaded(config)) => match config {
            Ok(Some(is_yes)) => ConfirmationView::Done(verdict(is_yes)),
            Ok(None) => ConfirmationView::Ask,
            Err(error) => ConfirmationView::Done(Err(error)),
        },
        (ConfirmationView::Ask, ConfirmationEventView::LineRead(line)) => match read_answer(line) {
            Some(is_yes) => ConfirmationView::Done(verdict(is_yes)),
            None => ConfirmationView::Ask,
        },
        _ => state,
    }
}

/// The outcome of an answer.
fn conclude(is_yes: bool) -> (res: Confirmation)
    ensures
        res@ == ConfirmationView::Done(verdict(is_yes)),
        is_yes ==> res == Confirmation::Done(Ok(())),
        !is_yes ==> res == Confirmation::Done(Err(CliError::AbortedError)),
{
    if is_yes {
        Confirmation::Done(Ok(()))
    } else {
        Confirmation::Done(Err(CliError::AbortedError))
    }
}

impl Confirmation {
    /// Takes what came of doing what was asked for.
    pub fn step(self, event: ConfirmationEvent) -> (res: Confirmation)
        ensures
            res@ == stepped(self@, event@),
            self is Done ==> res == self,
            self is LoadConfig ==> match event {
                ConfirmationEvent::ConfigLoaded(Ok(Some(is_yes))) => if is_yes {
                    res == Confirmation::Done(Ok(()))
                } else {
                    res == Confirmation::Done(Err(CliError::AbortedError))
                },
                ConfirmationEvent::ConfigLoaded(Ok(None)) => res is Ask,
                ConfirmationEvent::ConfigLoaded(Err(error)) => res == Confirmation::Done(
                    Err(error),
                ),
                ConfirmationEvent::LineRead(_) => res is LoadConfig,
            },
            self is Ask ==> match event {
                ConfirmationEvent::LineRead(Some(line)) => {
                    let lowered = lowercase(crate::text::trimmed(line@));
                    if lowered == "yes"@ || lowered == "y"@ {
                        res == Confirmation::Done(Ok(()))
                    } else if lowered == "no"@ || lowered == "n"@ {
                        res == Confirmation::Done(Err(CliError::AbortedError))
                    } else {
                        res is Ask
                    }
                },
                _ => res is Ask,
            },
    {
        match self {
            Confirmation::LoadConfig => match event {
                ConfirmationEvent::ConfigLoaded(config) => match config {
                    Ok(Some(is_yes)) => conclude(is_yes),
                    Ok(None) => Confirmation::Ask,
                    Err(error) => Confirmation::Done(Err(error)),
                },
                _ => Confirmation::LoadConfig,
            },
            Confirmation::Ask => match event {
                ConfirmationEvent::LineRead(line) => {
                    let is_yes = match &line {
                        Some(line) => prompt_yes(Some(line.as_str())),
                        None => prompt_yes(None),
                    };
                    match is_yes {
                        Some(is_yes) => conclude(is_yes),
                        None => Confirmation::Ask,
                    }
                },
                _ => Confirmation::Ask,
            },
            Confirmation::Done(outcome) => Confirmation::Done(outcome),
        }
    }
}

/// Begins a confirmation, being overridden by `PromptOptions`.
pub fn prompt_yes_with_override(prompt_options: PromptOptions) -> (res: Confirmation)
    ensures
        res@ == begun(prompt_options),
        prompt_options.assume_no ==> res == Confirmation::Done(Err(CliError::AbortedError)),
        prompt_options.assume_yes && !prompt_options.assume_no ==> res == Confirmation::Done(
            Ok(()),
        ),
        !prompt_options.assume_yes && !prompt_options.assume_no ==> res is LoadConfig,
{
    if prompt_options.assume_no {
        return conclude(false);
    } else if prompt_options.assume_yes {
        return conclude(true);
    }
    Confirmation::LoadConfig
}

/// Begins the confirmation that a file may be overwritten if it exists, being
/// overridden by `PromptOptions`.
pub fn check_if_file_exists(file_exists: bool, prompt_options: PromptOptions) -> (res: Confirmation)
    ensures
        res@ == (if file_exists {
            begun(prompt_options)
        } else {
            ConfirmationView::Done(Ok(()))
        }),
        !file_exists ==> res == Confirmation::Done(Ok(())),
        file_exists && prompt_options.assume_no ==> res == Confirmation::Done(
            Err(CliError::AbortedError),
        ),
        file_exists && prompt_options.assume_yes && !prompt_options.assume_no ==> res
            == Confirmation::Done(Ok(())),
        file_exists && !prompt_options.assume_yes && !prompt_options.assume_no ==> res is LoadConfig,
{
    if file_exists {
        prompt_yes_with_override(prompt_options)
    } else {
        conclude(true)
    }
}

/// Where a confirmation stands after these events, in order.
pub open spec fn run(
    state: ConfirmationView,
    events: Seq<ConfirmationEventView>,
) -> ConfirmationView
    decreases events.len(),
{
    if events.len() == 0 {
        state
    } else {
        run(stepped(state, events[0]), events.drop_first())
    }
}

/// An outcome is final.
pub proof fn law_outcome_is_final(
    outcome: Result<(), CliErrorView>,
    events: Seq<ConfirmationEventView>,
)
    ensures
        run(ConfirmationView::Done(outcome), events) == ConfirmationView::Done(outcome),
    decreases events.len(),
{
    if events.len() > 0 {
        law_outcome_is_final(outcome, events.drop_first());
    }
}

/// The options come first, and of the two the one that says no: nothing that
/// happens later changes what they say.
pub proof fn law_options_override(options: PromptOptions, events: Seq<ConfirmationEventView>)
    ensures
        options.assume_no ==> run(begun(options), events) == ConfirmationView::Done(
            Err(CliErrorView::AbortedError),
        ),
        options.assume_yes && !options.assume_no ==> run(begun(options), events)
            == ConfirmationView::Done(Ok(())),
{
    law_outcome_is_final(Ok(()), events);
    law_outcome_is_final(Err(CliErrorView::AbortedError), events);
}

/// The first answer of these lines: that of the first line that says yes or no.
pub open spec fn first_answer(lines: Seq<Option<Seq<char>>>) -> Option<bool>
    decreases lines.len(),
{
    if lines.len() == 0 {
        None
    } else {
        match read_answer(lines[0]) {
            Some(is_yes) => Some(is_yes),
            None => first_answer(lines.drop_first()),
        }
    }
}

/// The events of reading these lines.
pub open spec fn lines_read(lines: Seq<Option<Seq<char>>>) -> Seq<ConfirmationEventView> {
    lines.map_values(|line: Option<Seq<char>>| ConfirmationEventView::LineRead(line))
}

/// The user is asked until a yes or a no is given explicitly, and what is given
/// first decides.
pub proof fn law_first_answer_decides(lines: Seq<Option<Seq<char>>>)
    ensures
        run(ConfirmationView::Ask, lines_read(lines)) == match first_answer(lines) {
            Some(is_yes) => ConfirmationView::Done(verdict(is_yes)),
            None => ConfirmationView::Ask,
        },
    decreases lines.len(),
{
    if lines.len() > 0 {
        let events = lines_read(lines);
        let rest = lines.drop_first();
        assert(events[0] == ConfirmationEventView::LineRead(lines[0]));
        assert(events.drop_first() =~= lines_read(rest));
        match read_answer(lines[0]) {
            Some(is_yes) => {
                law_outcome_is_final(verdict(is_yes), lines_read(rest));
            },
            None => {
                law_first_answer_decides(rest);
            },
        }
    }
}

/// The first answer is that of the first line that says yes or no.
pub proof fn law_first_answer(lines: Seq<Option<Seq<char>>>, i: int)
    requires
        0 <= i < lines.len(),
        read_answer(lines[i]) is Some,
        forall|j: int| 0 <= j < i ==> read_answer(#[trigger] lines[j]) is None,
    ensures
        first_answer(lines) == read_answer(lines[i]),
    decreases lines.len(),
{
    if i > 0 {
        let rest = lines.drop_first();
        assert(read_answer(lines[0]) is None);
        assert(rest[i - 1] == lines[i]);
        assert forall|j: int| 0 <= j < i - 1 implies read_answer(#[trigger] rest[j]) is None by {
            assert(rest[j] == lines[j + 1]);
        }
        law_first_answer(rest, i - 1);
    }
}

/// Without an option, a default response in the configuration decides, a
/// configuration that cannot be loaded ends the confirmation with its error, and
/// only where neither holds are the lines read that the user gives.
pub proof fn law_config_comes_before_user(
    config: Result<Option<bool>, CliErrorView>,
    lines: Seq<Option<Seq<char>>>,
)
    ensures
        run(
            begun(PromptOptions { assume_yes: false, assume_no: false }),
            seq![ConfirmationEventView::ConfigLoaded(config)] + lines_read(lines),
        ) == match config {
            Err(error) => ConfirmationView::Done(Err(error)),
            Ok(Some(is_yes)) => ConfirmationView::Done(verdict(is_yes)),
            Ok(None) => match first_answer(lines) {
                Some(is_yes) => ConfirmationView::Done(verdict(is_yes)),
                None => ConfirmationView::Ask,
            },
        },
{
    let events = seq![ConfirmationEventView::ConfigLoaded(config)] + lines_read(lines);
    assert(events.drop_first() =~= lines_read(lines));
    law_first_answer_decides(lines);
    match config {
        Err(error) => {
            law_outcome_is_final(Err(error), lines_read(lines));
        },
        Ok(Some(is_yes)) => {
            law_outcome_is_final(verdict(is_yes), lines_read(lines));
        },
        Ok(None) => {},
    }
}

/// In lower case `yes` and `y` say yes, `no` and `n` say no, and nothing else is an
/// answer.
pub proof fn law_answers(lowered: Seq<char>)
    ensures
        answer(lowered) == Some(true) <==> lowered == "yes"@ || lowered == "y"@,
        answer(lowered) == Some(false) <==> lowered == "no"@ || lowered == "n"@,
{
    lemma_answers_differ();
}

/// White space around an answer and the case of its letters do not count, and a line
/// that could not be read is no answer.
pub proof fn law_spacing_of_answers(left: Seq<char>, word: Seq<char>, right: Seq<char>)
    requires
        crate::text::blank(left),
        crate::text::blank(right),
        word.len() > 0 ==> !crate::text::white_space(word.first()) && !crate::text::white_space(
            word.last(),
        ),
    ensures
        read_answer(None) is None,
        read_answer(Some(left + word + right)) == Some(true) <==> lowercase(word) == "yes"@
            || lowercase(word) == "y"@,
        read_answer(Some(left + word + right)) == Some(false) <==> lowercase(word) == "no"@
            || lowercase(word) == "n"@,
{
    lemma_answers_differ();
    crate::text::law_trimmed_to(left, word, right);
}

/// A yes confirms and a no aborts, whether it comes from the options, from the
/// configuration or from the user; and the user is asked only where neither of the
/// others says anything.
pub proof fn law_yes_confirms_and_no_aborts(
    is_yes: bool,
    line: Seq<char>,
    error: CliErrorView,
    outcome: Result<(), CliErrorView>,
)
    requires
        outcome == (if is_yes {
            Ok::<(), CliErrorView>(())
        } else {
            Err(CliErrorView::AbortedError)
        }),
    ensures
        begun(PromptOptions { assume_yes: is_yes, assume_no: !is_yes }) == ConfirmationView::Done(
            outcome,
        ),
        begun(PromptOptions { assume_yes: true, assume_no: true }) == ConfirmationView::Done(
            Err(CliErrorView::AbortedError),
        ),
        begun(PromptOptions { assume_yes: false, assume_no: false })
            == ConfirmationView::LoadConfig,
        stepped(
            ConfirmationView::LoadConfig,
            ConfirmationEventView::ConfigLoaded(Ok(Some(is_yes))),
        ) == ConfirmationView::Done(outcome),
        stepped(ConfirmationView::LoadConfig, ConfirmationEventView::ConfigLoaded(Ok(None)))
            == ConfirmationView::Ask,
        stepped(ConfirmationView::LoadConfig, ConfirmationEventView::ConfigLoaded(Err(error)))
            == ConfirmationView::Done(Err(error)),
        read_answer(Some(line)) == Some(is_yes) ==> stepped(
            ConfirmationView::Ask,
            ConfirmationEventView::LineRead(Some(line)),
        ) == ConfirmationView::Done(outcome),
        read_answer(Some(line)) is None ==> stepped(
            ConfirmationView::Ask,
            ConfirmationEventView::LineRead(Some(line)),
        ) == ConfirmationView::Ask,
        stepped(ConfirmationView::Ask, ConfirmationEventView::LineRead(None))
            == ConfirmationView::Ask,
{
}

/// An event that a confirmation did not ask for changes nothing.
pub proof fn law_confirmation_waits_for_its_event(
    config: Result<Option<bool>, CliErrorView>,
    line: Option<Seq<char>>,
)
    ensures
        stepped(ConfirmationView::LoadConfig, ConfirmationEventView::LineRead(line))
            == ConfirmationView::LoadConfig,
        stepped(ConfirmationView::Ask, ConfirmationEventView::ConfigLoaded(config))
            == ConfirmationView::Ask,
{
}

/// A line says yes or no by one of the four answers, in letters of either case and with
/// white space around it; another ASCII line says nothing, and neither does one that
/// could not be read.
pub proof fn law_lines_that_answer(line: &str, res: Option<bool>, unread: Option<bool>)
    requires
        call_ensures(prompt_yes, (Some(line),), res),
        call_ensures(prompt_yes, (None,), unread),
    ensures
        unread is None,
        is_ascii_chars(crate::text::trimmed(line@)) ==> {
            let word = crate::text::trimmed(line@);
            &&& res == Some(true) <==> in_either_case(word, "yes"@) || in_either_case(word, "y"@)
            &&& res == Some(false) <==> in_either_case(word, "no"@) || in_either_case(word, "n"@)
        },
{
}

/// An answer in lower case is one of the four.
pub proof fn law_lowered_answers(lowered: &str, res: Option<bool>)
    requires
        call_ensures(lowered_answer, (lowered,), res),
    ensures
        res == Some(true) <==> lowered@ == "yes"@ || lowered@ == "y"@,
        res == Some(false) <==> lowered@ == "no"@ || lowered@ == "n"@,
{
    lemma_answers_differ();
}

/// The user sees the whole prompt, and which answers there are.
pub proof fn law_prompt_is_shown(prompt: &str, res: String)
    requires
        call_ensures(prompt_line, (prompt,), res),
    ensures
        prompt@.is_prefix_of(res@),
        res@.skip(prompt@.len() as int) == " [yes/no] >"@,
{
    assert(res@.skip(prompt@.len() as int) =~= " [yes/no] >"@);
}

/// The options decide before anything else, no before yes. A file that does not exist
/// needs no confirmation, and one that does needs the same as any other prompt.
pub proof fn law_confirmation_begins(
    options: PromptOptions,
    asked: Confirmation,
    missing: Confirmation,
    present: Confirmation,
)
    requires
        call_ensures(prompt_yes_with_override, (options,), asked),
        call_ensures(check_if_file_exists, (false, options), missing),
        call_ensures(check_if_file_exists, (true, options), present),
    ensures
        options.assume_no <==> asked == Confirmation::Done(Err(CliError::AbortedError)),
        options.assume_yes && !options.assume_no <==> asked == Confirmation::Done(Ok(())),
        !options.assume_yes && !options.assume_no <==> asked is LoadConfig,
        missing == Confirmation::Done(Ok(())),
        present == asked,
{
}

/// A default response decides without asking, a configuration that cannot be loaded
/// ends it, and otherwise the user is asked until a line answers.
pub proof fn law_confirmation_goes_on(
    is_yes: bool,
    error: CliError,
    line: String,
    decided: Confirmation,
    failed: Confirmation,
    undecided: Confirmation,
    answered: Confirmation,
    unread: Confirmation,
    line_says: Option<bool>,
)
    requires
        call_ensures(
            Confirmation::step,
            (Confirmation::LoadConfig, ConfirmationEvent::ConfigLoaded(Ok(Some(is_yes)))),
            decided,
        ),
        call_ensures(
            Confirmation::step,
            (Confirmation::LoadConfig, ConfirmationEvent::ConfigLoaded(Err(error))),
            failed,
        ),
        call_ensures(
            Confirmation::step,
            (Confirmation::LoadConfig, ConfirmationEvent::ConfigLoaded(Ok(None))),
            undecided,
        ),
        call_ensures(
            Confirmation::step,
            (Confirmation::Ask, ConfirmationEvent::LineRead(Some(line))),
            answered,
        ),
        call_ensures(
            Confirmation::step,
            (Confirmation::Ask, ConfirmationEvent::LineRead(None)),
            unread,
        ),
        line_says == read_answer(Some(line@)),
    ensures
        is_yes ==> decided == Confirmation::Done(Ok(())),
        !is_yes ==> decided == Confirmation::Done(Err(CliError::AbortedError)),
        failed == Confirmation::Done(Err(error)),
        undecided is Ask,
        line_says == Some(true) <==> answered == Confirmation::Done(Ok(())),
        line_says == Some(false) <==> answered == Confirmation::Done(Err(CliError::AbortedError)),
        line_says is None <==> answered is Ask,
        unread is Ask,
{
    lemma_answers_differ();
}

} // verus!
