use cli_utils::confirm::{
    check_if_file_exists, lowered_answer, prompt_line, prompt_yes, prompt_yes_with_override,
    Confirmation, ConfirmationEvent, PromptOptions,
};
use cli_utils::error::CliError;

const NONE: PromptOptions = PromptOptions { assume_yes: false, assume_no: false };
const YES: PromptOptions = PromptOptions { assume_yes: true, assume_no: false };
const NO: PromptOptions = PromptOptions { assume_yes: false, assume_no: true };
const BOTH: PromptOptions = PromptOptions { assume_yes: true, assume_no: true };

fn line(s: &str) -> ConfirmationEvent {
    ConfirmationEvent::LineRead(Some(s.to_string()))
}

fn done(state: Confirmation) -> Option<bool> {
    match state {
        Confirmation::Done(Ok(())) => Some(true),
        Confirmation::Done(Err(CliError::AbortedError)) => Some(false),
        _ => None,
    }
}

#[test]
fn answers() {
    for yes in ["yes", "y", "YES\n", " Yes \r\n", "Y", "\tyEs"] {
        assert_eq!(prompt_yes(Some(yes)), Some(true), "{:?}", yes);
    }
    for no in ["no", "n", "NO\n", " No \r\n", "N", "nO"] {
        assert_eq!(prompt_yes(Some(no)), Some(false), "{:?}", no);
    }
    for neither in ["", "\n", "ye", "yess", "y es", "nope", "1", "\u{fd}es"] {
        assert_eq!(prompt_yes(Some(neither)), None, "{:?}", neither);
    }
    assert_eq!(prompt_yes(None), None);
}

#[test]
fn answers_in_lower_case() {
    assert_eq!(lowered_answer("yes"), Some(true));
    assert_eq!(lowered_answer("n"), Some(false));
    assert_eq!(lowered_answer("YES"), None);
}

#[test]
fn question_line() {
    assert_eq!(prompt_line("Go on?"), "Go on? [yes/no] >");
}

#[test]
fn options_override() {
    assert_eq!(done(prompt_yes_with_override(YES)), Some(true));
    assert_eq!(done(prompt_yes_with_override(NO)), Some(false));
    assert_eq!(done(prompt_yes_with_override(BOTH)), Some(false));
    assert!(matches!(prompt_yes_with_override(NONE), Confirmation::LoadConfig));
    let later = prompt_yes_with_override(NO)
        .step(ConfirmationEvent::ConfigLoaded(Ok(Some(true))))
        .step(line("yes"));
    assert_eq!(done(later), Some(false));
}

#[test]
fn default_response_decides() {
    for response in [true, false] {
        let state = prompt_yes_with_override(NONE)
            .step(ConfirmationEvent::ConfigLoaded(Ok(Some(response))));
        assert_eq!(done(state), Some(response));
    }
}

#[test]
fn config_error_is_returned() {
    let error = CliError::UnexpectedError("broken".to_string());
    let state = prompt_yes_with_override(NONE).step(ConfirmationEvent::ConfigLoaded(Err(error)));
    assert!(
        matches!(state, Confirmation::Done(Err(CliError::UnexpectedError(message))) if message == "broken")
    );
}

#[test]
fn first_answer_decides() {
    let asking = || prompt_yes_with_override(NONE).step(ConfirmationEvent::ConfigLoaded(Ok(None)));
    assert!(matches!(asking(), Confirmation::Ask));
    let state = asking().step(line("what?\n")).step(ConfirmationEvent::LineRead(None));
    assert!(matches!(state, Confirmation::Ask));
    let state = state.step(line("No\n")).step(line("yes\n"));
    assert_eq!(done(state), Some(false));
    assert_eq!(done(asking().step(line("y")).step(line("n"))), Some(true));
}

#[test]
fn events_that_were_not_asked_for() {
    let state = prompt_yes_with_override(NONE).step(line("yes"));
    assert!(matches!(state, Confirmation::LoadConfig));
    let state = Confirmation::Ask.step(ConfirmationEvent::ConfigLoaded(Ok(Some(true))));
    assert!(matches!(state, Confirmation::Ask));
}

#[test]
fn file_that_does_not_exist() {
    for options in [NONE, YES, NO, BOTH] {
        assert_eq!(done(check_if_file_exists(false, options)), Some(true));
    }
}

#[test]
fn file_that_exists() {
    assert_eq!(done(check_if_file_exists(true, YES)), Some(true));
    assert_eq!(done(check_if_file_exists(true, NO)), Some(false));
    assert!(matches!(check_if_file_exists(true, NONE), Confirmation::LoadConfig));
}
