//! What a command prints when it is done, and what it reports of itself.
use vstd::prelude::*;
use vstd::std_specs::convert::{FromSpec, FromSpecImpl};

use crate::json::{pretty_value, read_json, write_json, Json, JsonView};

verus! {

/// What a finished command prints: the text of its result, or of its error.
pub type CliResult = Result<String, String>;

/// How long sending a telemetry event may take.
pub const TELEMETRY_TIMEOUT_MILLIS: u64 = 2000;

/// An error as it is shown.
#[derive(Debug)]
pub struct ErrorReport {
    /// The name of the error's type.
    pub kind: String,
    /// The error's message.
    pub message: String,
}

/// A result wrapper for displaying either a correct execution result or an error.
///
/// The purpose of this is to have a pretty easy to recognize JSON output format e.g.
///
/// {
///   "Result":{
///     "encoded":{ ... }
///   }
/// }
///
/// {
///   "Error":"Failed to run command"
/// }
///
#[derive(Debug)]
pub enum ResultWrapper<T> {
    Result(T),
    Error(String),
}

impl<T> From<Result<T, ErrorReport>> for ResultWrapper<T> {
    fn from(result: Result<T, ErrorReport>) -> (res: Self) {
        match result {
            Ok(inner) => ResultWrapper::Result(inner),
            Err(inner) => ResultWrapper::Error(inner.message),
        }
    }
}

impl<T> FromSpecImpl<Result<T, ErrorReport>> for ResultWrapper<T> {
    open spec fn obeys_from_spec() -> bool {
        true
    }

    open spec fn from_spec(result: Result<T, ErrorReport>) -> Self {
        match result {
            Ok(inner) => ResultWrapper::Result(inner),
            Err(inner) => ResultWrapper::Error(inner.message),
        }
    }
}

/// The JSON value of a result.
pub open spec fn result_frame(inner: JsonView) -> JsonView {
    JsonView::Object(seq![("Result"@, inner)])
}

/// The JSON value of an error.
pub open spec fn error_frame(message: Seq<char>) -> JsonView {
    JsonView::Object(seq![("Error"@, JsonView::Text(message))])
}

/// An object with one field.
fn tagged(tag: &str, inner: Json) -> (json: Json)
    ensures
        json@ == JsonView::Object(seq![(tag@, inner@)]),
        inner@.well_formed() ==> json@.well_formed(),
{
    let mut fields: Vec<(String, Json)> = Vec::new();
    fields.push((tag.to_owned(), inner));
    let json = Json::Object(fields);
    assert(json@->Object_0 =~= seq![(tag@, inner@)]);
    json
}

/// The JSON value of a wrapped result.
pub fn wrapper_json(wrapped: ResultWrapper<Json>) -> (json: Json)
    ensures
        match wrapped {
            ResultWrapper::Result(inner) => json@ == result_frame(inner@),
            ResultWrapper::Error(message) => json@ == error_frame(message@),
        },
        match wrapped {
            ResultWrapper::Result(inner) => json@ == JsonView::Object(seq![("Result"@, inner@)]),
            ResultWrapper::Error(message) => json@ == JsonView::Object(
                seq![("Error"@, JsonView::Text(message@))],
            ),
        },
        (wrapped matches ResultWrapper::Result(inner) ==> inner@.well_formed())
            ==> json@.well_formed(),
{
    match wrapped {
        ResultWrapper::Result(inner) => tagged("Result", inner),
        ResultWrapper::Error(message) => tagged("Error", Json::Text(message)),
    }
}

/// What is printed of a command's outcome.
pub open spec fn printed(result: Result<JsonView, Seq<char>>) -> Result<Seq<char>, Seq<char>> {
    match result {
        Ok(inner) => Ok(crate::json::pretty_text(result_frame(inner))),
        Err(message) => Err(crate::json::pretty_text(error_frame(message))),
    }
}

/// The contents of what a command prints.
pub open spec fn printed_view(res: CliResult) -> Result<Seq<char>, Seq<char>> {
    match res {
        Ok(text) => Ok(text@),
        Err(text) => Err(text@),
    }
}

/// For pretty printing outputs in JSON, of a value that is read already
pub fn common_result(result: Result<Json, ErrorReport>) -> (res: CliResult)
    requires
        result matches Ok(inner) ==> inner@.well_formed(),
    ensures
        printed_view(res) == printed(
            match result {
                Ok(inner) => Ok(inner@),
                Err(report) => Err(report.message@),
            },
        ),
        match result {
            Ok(inner) => res matches Ok(text) && text@ == crate::json::pretty_text(
                JsonView::Object(seq![("Result"@, inner@)]),
            ),
            Err(report) => res matches Err(text) && text@ == crate::json::pretty_text(
                JsonView::Object(seq![("Error"@, JsonView::Text(report.message@))]),
            ),
        },
{
    let is_err = result.is_err();
    let wrapped: ResultWrapper<Json> = ResultWrapper::from(result);
    let json = wrapper_json(wrapped);
    let string = pretty_value(&write_json(&json));
    if is_err {
        Err(string)
    } else {
        Ok(string)
    }
}

/// For pretty printing outputs in JSON
pub fn to_common_result(result: Result<serde_json::Value, ErrorReport>) -> (res: CliResult)
    ensures
        printed_view(res) == printed(
            match result {
                Ok(inner) => Ok(crate::json::json_of(inner)),
                Err(report) => Err(report.message@),
            },
        ),
        match result {
            Ok(inner) => res matches Ok(text) && text@ == crate::json::pretty_text(
                JsonView::Object(seq![("Result"@, crate::json::json_of(inner))]),
            ),
            Err(report) => res matches Err(text) && text@ == crate::json::pretty_text(
                JsonView::Object(seq![("Error"@, JsonView::Text(report.message@))]),
            ),
        },
{
    match result {
        Ok(inner) => common_result(Ok(read_json(&inner))),
        Err(report) => common_result(Err(report)),
    }
}

/// Convert any successful response to Success
pub fn to_common_success_result<T>(result: Result<T, ErrorReport>) -> (res: CliResult)
    ensures
        printed_view(res) == printed(
            match result {
                Ok(_) => Ok(JsonView::Text("Success"@)),
                Err(report) => Err(report.message@),
            },
        ),
        match result {
            Ok(_) => res matches Ok(text) && text@ == crate::json::pretty_text(
                JsonView::Object(seq![("Result"@, JsonView::Text("Success"@))]),
            ),
            Err(report) => res matches Err(text) && text@ == crate::json::pretty_text(
                JsonView::Object(seq![("Error"@, JsonView::Text(report.message@))]),
            ),
        },
{
    match result {
        Ok(_) => common_result(Ok(Json::Text("Success".to_owned()))),
        Err(report) => common_result(Err(report)),
    }
}

/// A telemetry event about a command and how it ended.
#[derive(Debug)]
pub struct TelemetryEvent {
    pub command: String,
    pub success: bool,
    /// The name of the error's type, if there was an error.
    pub error: Option<String>,
}

/// The telemetry event to send of a command that is done: none where telemetry
/// is disabled. Of an error it holds the type only.
pub fn telemetry_event<T>(disabled: bool, command: &str, result: &Result<T, ErrorReport>) -> (res:
    Option<TelemetryEvent>)
    ensures
        res is None <==> disabled,
        res matches Some(event) ==> {
            &&& event.command@ == command@
            &&& event.success == (result is Ok)
            &&& match *result {
                Ok(_) => event.error is None,
                Err(report) => event.error matches Some(kind) && kind@ == report.kind@,
            }
        },
{
    if disabled {
        return None;
    }
    let error = match result {
        Ok(_) => None,
        Err(report) => Some(report.kind.clone()),
    };
    Some(TelemetryEvent { command: command.to_owned(), success: result.is_ok(), error })
}

/// The two kinds of output are told apart by their one field.
pub proof fn law_frames_differ(inner: JsonView, message: Seq<char>)
    ensures
        crate::json::get_field(result_frame(inner), "Result"@) == Some(inner),
        crate::json::get_field(result_frame(inner), "Error"@) is None,
        crate::json::get_field(error_frame(message), "Error"@) == Some(JsonView::Text(message)),
        crate::json::get_field(error_frame(message), "Result"@) is None,
{
    reveal_strlit("Result");
    reveal_strlit("Error");
    assert("Result"@.len() != "Error"@.len());
    let fields = result_frame(inner)->Object_0;
    assert(fields.drop_first() =~= Seq::empty());
    let fields = error_frame(message)->Object_0;
    assert(fields.drop_first() =~= Seq::empty());
    reveal_with_fuel(crate::json::field_named, 2);
}

/// What is printed of a result is the text of an object with one field, `Result`,
/// which holds the result itself, whatever value it is; and what is printed of an
/// error is that of an object with one field, `Error`, which holds the message.
pub proof fn law_result_is_printed(inner: JsonView, message: Seq<char>)
    ensures
        exists|json: JsonView|
            {
                &&& printed(Ok(inner)) == Ok::<Seq<char>, Seq<char>>(
                    #[trigger] crate::json::pretty_text(json),
                )
                &&& json matches JsonView::Object(fields)
                &&& fields.len() == 1
                &&& fields[0].0 == "Result"@
                &&& fields[0].1 == inner
            },
        exists|json: JsonView|
            {
                &&& printed(Err(message)) == Err::<Seq<char>, Seq<char>>(
                    #[trigger] crate::json::pretty_text(json),
                )
                &&& json matches JsonView::Object(fields)
                &&& fields.len() == 1
                &&& fields[0].0 == "Error"@
                &&& fields[0].1 == JsonView::Text(message)
            },
{
    let json = JsonView::Object(seq![("Result"@, inner)]);
    assert(printed(Ok(inner)) == Ok::<Seq<char>, Seq<char>>(crate::json::pretty_text(json)));
    let json = JsonView::Object(seq![("Error"@, JsonView::Text(message))]);
    assert(printed(Err(message)) == Err::<Seq<char>, Seq<char>>(crate::json::pretty_text(json)));
}

/// A text is printed as a result exactly where the outcome is one, and the contents
/// of what is printed are its characters.
pub proof fn law_printed_keeps_the_outcome(res: CliResult, result: Result<JsonView, Seq<char>>)
    requires
        printed_view(res) == printed(result),
    ensures
        res is Ok <==> result is Ok,
        res matches Ok(text) ==> result matches Ok(inner) && text@ == crate::json::pretty_text(
            JsonView::Object(seq![("Result"@, inner)]),
        ),
        res matches Err(text) ==> result matches Err(message) && text@ == crate::json::pretty_text(
            JsonView::Object(seq![("Error"@, JsonView::Text(message))]),
        ),
{
}

/// Different outcomes have different frames: the value printed tells a result from
/// an error, and one result or message from another.
pub proof fn law_frames_hold_what_they_are_of(
    inner: JsonView,
    other: JsonView,
    message: Seq<char>,
    other_message: Seq<char>,
)
    ensures
        result_frame(inner) == result_frame(other) ==> inner == other,
        error_frame(message) == error_frame(other_message) ==> message == other_message,
        result_frame(inner) != error_frame(message),
{
    law_frames_differ(inner, message);
    law_frames_differ(other, other_message);
}

/// A result is wrapped as it is, and an error as its message.
pub proof fn law_wrapped<T>(inner: T, report: ErrorReport)
    ensures
        <ResultWrapper<T> as FromSpec<Result<T, ErrorReport>>>::from_spec(Ok(inner))
            == ResultWrapper::Result(inner),
        <ResultWrapper<T> as FromSpec<Result<T, ErrorReport>>>::from_spec(Err(report))
            == ResultWrapper::<T>::Error(report.message),
{
}

/// A command's result is printed under `Result`, whatever value it is, and its error
/// under `Error`.
pub proof fn law_outcome_is_printed(
    result: Result<serde_json::Value, ErrorReport>,
    res: CliResult,
)
    requires
        call_ensures(to_common_result, (result,), res),
    ensures
        result matches Ok(inner) ==> (res matches Ok(text) && text@ == crate::json::pretty_text(
            JsonView::Object(seq![("Result"@, crate::json::json_of(inner))]),
        )),
        result matches Err(report) ==> (res matches Err(text) && text@ == crate::json::pretty_text(
            JsonView::Object(seq![("Error"@, JsonView::Text(report.message@))]),
        )),
{
}

/// The same holds of a value that is read already.
pub proof fn law_value_is_printed(result: Result<Json, ErrorReport>, res: CliResult)
    requires
        call_ensures(common_result, (result,), res),
    ensures
        result matches Ok(inner) ==> (res matches Ok(text) && text@ == crate::json::pretty_text(
            JsonView::Object(seq![("Result"@, inner@)]),
        )),
        result matches Err(report) ==> (res matches Err(text) && text@ == crate::json::pretty_text(
            JsonView::Object(seq![("Error"@, JsonView::Text(report.message@))]),
        )),
{
}

/// Of a success only that it is one is printed, and an error as it always is.
pub proof fn law_success_is_printed<T>(result: Result<T, ErrorReport>, res: CliResult)
    requires
        call_ensures(to_common_success_result::<T>, (result,), res),
    ensures
        result is Ok ==> (res matches Ok(text) && text@ == crate::json::pretty_text(
            JsonView::Object(seq![("Result"@, JsonView::Text("Success"@))]),
        )),
        result matches Err(report) ==> (res matches Err(text) && text@ == crate::json::pretty_text(
            JsonView::Object(seq![("Error"@, JsonView::Text(report.message@))]),
        )),
{
}

/// A telemetry event is sent unless that is disabled. It says which command ended and
/// how, and of an error its type.
pub proof fn law_telemetry_of_a_command<T>(
    disabled: bool,
    command: &str,
    result: Result<T, ErrorReport>,
    res: Option<TelemetryEvent>,
)
    requires
        call_ensures(telemetry_event::<T>, (disabled, command, &result), res),
    ensures
        res is Some <==> !disabled,
        res matches Some(event) ==> event.command@ == command@,
        res matches Some(event) ==> (event.success <==> result is Ok),
        res matches Some(event) ==> (event.error is Some <==> result is Err),
        res matches Some(event) ==> result matches Err(report) ==> (event.error matches Some(name)
            && name@ == report.kind@),
{
}

} // verus!
