//! JSON values and what view functions return in them.
use vstd::prelude::*;

use crate::error::{CliError, CliErrorView, CliTypedResult};
use crate::text::{followed_by, same_text};

verus! {

/// `serde_json::Value`, whose contents [`json_of`] names.
#[verifier::external_type_specification]
#[verifier::external_body]
pub struct ExValue(serde_json::Value);

/// `serde_json::Number`, carried unread.
#[verifier::external_type_specification]
#[verifier::external_body]
pub struct ExNumber(serde_json::Number);

/// A JSON value.
#[derive(Debug)]
pub enum Json {
    Null,
    Bool(bool),
    Number(serde_json::Number),
    Text(String),
    Array(Vec<Json>),
    /// The fields in order. No two have the same name.
    Object(Vec<(String, Json)>),
}

/// The contents of a JSON value.
pub enum JsonView {
    Null,
    Bool(bool),
    Number(serde_json::Number),
    Text(Seq<char>),
    Array(Seq<JsonView>),
    Object(Seq<(Seq<char>, JsonView)>),
}

impl Json {
    /// The contents of this value.
    pub open spec fn contents(self) -> JsonView
        decreases self,
    {
        match self {
            Json::Null => JsonView::Null,
            Json::Bool(b) => JsonView::Bool(b),
            Json::Number(n) => JsonView::Number(n),
            Json::Text(s) => JsonView::Text(s@),
            Json::Array(items) => JsonView::Array(
                Seq::new(
                    items@.len(),
                    |i: int|
                        if 0 <= i < items@.len() {
                            items@[i].contents()
                        } else {
                            JsonView::Null
                        },
                ),
            ),
            Json::Object(fields) => JsonView::Object(
                Seq::new(
                    fields@.len(),
                    |i: int|
                        if 0 <= i < fields@.len() {
                            (fields@[i].0@, fields@[i].1.contents())
                        } else {
                            (Seq::empty(), JsonView::Null)
                        },
                ),
            ),
        }
    }
}

impl View for Json {
    type V = JsonView;

    open spec fn view(&self) -> JsonView {
        self.contents()
    }
}

impl JsonView {
    /// Whether no object in this value has two fields of one name.
    pub open spec fn well_formed(self) -> bool
        decreases self,
    {
        match self {
            JsonView::Array(items) => forall|i: int|
                0 <= i < items.len() ==> (#[trigger] items[i]).well_formed(),
            JsonView::Object(fields) => {
                &&& forall|i: int, j: int|
                    0 <= i < j < fields.len() ==> (#[trigger] fields[i]).0 != (
                    #[trigger] fields[j]).0
                &&& forall|i: int| 0 <= i < fields.len() ==> (#[trigger] fields[i]).1.well_formed()
            },
            _ => true,
        }
    }
}

/// What a `serde_json::Value` holds.
pub uninterp spec fn json_of(value: serde_json::Value) -> JsonView;

/// The text that the `Display` implementation of `serde_json::Value` prints.
pub uninterp spec fn compact_text(json: JsonView) -> Seq<char>;

/// The text that the `Debug` implementation of a vector of `serde_json::Value`
/// prints.
pub uninterp spec fn debug_text(items: Seq<JsonView>) -> Seq<char>;

/// The text that `serde_json::to_string_pretty` gives for a `serde_json::Value`.
pub uninterp spec fn pretty_text(json: JsonView) -> Seq<char>;

/// What each of these values holds.
pub open spec fn contents_of(values: Seq<serde_json::Value>) -> Seq<JsonView> {
    Seq::new(values.len(), |i: int| json_of(values[i]))
}

/// What each of these fields holds.
pub open spec fn fields_of(fields: Seq<(String, serde_json::Value)>) -> Seq<
    (Seq<char>, JsonView),
> {
    Seq::new(fields.len(), |i: int| (fields[i].0@, json_of(fields[i].1)))
}

/// A JSON value opened by one level.
enum Opened {
    Null,
    Bool(bool),
    Number(serde_json::Number),
    Text(String),
    Array(Vec<serde_json::Value>),
    Object(Vec<(String, serde_json::Value)>),
}

impl Opened {
    spec fn contents(self) -> JsonView {
        match self {
            Opened::Null => JsonView::Null,
            Opened::Bool(b) => JsonView::Bool(b),
            Opened::Number(n) => JsonView::Number(n),
            Opened::Text(s) => JsonView::Text(s@),
            Opened::Array(items) => JsonView::Array(contents_of(items@)),
            Opened::Object(fields) => JsonView::Object(fields_of(fields@)),
        }
    }
}

/// `serde_json::Number::clone`: the copy is the number.
pub assume_specification[ <serde_json::Number as Clone>::clone ](n: &serde_json::Number) -> (res:
    serde_json::Number)
    ensures
        res == *n,
;

/// `serde_json::Value::clone`, and the variant of the copy: it holds what
/// [`json_of`] names. `serde_json::Map` keeps one entry for each name, so the
/// fields of an object have names of their own.
#[verifier::external_body]
fn open_value(value: &serde_json::Value) -> (opened: Opened)
    ensures
        opened.contents() == json_of(*value),
        opened matches Opened::Object(fields) ==> forall|i: int, j: int|
            0 <= i < j < fields@.len() ==> (#[trigger] fields@[i]).0@ != (#[trigger] fields@[j]).0@,
{
    match value.clone() {
        serde_json::Value::Null => Opened::Null,
        serde_json::Value::Bool(b) => Opened::Bool(b),
        serde_json::Value::Number(n) => Opened::Number(n),
        serde_json::Value::String(s) => Opened::Text(s),
        serde_json::Value::Array(items) => Opened::Array(items),
        serde_json::Value::Object(fields) => Opened::Object(fields.into_iter().collect()),
    }
}

/// The variants of `serde_json::Value`: a value made of these parts holds them.
/// With the feature `preserve_order` a `serde_json::Map` keeps its fields in the
/// order in which they were entered, where their names differ.
#[verifier::external_body]
fn close_value(opened: Opened) -> (value: serde_json::Value)
    requires
        opened matches Opened::Object(fields) ==> forall|i: int, j: int|
            0 <= i < j < fields@.len() ==> (#[trigger] fields@[i]).0@ != (#[trigger] fields@[j]).0@,
    ensures
        json_of(value) == opened.contents(),
{
    match opened {
        Opened::Null => serde_json::Value::Null,
        Opened::Bool(b) => serde_json::Value::Bool(b),
        Opened::Number(n) => serde_json::Value::Number(n),
        Opened::Text(s) => serde_json::Value::String(s),
        Opened::Array(items) => serde_json::Value::Array(items),
        Opened::Object(fields) => serde_json::Value::Object(fields.into_iter().collect()),
    }
}

/// The `Display` implementation of `serde_json::Value`: the text depends on what
/// the value holds and on nothing else.
#[verifier::external_body]
fn display_value(value: &serde_json::Value) -> (text: String)
    ensures
        text@ == compact_text(json_of(*value)),
{
    value.to_string()
}

/// The `Debug` implementation of `Vec<serde_json::Value>`: the text depends on
/// what the values hold and on nothing else.
#[verifier::external_body]
fn debug_values(values: &Vec<serde_json::Value>) -> (text: String)
    ensures
        text@ == debug_text(contents_of(values@)),
{
    format!("{:?}", values)
}

/// `serde_json::to_string_pretty`: the text depends on what the value holds and
/// on nothing else. It fails for maps with keys other than strings, which a
/// `serde_json::Value` has none of.
#[verifier::external_body]
pub(crate) fn pretty_value(value: &serde_json::Value) -> (text: String)
    ensures
        text@ == pretty_text(json_of(*value)),
{
    serde_json::to_string_pretty(value).unwrap()
}

proof fn lemma_item_is_smaller(json: JsonView, i: int)
    requires
        json is Array,
        0 <= i < json->Array_0.len(),
    ensures
        decreases_to!(json => json->Array_0[i]),
{
    assert(decreases_to!(json => json->Array_0));
    assert(decreases_to!(json->Array_0 => json->Array_0[i]));
}

proof fn lemma_field_is_smaller(json: JsonView, i: int)
    requires
        json is Object,
        0 <= i < json->Object_0.len(),
    ensures
        decreases_to!(json => json->Object_0[i].1),
{
    assert(decreases_to!(json => json->Object_0));
    assert(decreases_to!(json->Object_0 => json->Object_0[i]));
    assert(decreases_to!(json->Object_0[i] => json->Object_0[i].1));
}

/// Reads a `serde_json::Value`.
pub fn read_json(value: &serde_json::Value) -> (json: Json)
    ensures
        json@ == json_of(*value),
        json@.well_formed(),
    decreases json_of(*value),
{
    match open_value(value) {
        Opened::Null => Json::Null,
        Opened::Bool(b) => Json::Bool(b),
        Opened::Number(n) => Json::Number(n),
        Opened::Text(s) => Json::Text(s),
        Opened::Array(items) => {
            let ghost all = contents_of(items@);
            assert(json_of(*value) == JsonView::Array(all));
            let mut read: Vec<Json> = Vec::new();
            let mut i: usize = 0;
            while i < items.len()
                invariant
                    all == contents_of(items@),
                    json_of(*value) == JsonView::Array(all),
                    i <= items.len(),
                    read@.len() == i,
                    forall|j: int| 0 <= j < i ==> (#[trigger] read@[j])@ == all[j],
                    forall|j: int| 0 <= j < i ==> (#[trigger] read@[j])@.well_formed(),
                decreases items.len() - i,
            {
                assert(all[i as int] == json_of(items@[i as int]));
                proof {
                    lemma_item_is_smaller(json_of(*value), i as int);
                }
                read.push(read_json(&items[i]));
                i = i + 1;
            }
            let json = Json::Array(read);
            assert(json@->Array_0 =~= all);
            json
        },
        Opened::Object(fields) => {
            let ghost all = fields_of(fields@);
            assert(json_of(*value) == JsonView::Object(all));
            let mut read: Vec<(String, Json)> = Vec::new();
            let mut i: usize = 0;
            while i < fields.len()
                invariant
                    all == fields_of(fields@),
                    json_of(*value) == JsonView::Object(all),
                    i <= fields.len(),
                    read@.len() == i,
                    forall|j: int|
                        0 <= j < i ==> (#[trigger] read@[j]).0@ == all[j].0 && read@[j].1@ == all[j].1,
                    forall|j: int| 0 <= j < i ==> (#[trigger] read@[j]).1@.well_formed(),
                decreases fields.len() - i,
            {
                assert(all[i as int].1 == json_of(fields@[i as int].1));
                proof {
                    lemma_field_is_smaller(json_of(*value), i as int);
                }
                read.push((fields[i].0.clone(), read_json(&fields[i].1)));
                i = i + 1;
            }
            let json = Json::Object(read);
            assert(json@->Object_0 =~= all);
            json
        },
    }
}

/// Makes a `serde_json::Value` of a value.
pub fn write_json(json: &Json) -> (value: serde_json::Value)
    requires
        json@.well_formed(),
    ensures
        json_of(value) == json@,
    decreases json@, 1nat,
{
    match json {
        Json::Null => close_value(Opened::Null),
        Json::Bool(b) => close_value(Opened::Bool(*b)),
        Json::Number(n) => close_value(Opened::Number(n.clone())),
        Json::Text(s) => close_value(Opened::Text(s.clone())),
        Json::Array(items) => {
            let ghost all = json@->Array_0;
            let values = write_items(items, Ghost(json@));
            assert(contents_of(values@) =~= all);
            close_value(Opened::Array(values))
        },
        Json::Object(fields) => {
            let ghost all = json@->Object_0;
            let mut values: Vec<(String, serde_json::Value)> = Vec::new();
            let mut i: usize = 0;
            while i < fields.len()
                invariant
                    json@ == JsonView::Object(all),
                    json@.well_formed(),
                    all.len() == fields@.len(),
                    forall|j: int|
                        0 <= j < all.len() ==> #[trigger] all[j] == (fields@[j].0@, fields@[j].1@),
                    i <= fields.len(),
                    values@.len() == i,
                    forall|j: int|
                        0 <= j < i ==> (#[trigger] values@[j]).0@ == all[j].0 && json_of(
                            values@[j].1,
                        ) == all[j].1,
                decreases fields.len() - i,
            {
                proof {
                    lemma_field_is_smaller(json@, i as int);
                    assert(all[i as int].1.well_formed());
                }
                values.push((fields[i].0.clone(), write_json(&fields[i].1)));
                i = i + 1;
            }
            assert(fields_of(values@) =~= all);
            proof {
                assert forall|i: int, j: int| 0 <= i < j < values@.len() implies (
                #[trigger] values@[i]).0@ != (#[trigger] values@[j]).0@ by {
                    assert(all[i].0 != all[j].0);
                }
            }
            close_value(Opened::Object(values))
        },
    }
}

/// Makes a `serde_json::Value` of each item of an array.
fn write_items(items: &Vec<Json>, Ghost(array): Ghost<JsonView>) -> (values: Vec<serde_json::Value>)
    requires
        array is Array,
        array->Array_0.len() == items@.len(),
        forall|j: int| 0 <= j < items@.len() ==> #[trigger] array->Array_0[j] == items@[j]@,
        array.well_formed(),
    ensures
        contents_of(values@) == array->Array_0,
    decreases array, 0nat,
{
    let ghost all = array->Array_0;
    let mut values: Vec<serde_json::Value> = Vec::new();
    let mut i: usize = 0;
    while i < items.len()
        invariant
            array == JsonView::Array(all),
            array.well_formed(),
            all.len() == items@.len(),
            forall|j: int| 0 <= j < all.len() ==> #[trigger] all[j] == items@[j]@,
            i <= items.len(),
            values@.len() == i,
            forall|j: int| 0 <= j < i ==> json_of(#[trigger] values@[j]) == all[j],
        decreases items.len() - i,
    {
        proof {
            lemma_item_is_smaller(array, i as int);
            assert(all[i as int].well_formed());
        }
        values.push(write_json(&items[i]));
        i = i + 1;
    }
    assert(contents_of(values@) =~= all);
    values
}

/// The first of these fields that has this name.
pub open spec fn field_named(fields: Seq<(Seq<char>, JsonView)>, name: Seq<char>) -> Option<
    JsonView,
>
    decreases fields.len(),
{
    if fields.len() == 0 {
        None
    } else if fields[0].0 == name {
        Some(fields[0].1)
    } else {
        field_named(fields.drop_first(), name)
    }
}

/// The field of this value that has this name. A value other than an object has none.
pub open spec fn get_field(json: JsonView, name: Seq<char>) -> Option<JsonView> {
    match json {
        JsonView::Object(fields) => field_named(fields, name),
        _ => None,
    }
}

/// The field of `json` that has this name.
fn find_field<'a>(json: &'a Json, name: &str) -> (res: Option<&'a Json>)
    ensures
        match res {
            Some(field) => get_field(json@, name@) == Some(field@),
            None => get_field(json@, name@) is None,
        },
        json@.well_formed() ==> (res matches Some(field) ==> field@.well_formed()),
{
    match json {
        Json::Object(fields) => {
            let ghost all = json@->Object_0;
            let mut i: usize = 0;
            assert(all.skip(0) =~= all);
            while i < fields.len()
                invariant
                    json@ == JsonView::Object(all),
                    all.len() == fields@.len(),
                    forall|j: int|
                        0 <= j < all.len() ==> #[trigger] all[j] == (fields@[j].0@, fields@[j].1@),
                    i <= fields.len(),
                    field_named(all, name@) == field_named(all.skip(i as int), name@),
                decreases fields.len() - i,
            {
                assert(all.skip(i as int)[0] == all[i as int]);
                assert(all.skip(i as int).drop_first() =~= all.skip(i + 1));
                if same_text(fields[i].0.as_str(), name) {
                    assert(json@.well_formed() ==> all[i as int].1.well_formed());
                    return Some(&fields[i].1);
                }
                i = i + 1;
            }
            None
        },
        _ => None,
    }
}

/// What a value says that stands for an option: an object with a field `vec`,
/// which is an array that is empty or holds one string.
pub open spec fn option_str(json: JsonView) -> Result<Option<Seq<char>>, CliErrorView> {
    match get_field(json, "vec"@) {
        None => Err(
            CliErrorView::UnexpectedError(
                "JSON field does not have an inner `vec` field: "@ + compact_text(json),
            ),
        ),
        Some(JsonView::Array(items)) => if items.len() == 0 {
            Ok(None)
        } else if items.len() > 1 {
            Err(
                CliErrorView::UnexpectedError(
                    "JSON `vec` array has more than one element: "@ + debug_text(items),
                ),
            )
        } else {
            match items[0] {
                JsonView::Text(s) => Ok(Some(s)),
                item => Err(
                    CliErrorView::UnexpectedError(
                        "JSON option is not a string: "@ + compact_text(item),
                    ),
                ),
            }
        },
        Some(field) => Err(
            CliErrorView::UnexpectedError(
                "JSON `vec` field is not an array: "@ + compact_text(field),
            ),
        ),
    }
}

/// The contents of an outcome of reading an option.
pub open spec fn option_outcome(res: CliTypedResult<Option<String>>) -> Result<
    Option<Seq<char>>,
    CliErrorView,
> {
    match res {
        Ok(Some(s)) => Ok(Some(s@)),
        Ok(None) => Ok(None),
        Err(error) => Err(error@),
    }
}

/// An unexpected error with the text of a value in its message.
fn unexpected_value<T>(message: &str, json: &Json) -> (res: CliTypedResult<T>)
    requires
        json@.well_formed(),
    ensures
        res matches Err(error) && error@ == CliErrorView::UnexpectedError(
            message@ + compact_text(json@),
        ),
{
    let text = display_value(&write_json(json));
    Err(CliError::UnexpectedError(followed_by(message, text.as_str())))
}

/// Reads the string option that a view function returned.
pub fn json_option_str(json: &Json) -> (res: CliTypedResult<Option<String>>)
    requires
        json@.well_formed(),
    ensures
        option_outcome(res) == option_str(json@),
{
    match find_field(json, "vec") {
        Some(field) => match field {
            Json::Array(items) => {
                let ghost all = field@->Array_0;
                assert(all.len() == items@.len());
                if items.len() == 0 {
                    Ok(None)
                } else if items.len() > 1 {
                    let values = write_items(items, Ghost(field@));
                    let text = debug_values(&values);
                    Err(
                        CliError::UnexpectedError(
                            followed_by("JSON `vec` array has more than one element: ", text.as_str()),
                        ),
                    )
                } else {
                    assert(all[0] == items@[0]@);
                    match &items[0] {
                        Json::Text(s) => Ok(Some(s.clone())),
                        item => unexpected_value("JSON option is not a string: ", item),
                    }
                }
            },
            _ => unexpected_value("JSON `vec` field is not an array: ", field),
        },
        None => unexpected_value("JSON field does not have an inner `vec` field: ", json),
    }
}

/// Convert a view function JSON field into a string option.
///
/// A view function JSON return represents an option via an inner JSON array titled `vec`.
pub fn view_json_option_str(option_ref: &serde_json::Value) -> (res: CliTypedResult<Option<String>>)
    ensures
        option_outcome(res) == option_str(json_of(*option_ref)),
{
    json_option_str(&read_json(option_ref))
}

/// The value by which a view function returns an option.
pub open spec fn option_value(option: Option<Seq<char>>) -> JsonView {
    let items = match option {
        Some(s) => seq![JsonView::Text(s)],
        None => Seq::empty(),
    };
    JsonView::Object(seq![("vec"@, JsonView::Array(items))])
}

/// An option is read back from the value by which it is returned.
pub proof fn law_option_reads_back(option: Option<Seq<char>>)
    ensures
        option_str(option_value(option)) == Ok::<Option<Seq<char>>, CliErrorView>(option),
{
}

/// An option is read exactly from an object whose field `vec` is an empty array
/// or an array of one string; every other value is an unexpected error.
pub proof fn law_option_str(json: JsonView)
    ensures
        option_str(json) is Ok <==> {
            &&& get_field(json, "vec"@) matches Some(JsonView::Array(items))
            &&& items.len() == 0 || items.len() == 1 && items[0] is Text
        },
        option_str(json) matches Err(error) ==> error is UnexpectedError,
{
}

proof fn lemma_field_named(fields: Seq<(Seq<char>, JsonView)>, name: Seq<char>, at: int)
    requires
        0 <= at <= fields.len(),
        forall|i: int| 0 <= i < at ==> (#[trigger] fields[i]).0 != name,
    ensures
        at == fields.len() ==> field_named(fields, name) is None,
        at < fields.len() && fields[at].0 == name ==> field_named(fields, name) == Some(
            fields[at].1,
        ),
    decreases fields.len(),
{
    if at > 0 {
        let rest = fields.drop_first();
        assert(fields[0].0 != name);
        assert forall|i: int| 0 <= i < at - 1 implies (#[trigger] rest[i]).0 != name by {
            assert(rest[i] == fields[i + 1]);
        }
        lemma_field_named(rest, name, at - 1);
    }
}

/// A field is found by its name, wherever it stands in an object.
pub proof fn law_field_is_found(fields: Seq<(Seq<char>, JsonView)>, at: int)
    requires
        0 <= at < fields.len(),
        forall|i: int| 0 <= i < at ==> (#[trigger] fields[i]).0 != fields[at].0,
    ensures
        get_field(JsonView::Object(fields), fields[at].0) == Some(fields[at].1),
{
    lemma_field_named(fields, fields[at].0, at);
}

/// A name that no field has is not found, and a value other than an object has no
/// fields.
pub proof fn law_field_is_missing(json: JsonView, name: Seq<char>)
    requires
        json matches JsonView::Object(fields) ==> forall|i: int|
            0 <= i < fields.len() ==> (#[trigger] fields[i]).0 != name,
    ensures
        get_field(json, name) is None,
{
    if let JsonView::Object(fields) = json {
        lemma_field_named(fields, name, fields.len() as int);
    }
}

/// An object whose field `vec` is an array stands for the option in that array: none
/// if it is empty, the string if it holds one string and nothing else. With any other
/// array the error shows what is wrong with it.
pub proof fn law_option_in_array(
    fields: Seq<(Seq<char>, JsonView)>,
    at: int,
    items: Seq<JsonView>,
)
    requires
        0 <= at < fields.len(),
        fields[at] == ("vec"@, JsonView::Array(items)),
        forall|i: int| 0 <= i < at ==> (#[trigger] fields[i]).0 != "vec"@,
    ensures
        items.len() == 0 ==> option_str(JsonView::Object(fields)) == Ok::<
            Option<Seq<char>>,
            CliErrorView,
        >(None),
        items.len() == 1 ==> (items[0] matches JsonView::Text(s) ==> option_str(
            JsonView::Object(fields),
        ) == Ok::<Option<Seq<char>>, CliErrorView>(Some(s))),
        items.len() == 1 && items[0] !is Text ==> option_str(JsonView::Object(fields)) == Err::<
            Option<Seq<char>>,
            CliErrorView,
        >(
            CliErrorView::UnexpectedError(
                "JSON option is not a string: "@ + compact_text(items[0]),
            ),
        ),
        items.len() > 1 ==> option_str(JsonView::Object(fields)) == Err::<
            Option<Seq<char>>,
            CliErrorView,
        >(
            CliErrorView::UnexpectedError(
                "JSON `vec` array has more than one element: "@ + debug_text(items),
            ),
        ),
{
    law_field_is_found(fields, at);
}

/// An object whose field `vec` is something else than an array stands for no option,
/// and neither does a value without that field: the error shows the field, or the
/// whole value.
pub proof fn law_option_without_array(json: JsonView, at: int)
    ensures
        json matches JsonView::Object(fields) ==> 0 <= at < fields.len() && fields[at].0 == "vec"@
            && fields[at].1 !is Array && (forall|i: int|
            0 <= i < at ==> (#[trigger] fields[i]).0 != "vec"@) ==> option_str(json) == Err::<
            Option<Seq<char>>,
            CliErrorView,
        >(
            CliErrorView::UnexpectedError(
                "JSON `vec` field is not an array: "@ + compact_text(fields[at].1),
            ),
        ),
        (json matches JsonView::Object(fields) ==> forall|i: int|
            0 <= i < fields.len() ==> (#[trigger] fields[i]).0 != "vec"@) ==> option_str(json)
            == Err::<Option<Seq<char>>, CliErrorView>(
            CliErrorView::UnexpectedError(
                "JSON field does not have an inner `vec` field: "@ + compact_text(json),
            ),
        ),
{
    if let JsonView::Object(fields) = json {
        if 0 <= at < fields.len() && fields[at].0 == "vec"@ && (forall|i: int|
            0 <= i < at ==> (#[trigger] fields[i]).0 != "vec"@) {
            law_field_is_found(fields, at);
        }
        if forall|i: int| 0 <= i < fields.len() ==> (#[trigger] fields[i]).0 != "vec"@ {
            law_field_is_missing(json, "vec"@);
        }
    }
}

/// The outcome of reading an option is told by its own contents.
pub proof fn law_option_outcome(res: CliTypedResult<Option<String>>, s: Seq<char>)
    ensures
        option_outcome(res) == Ok::<Option<Seq<char>>, CliErrorView>(Some(s)) <==> (
        res matches Ok(Some(text)) && text@ == s),
        option_outcome(res) == Ok::<Option<Seq<char>>, CliErrorView>(None) <==> (
        res matches Ok(option) && option is None),
        option_outcome(res) == Err::<Option<Seq<char>>, CliErrorView>(
            CliErrorView::UnexpectedError(s),
        ) <==> (res matches Err(CliError::UnexpectedError(message)) && message@ == s),
{
}

/// A value that is written and read again is the same value.
pub proof fn law_value_reads_back(json: Json, value: serde_json::Value, back: Json)
    requires
        json@.well_formed(),
        call_ensures(write_json, (&json,), value),
        call_ensures(read_json, (&value,), back),
    ensures
        back@ == json@,
        back@.well_formed(),
{
}

/// A view function's option is read from the value that it returned, and from the same
/// value read beforehand alike: none from an empty array in `vec`, and a string from an
/// array that holds it alone.
pub proof fn law_view_function_option(
    value: serde_json::Value,
    fields: Seq<(Seq<char>, JsonView)>,
    at: int,
    items: Seq<JsonView>,
    json: Json,
    res: CliTypedResult<Option<String>>,
    same: CliTypedResult<Option<String>>,
)
    requires
        json_of(value) == JsonView::Object(fields),
        json@ == JsonView::Object(fields),
        0 <= at < fields.len(),
        fields[at] == ("vec"@, JsonView::Array(items)),
        forall|i: int| 0 <= i < at ==> (#[trigger] fields[i]).0 != "vec"@,
        call_ensures(view_json_option_str, (&value,), res),
        call_ensures(json_option_str, (&json,), same),
    ensures
        option_outcome(res) == option_outcome(same),
        items.len() == 0 <==> (res matches Ok(option) && option is None),
        items.len() == 1 ==> (items[0] matches JsonView::Text(s) ==> (res matches Ok(Some(text))
            && text@ == s)),
        res matches Ok(Some(text)) ==> items == seq![JsonView::Text(text@)],
        items.len() > 1 ==> (res matches Err(CliError::UnexpectedError(message)) && message@
            == "JSON `vec` array has more than one element: "@ + debug_text(items)),
        items.len() == 1 && items[0] !is Text ==> (res matches Err(
            CliError::UnexpectedError(message),
        ) && message@ == "JSON option is not a string: "@ + compact_text(items[0])),
{
    law_option_in_array(fields, at, items);
    if let Ok(Some(text)) = res {
        assert(items =~= seq![JsonView::Text(text@)]);
    }
}

/// A value without an array in `vec` is an error that shows the field, or the value if
/// it has no such field.
pub proof fn law_view_function_without_option(
    value: serde_json::Value,
    at: int,
    res: CliTypedResult<Option<String>>,
)
    requires
        call_ensures(view_json_option_str, (&value,), res),
    ensures
        json_of(value) matches JsonView::Object(fields) ==> 0 <= at < fields.len() && fields[at].0
            == "vec"@ && fields[at].1 !is Array && (forall|i: int|
            0 <= i < at ==> (#[trigger] fields[i]).0 != "vec"@) ==> (res matches Err(
            CliError::UnexpectedError(message),
        ) && message@ == "JSON `vec` field is not an array: "@ + compact_text(fields[at].1)),
        (json_of(value) matches JsonView::Object(fields) ==> forall|i: int|
            0 <= i < fields.len() ==> (#[trigger] fields[i]).0 != "vec"@) ==> (res matches Err(
            CliError::UnexpectedError(message),
        ) && message@ == "JSON field does not have an inner `vec` field: "@ + compact_text(
            json_of(value),
        )),
{
    law_option_without_array(json_of(value), at);
}

} // verus!
