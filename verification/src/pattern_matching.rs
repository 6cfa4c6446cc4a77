//! Three small decision procedures: a summary of an HTTP response, a parser
//! for one line of configuration, and the transitions of a job's state.
use vstd::prelude::*;
use vstd::string::StringExecFns;
use crate::chars::{
    as_i64, contains_char, optional_text, parse_i64, split, split_on, texts, trim, trimmed,
};
use crate::text::{decimal, push_decimal, str_eq};

verus! {

/// The status of an HTTP response.
#[derive(Debug, Clone, Copy, PartialEq, Eq, Structural)]
pub enum HttpStatus {
    Okay,
    NotFound,
    ServerError,
    Custom(u16),
}

/// An HTTP response.
#[derive(Debug)]
pub struct HttpResponse {
    pub status: HttpStatus,
    pub body: Option<String>,
    pub headers: Vec<(String, String)>,
}

/// The one-line summary of a response with this status and body.  Custom
/// codes below 400 are informational, all others are errors.
pub open spec fn response_summary(status: HttpStatus, body: Option<Seq<char>>) -> Seq<char> {
    match status {
        HttpStatus::Okay => match body {
            Some(content) => "Success: "@ + content,
            None => "Success: No content"@,
        },
        HttpStatus::NotFound => "Error: Resource not found"@,
        HttpStatus::ServerError => "Error: Internal server error"@,
        HttpStatus::Custom(code) => if code < 400 {
            "Info: Status "@ + decimal(code as nat)
        } else {
            "Error: Status "@ + decimal(code as nat)
        },
    }
}

/// Summarises a response in one line.
pub fn handle_response(response: HttpResponse) -> (summary: String)
    ensures
        summary@ == response_summary(response.status, optional_text(response.body)),
{
    match response.status {
        HttpStatus::Okay => match response.body {
            Some(content) => {
                let mut summary = "Success: ".to_string();
                summary.append(content.as_str());
                summary
            },
            None => "Success: No content".to_string(),
        },
        HttpStatus::NotFound => "Error: Resource not found".to_string(),
        HttpStatus::ServerError => "Error: Internal server error".to_string(),
        HttpStatus::Custom(code) => {
            let mut summary = if code < 400 {
                "Info: Status ".to_string()
            } else {
                "Error: Status ".to_string()
            };
            push_decimal(&mut summary, code as u64);
            summary
        },
    }
}

/// A configuration value.
#[derive(Debug, PartialEq)]
pub enum ConfigValue {
    String(String),
    Integer(i64),
    Boolean(bool),
    Array(Vec<ConfigValue>),
}

/// Why a configuration line was refused.
#[derive(Debug, PartialEq)]
pub enum ParseError {
    InvalidFormat,
    InvalidNumber(String),
    UnknownType,
}

/// What a parsed configuration value says.  A parsed array holds texts.
pub enum ValueModel {
    String(Seq<char>),
    Integer(i64),
    Boolean(bool),
    Array(Seq<Seq<char>>),
}

/// What a `ParseError` says.
pub enum ParseErrorModel {
    InvalidFormat,
    InvalidNumber(Seq<char>),
    UnknownType,
}

/// Whether a configuration value says `model`.
pub open spec fn says(value: ConfigValue, model: ValueModel) -> bool {
    match (value, model) {
        (ConfigValue::String(s), ValueModel::String(t)) => s@ == t,
        (ConfigValue::Integer(a), ValueModel::Integer(b)) => a == b,
        (ConfigValue::Boolean(a), ValueModel::Boolean(b)) => a == b,
        (ConfigValue::Array(items), ValueModel::Array(pieces)) => {
            &&& items@.len() == pieces.len()
            &&& forall|i: int|
                0 <= i < pieces.len() ==> (#[trigger] items@[i] matches ConfigValue::String(s) && s@
                    == pieces[i])
        },
        _ => false,
    }
}

/// Whether a parse error says `model`.
pub open spec fn error_says(error: ParseError, model: ParseErrorModel) -> bool {
    match (error, model) {
        (ParseError::InvalidFormat, ParseErrorModel::InvalidFormat) => true,
        (ParseError::InvalidNumber(s), ParseErrorModel::InvalidNumber(t)) => s@ == t,
        (ParseError::UnknownType, ParseErrorModel::UnknownType) => true,
        _ => false,
    }
}

/// The 64-bit integer that `text` writes in decimal, if it writes one.
pub open spec fn as_integer(text: Seq<char>) -> Option<int> {
    match as_i64(text) {
        Ok(number) => Some(number),
        Err(_) => None,
    }
}

/// The value of `text` where no type is given: an integer where it writes
/// one, a boolean where it is `true` or `false`, otherwise the text itself.
pub open spec fn inferred_value(text: Seq<char>) -> ValueModel {
    match as_integer(text) {
        Some(number) => ValueModel::Integer(number as i64),
        None => if text == "true"@ {
            ValueModel::Boolean(true)
        } else if text == "false"@ {
            ValueModel::Boolean(false)
        } else {
            ValueModel::String(text)
        },
    }
}

/// The value of `text` under the type named `hint`: `string`, `int`, `bool`
/// or `array`, whose items are separated by commas and trimmed.
pub open spec fn typed_value(hint: Seq<char>, text: Seq<char>) -> Result<ValueModel, ParseErrorModel> {
    if hint == "string"@ {
        Ok(ValueModel::String(text))
    } else if hint == "int"@ {
        match as_integer(text) {
            Some(number) => Ok(ValueModel::Integer(number as i64)),
            None => Err(ParseErrorModel::InvalidNumber(text)),
        }
    } else if hint == "bool"@ {
        if text == "true"@ {
            Ok(ValueModel::Boolean(true))
        } else if text == "false"@ {
            Ok(ValueModel::Boolean(false))
        } else {
            Err(ParseErrorModel::InvalidFormat)
        }
    } else if hint == "array"@ {
        Ok(ValueModel::Array(split_on(text, ',').map_values(|piece: Seq<char>| trimmed(piece))))
    } else {
        Err(ParseErrorModel::UnknownType)
    }
}

/// What one line of configuration says.  A line is `key=value` or
/// `key:type=value`, with exactly one equals sign and at most one colon
/// before it.
pub open spec fn parsed_line(line: Seq<char>) -> Result<(Seq<char>, ValueModel), ParseErrorModel> {
    let parts = split_on(line, '=');
    if parts.len() != 2 {
        Err(ParseErrorModel::InvalidFormat)
    } else if parts[0].contains(':') {
        let named = split_on(parts[0], ':');
        if named.len() != 2 {
            Err(ParseErrorModel::InvalidFormat)
        } else {
            match typed_value(named[1], parts[1]) {
                Ok(value) => Ok((named[0], value)),
                Err(error) => Err(error),
            }
        }
    } else {
        Ok((parts[0], inferred_value(parts[1])))
    }
}

/// The value of `text` where no type is given.
fn infer_value(text: &str) -> (value: ConfigValue)
    ensures
        says(value, inferred_value(text@)),
{
    match parse_i64(text) {
        Ok(number) => ConfigValue::Integer(number),
        Err(_) => {
            if str_eq(text, "true") {
                ConfigValue::Boolean(true)
            } else if str_eq(text, "false") {
                ConfigValue::Boolean(false)
            } else {
                ConfigValue::String(text.to_string())
            }
        },
    }
}

/// The items of an array: the pieces of `text` between commas, trimmed.
fn array_items(text: &str) -> (items: Vec<ConfigValue>)
    ensures
        says(
            ConfigValue::Array(items),
            ValueModel::Array(split_on(text@, ',').map_values(|piece: Seq<char>| trimmed(piece))),
        ),
{
    let pieces = split(text, ',');
    let ghost wanted = split_on(text@, ',').map_values(|piece: Seq<char>| trimmed(piece));
    let mut items: Vec<ConfigValue> = Vec::new();
    let mut i: usize = 0;
    while i < pieces.len()
        invariant
            i <= pieces.len(),
            texts(pieces@) == split_on(text@, ','),
            wanted == split_on(text@, ',').map_values(|piece: Seq<char>| trimmed(piece)),
            items@.len() == i,
            forall|j: int|
                0 <= j < i ==> (#[trigger] items@[j] matches ConfigValue::String(s) && s@ == wanted[j]),
        decreases pieces.len() - i,
    {
        let item = trim(pieces[i].as_str());
        assert(texts(pieces@)[i as int] == pieces@[i as int]@);
        assert(item@ == wanted[i as int]);
        items.push(ConfigValue::String(item));
        i = i + 1;
    }
    assert(texts(pieces@).len() == pieces@.len());
    items
}

/// The value of `text` under the type named `hint`.
fn type_value(hint: &str, text: &str) -> (outcome: Result<ConfigValue, ParseError>)
    ensures
        match typed_value(hint@, text@) {
            Ok(model) => outcome matches Ok(value) && says(value, model),
            Err(model) => outcome matches Err(error) && error_says(error, model),
        },
{
    if str_eq(hint, "string") {
        Ok(ConfigValue::String(text.to_string()))
    } else if str_eq(hint, "int") {
        match parse_i64(text) {
            Ok(number) => Ok(ConfigValue::Integer(number)),
            Err(_) => Err(ParseError::InvalidNumber(text.to_string())),
        }
    } else if str_eq(hint, "bool") {
        if str_eq(text, "true") {
            Ok(ConfigValue::Boolean(true))
        } else if str_eq(text, "false") {
            Ok(ConfigValue::Boolean(false))
        } else {
            Err(ParseError::InvalidFormat)
        }
    } else if str_eq(hint, "array") {
        Ok(ConfigValue::Array(array_items(text)))
    } else {
        Err(ParseError::UnknownType)
    }
}

/// Parses one line of configuration into its key and its value.
pub fn parse_config_line(line: &str) -> (outcome: Result<(String, ConfigValue), ParseError>)
    ensures
        match parsed_line(line@) {
            Ok((key, model)) => outcome matches Ok((name, value)) && name@ == key && says(value, model),
            Err(model) => outcome matches Err(error) && error_says(error, model),
        },
{
    let parts = split(line, '=');
    assert(texts(parts@).len() == parts@.len());
    if parts.len() != 2 {
        return Err(ParseError::InvalidFormat);
    }
    assert(texts(parts@)[0] == parts@[0]@);
    assert(texts(parts@)[1] == parts@[1]@);
    let key_part = parts[0].as_str();
    let value_part = parts[1].as_str();
    if contains_char(key_part, ':') {
        let named = split(key_part, ':');
        assert(texts(named@).len() == named@.len());
        if named.len() != 2 {
            return Err(ParseError::InvalidFormat);
        }
        assert(texts(named@)[0] == named@[0]@);
        assert(texts(named@)[1] == named@[1]@);
        match type_value(named[1].as_str(), value_part) {
            Ok(value) => Ok((named[0].clone(), value)),
            Err(error) => Err(error),
        }
    } else {
        Ok((key_part.to_string(), infer_value(value_part)))
    }
}

/// The state of a job.
#[derive(Debug, Clone, PartialEq)]
pub enum State {
    Idle,
    Processing { progress: u8 },
    Error { message: String, recoverable: bool },
    Complete,
}

/// Something that happens to a job.
#[derive(Debug)]
pub enum Event {
    Start,
    Progress(u8),
    Error(String, bool),
    Reset,
    Finish,
}

/// What a `State` says.
pub enum StateModel {
    Idle,
    Processing { progress: u8 },
    Error { message: Seq<char>, recoverable: bool },
    Complete,
}

/// What an `Event` says.
pub enum EventModel {
    Start,
    Progress(u8),
    Error(Seq<char>, bool),
    Reset,
    Finish,
}

impl View for State {
    type V = StateModel;

    open spec fn view(&self) -> StateModel {
        match *self {
            State::Idle => StateModel::Idle,
            State::Processing { progress } => StateModel::Processing { progress },
            State::Error { message, recoverable } => StateModel::Error { message: message@, recoverable },
            State::Complete => StateModel::Complete,
        }
    }
}

impl View for Event {
    type V = EventModel;

    open spec fn view(&self) -> EventModel {
        match *self {
            Event::Start => EventModel::Start,
            Event::Progress(n) => EventModel::Progress(n),
            Event::Error(message, recoverable) => EventModel::Error(message@, recoverable),
            Event::Reset => EventModel::Reset,
            Event::Finish => EventModel::Finish,
        }
    }
}

/// The state of a job after an event.  An idle job can start; a job in
/// progress can advance, finish or fail; a failed job can be reset where
/// the failure is recoverable; a finished job can be reset.  Any other
/// event leaves the state as it is.
pub open spec fn transition(current: StateModel, event: EventModel) -> StateModel {
    match (current, event) {
        (StateModel::Idle, EventModel::Start) => StateModel::Processing { progress: 0 },
        (StateModel::Processing { .. }, EventModel::Progress(n)) => StateModel::Processing { progress: n },
        (StateModel::Processing { .. }, EventModel::Finish) => StateModel::Complete,
        (StateModel::Processing { .. }, EventModel::Error(message, recoverable)) => StateModel::Error {
            message,
            recoverable,
        },
        (StateModel::Error { recoverable: true, .. }, EventModel::Reset) => StateModel::Idle,
        (StateModel::Complete, EventModel::Reset) => StateModel::Idle,
        (unchanged, _) => unchanged,
    }
}

/// The state of a job after an event.
pub fn transition_state(current: State, event: Event) -> (next: State)
    ensures
        next@ == transition(current@, event@),
{
    match (current, event) {
        (State::Idle, Event::Start) => State::Processing { progress: 0 },
        (State::Processing { .. }, Event::Progress(n)) => State::Processing { progress: n },
        (State::Processing { .. }, Event::Finish) => State::Complete,
        (State::Processing { .. }, Event::Error(message, recoverable)) => State::Error {
            message,
            recoverable,
        },
        (State::Error { recoverable: true, .. }, Event::Reset) => State::Idle,
        (State::Complete, Event::Reset) => State::Idle,
        (unchanged, _) => unchanged,
    }
}

/// A failure that cannot be recovered from is final: no event changes it.
pub proof fn lemma_fatal_error_is_final(message: Seq<char>, event: EventModel)
    ensures
        transition(StateModel::Error { message, recoverable: false }, event) == (StateModel::Error {
            message,
            recoverable: false,
        }),
{
}

} // verus!
