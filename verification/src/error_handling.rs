//! Failures as values: a configuration in `key=value` lines, a processor
//! that collects the failures of a file of numbers, and an e-mail builder
//! that checks each part as it is set.
use vstd::prelude::*;
use vstd::string::StringExecFns;
use crate::chars::{
    as_i32, contains_char, find_char, integer_error_text, lines, lines_of, optional_text, parse_i32,
    string_of, texts, to_chars, trim, trimmed, IntegerError,
};
use crate::lookup::{
    lemma_position_found, lemma_position_meaning, lemma_position_missing,
    lemma_push_keeps_distinct, position,
};
use crate::text::{decimal, push_decimal, push_signed_decimal, signed_decimal, str_eq};

verus! {

/// `std::io::Error`, a failure of input or output.  Nothing is known of
/// what it holds.
#[verifier::external_type_specification]
#[verifier::external_body]
pub struct ExIoError(std::io::Error);

/// The words of an input or output failure, as `std::io::Error` displays
/// them with `to_string`.  They depend on the system, so nothing is claimed
/// of them.
#[verifier::external_body]
fn io_error_text(error: &std::io::Error) -> String {
    error.to_string()
}

/// Why a configuration could not be had.
#[derive(Debug)]
pub enum ConfigError {
    IoError(std::io::Error),
    ParseError(String),
    ValidationError(String),
}

/// What a `ConfigError` says.  The system's account of an input or output
/// failure is left out.
pub enum ConfigErrorModel {
    IoError,
    ParseError(Seq<char>),
    ValidationError(Seq<char>),
}

impl View for ConfigError {
    type V = ConfigErrorModel;

    open spec fn view(&self) -> ConfigErrorModel {
        match *self {
            ConfigError::IoError(_) => ConfigErrorModel::IoError,
            ConfigError::ParseError(words) => ConfigErrorModel::ParseError(words@),
            ConfigError::ValidationError(words) => ConfigErrorModel::ValidationError(words@),
        }
    }
}

impl ConfigError {
    /// The error in words: its kind, a colon, and its details.
    pub fn message(&self) -> (words: String)
        ensures
            match self@ {
                ConfigErrorModel::IoError => "IO error: "@.is_prefix_of(words@),
                ConfigErrorModel::ParseError(details) => words@ == "Parse error: "@ + details,
                ConfigErrorModel::ValidationError(details) => words@ == "Validation error: "@ + details,
            },
    {
        match self {
            ConfigError::IoError(error) => {
                let details = io_error_text(error);
                let mut words = "IO error: ".to_string();
                words.append(details.as_str());
                assert(words@.subrange(0, "IO error: "@.len() as int) =~= "IO error: "@);
                words
            },
            ConfigError::ParseError(details) => {
                let mut words = "Parse error: ".to_string();
                words.append(details.as_str());
                words
            },
            ConfigError::ValidationError(details) => {
                let mut words = "Validation error: ".to_string();
                words.append(details.as_str());
                words
            },
        }
    }
}

impl From<std::io::Error> for ConfigError {
    fn from(error: std::io::Error) -> (converted: ConfigError) {
        ConfigError::IoError(error)
    }
}

impl vstd::std_specs::convert::FromSpecImpl<std::io::Error> for ConfigError {
    open spec fn obeys_from_spec() -> bool {
        true
    }

    open spec fn from_spec(error: std::io::Error) -> ConfigError {
        ConfigError::IoError(error)
    }
}

/// Settings by key.  Every key occurs once.
pub struct Config {
    settings: Vec<(String, String)>,
}

/// The keys of a list of settings, in the order they were first set.
pub open spec fn setting_keys(settings: Seq<(Seq<char>, Seq<char>)>) -> Seq<Seq<char>> {
    settings.map_values(|setting: (Seq<char>, Seq<char>)| setting.0)
}

/// The value of `key` in a list of settings, if it is set.
pub open spec fn setting(settings: Seq<(Seq<char>, Seq<char>)>, key: Seq<char>) -> Option<Seq<char>> {
    match position(setting_keys(settings), key) {
        Some(at) => Some(settings[at].1),
        None => None,
    }
}

/// The settings after `key` was set to `value`: the value replaces the
/// key's earlier value, or the setting is added.
pub open spec fn with_setting(
    settings: Seq<(Seq<char>, Seq<char>)>,
    key: Seq<char>,
    value: Seq<char>,
) -> Seq<(Seq<char>, Seq<char>)> {
    match position(setting_keys(settings), key) {
        Some(at) => settings.update(at, (key, value)),
        None => settings.push((key, value)),
    }
}

/// The settings after one more line was read.  Empty lines and lines that
/// start with `#` say nothing.  Every other line must hold an equals sign:
/// what stands before the first one is the key, what stands after it the
/// value, both without the white space around them.
pub open spec fn read_line(settings: Seq<(Seq<char>, Seq<char>)>, line: Seq<char>) -> Result<
    Seq<(Seq<char>, Seq<char>)>,
    Seq<char>,
> {
    let text = trimmed(line);
    if text.len() == 0 || text[0] == '#' {
        Ok(settings)
    } else {
        match position(text, '=') {
            None => Err("Invalid line format: "@ + text),
            Some(at) => Ok(with_setting(settings, trimmed(text.take(at)), trimmed(text.skip(at + 1)))),
        }
    }
}

/// The settings after a run of lines was read; the first line that cannot
/// be read ends the reading.
pub open spec fn read_lines(settings: Seq<(Seq<char>, Seq<char>)>, lines: Seq<Seq<char>>) -> Result<
    Seq<(Seq<char>, Seq<char>)>,
    Seq<char>,
>
    decreases lines.len(),
{
    if lines.len() == 0 {
        Ok(settings)
    } else {
        match read_line(settings, lines[0]) {
            Ok(next) => read_lines(next, lines.skip(1)),
            Err(words) => Err(words),
        }
    }
}

/// The configuration that a text holds.  It must set the key `version`.
pub open spec fn parsed_config(contents: Seq<char>) -> Result<Seq<(Seq<char>, Seq<char>)>, ConfigErrorModel> {
    match read_lines(Seq::empty(), lines_of(contents)) {
        Err(words) => Err(ConfigErrorModel::ParseError(words)),
        Ok(settings) => if position(setting_keys(settings), "version"@) is None {
            Err(ConfigErrorModel::ValidationError("Missing required key: version"@))
        } else {
            Ok(settings)
        },
    }
}

/// What asking a configuration for a key that must be set gives.
pub open spec fn required_setting(settings: Seq<(Seq<char>, Seq<char>)>, key: Seq<char>) -> Result<
    Seq<char>,
    ConfigErrorModel,
> {
    match setting(settings, key) {
        Some(value) => Ok(value),
        None => Err(ConfigErrorModel::ValidationError("Missing key: "@ + key)),
    }
}

/// What asking a configuration for a key that must be set to an integer
/// gives.
pub open spec fn integer_setting(settings: Seq<(Seq<char>, Seq<char>)>, key: Seq<char>) -> Result<
    int,
    ConfigErrorModel,
> {
    match required_setting(settings, key) {
        Err(error) => Err(error),
        Ok(value) => match as_i32(value) {
            Ok(number) => Ok(number),
            Err(error) => Err(ConfigErrorModel::ParseError(integer_error_text(error))),
        },
    }
}

impl View for Config {
    type V = Seq<(Seq<char>, Seq<char>)>;

    closed spec fn view(&self) -> Seq<(Seq<char>, Seq<char>)> {
        self.settings@.map_values(|setting: (String, String)| (setting.0@, setting.1@))
    }
}

/// Setting a key leaves a list in which every key occurs once such a list,
/// and the key then has the value that was set.
pub proof fn lemma_with_setting(settings: Seq<(Seq<char>, Seq<char>)>, key: Seq<char>, value: Seq<char>)
    requires
        setting_keys(settings).no_duplicates(),
    ensures
        setting_keys(with_setting(settings, key, value)).no_duplicates(),
        setting(with_setting(settings, key, value), key) == Some(value),
{
    let names = setting_keys(settings);
    let after = with_setting(settings, key, value);
    lemma_position_meaning(names, key);
    match position(names, key) {
        Some(at) => {
            assert(setting_keys(after) =~= names);
        },
        None => {
            lemma_push_keeps_distinct(names, key);
            assert(setting_keys(after) =~= names.push(key));
            lemma_position_found(setting_keys(after), key, names.len() as int);
        },
    }
}

impl Config {
    /// Every key occurs once.
    pub open spec fn wf(&self) -> bool {
        setting_keys(self@).no_duplicates()
    }

    /// The place of the setting of `key`.
    fn find(&self, key: &str) -> (found: Option<usize>)
        ensures
            match found {
                Some(at) => position(setting_keys(self@), key@) == Some(at as int) && at
                    < self.settings.len(),
                None => position(setting_keys(self@), key@) is None,
            },
    {
        let ghost names = setting_keys(self@);
        let mut i: usize = 0;
        while i < self.settings.len()
            invariant
                i <= self.settings.len(),
                names == setting_keys(self@),
                names.len() == self.settings.len(),
                forall|j: int| 0 <= j < i ==> names[j] != key@,
            decreases self.settings.len() - i,
        {
            if str_eq(self.settings[i].0.as_str(), key) {
                proof {
                    assert(names[i as int] == key@);
                    lemma_position_found(names, key@, i as int);
                }
                return Some(i);
            }
            i = i + 1;
        }
        proof {
            lemma_position_missing(names, key@);
        }
        None
    }

    /// Sets `key` to `value`.
    fn set(&mut self, key: String, value: String)
        requires
            old(self).wf(),
        ensures
            final(self).wf(),
            final(self)@ == with_setting(old(self)@, key@, value@),
    {
        proof {
            lemma_with_setting(self@, key@, value@);
        }
        match self.find(key.as_str()) {
            Some(at) => {
                self.settings.set(at, (key, value));
            },
            None => {
                self.settings.push((key, value));
            },
        }
        assert(self@ =~= with_setting(old(self)@, key@, value@));
    }

    /// Reads one line into the configuration.
    fn read(&mut self, line: &str) -> (outcome: Result<(), ConfigError>)
        requires
            old(self).wf(),
        ensures
            final(self).wf(),
            match read_line(old(self)@, line@) {
                Ok(settings) => outcome is Ok && final(self)@ == settings,
                Err(words) => outcome matches Err(error) && error@ == ConfigErrorModel::ParseError(words),
            },
    {
        let text = trim(line);
        let chars = to_chars(text.as_str());
        if chars.len() == 0 || chars[0] == '#' {
            return Ok(());
        }
        match find_char(text.as_str(), '=') {
            None => {
                let mut words = "Invalid line format: ".to_string();
                words.append(text.as_str());
                Err(ConfigError::ParseError(words))
            },
            Some(at) => {
                let before = string_of(&chars, 0, at);
                let after = string_of(&chars, at + 1, chars.len());
                assert(before@ =~= text@.take(at as int));
                assert(after@ =~= text@.skip(at as int + 1));
                let key = trim(before.as_str());
                let value = trim(after.as_str());
                self.set(key, value);
                Ok(())
            },
        }
    }

    /// Reads a configuration from the text of a file: one `key=value`
    /// setting to a line, with empty lines and `#` comments in between.
    pub fn parse(contents: &str) -> (outcome: Result<Config, ConfigError>)
        ensures
            match parsed_config(contents@) {
                Ok(settings) => outcome matches Ok(config) && config@ == settings && config.wf(),
                Err(model) => outcome matches Err(error) && error@ == model,
            },
    {
        let all = lines(contents);
        let mut config = Config { settings: Vec::new() };
        assert(config@ =~= Seq::empty());
        let mut i: usize = 0;
        assert(texts(all@).skip(0) =~= texts(all@));
        while i < all.len()
            invariant
                i <= all.len(),
                config.wf(),
                texts(all@) == lines_of(contents@),
                read_lines(Seq::empty(), lines_of(contents@)) == read_lines(
                    config@,
                    texts(all@).skip(i as int),
                ),
            decreases all.len() - i,
        {
            assert(texts(all@).skip(i as int)[0] == all@[i as int]@);
            assert(texts(all@).skip(i as int).skip(1) =~= texts(all@).skip(i as int + 1));
            match config.read(all[i].as_str()) {
                Ok(()) => {},
                Err(error) => {
                    return Err(error);
                },
            }
            i = i + 1;
        }
        if config.find("version").is_none() {
            return Err(ConfigError::ValidationError("Missing required key: version".to_string()));
        }
        Ok(config)
    }

    /// The value of `key`, if it is set.
    pub fn get(&self, key: &str) -> (value: Option<&String>)
        ensures
            match setting(self@, key@) {
                Some(text) => value matches Some(found) && found@ == text,
                None => value is None,
            },
    {
        match self.find(key) {
            Some(at) => Some(&self.settings[at].1),
            None => None,
        }
    }

    /// The value of `key`, which must be set.
    pub fn get_required(&self, key: &str) -> (value: Result<&String, ConfigError>)
        ensures
            match required_setting(self@, key@) {
                Ok(text) => value matches Ok(found) && found@ == text,
                Err(model) => value matches Err(error) && error@ == model,
            },
    {
        match self.get(key) {
            Some(found) => Ok(found),
            None => {
                let mut words = "Missing key: ".to_string();
                words.append(key);
                Err(ConfigError::ValidationError(words))
            },
        }
    }

    /// The value of `key`, which must be set to an integer.
    pub fn get_int(&self, key: &str) -> (value: Result<i32, ConfigError>)
        ensures
            match integer_setting(self@, key@) {
                Ok(number) => value matches Ok(found) && found == number,
                Err(model) => value matches Err(error) && error@ == model,
            },
    {
        match self.get_required(key) {
            Err(error) => Err(error),
            Ok(found) => match parse_i32(found.as_str()) {
                Ok(number) => Ok(number),
                Err(error) => Err(ConfigError::ParseError(error.message().to_string())),
            },
        }
    }
}

/// What went wrong while a file of numbers was processed.
#[derive(Debug)]
#[allow(inconsistent_fields)]
pub enum ProcessError {
    FileError { path: String, error: std::io::Error },
    ParseError { line: usize, error: IntegerError },
    ValidationError(String),
}

/// What a `ProcessError` says.  The system's account of an input or output
/// failure is left out.
pub enum ProcessErrorModel {
    FileError { path: Seq<char> },
    ParseError { line: usize, error: IntegerError },
    ValidationError(Seq<char>),
}

impl View for ProcessError {
    type V = ProcessErrorModel;

    open spec fn view(&self) -> ProcessErrorModel {
        match *self {
            ProcessError::FileError { path, error } => ProcessErrorModel::FileError { path: path@ },
            ProcessError::ParseError { line, error } => ProcessErrorModel::ParseError { line, error },
            ProcessError::ValidationError(words) => ProcessErrorModel::ValidationError(words@),
        }
    }
}

/// The words that start the report of a file that could not be read; the
/// system's account of the failure follows them.
pub open spec fn file_error_prefix(path: Seq<char>) -> Seq<char> {
    "File error at "@ + path + ": "@
}

impl ProcessError {
    /// The error in words.
    pub fn message(&self) -> (words: String)
        ensures
            match self@ {
                ProcessErrorModel::FileError { path } => file_error_prefix(path).is_prefix_of(words@),
                ProcessErrorModel::ParseError { line, error } => words@ =~= "Parse error at line "@
                    + decimal(line as nat) + ": "@ + integer_error_text(error),
                ProcessErrorModel::ValidationError(details) => words@ =~= "Validation error: "@ + details,
            },
    {
        match self {
            ProcessError::FileError { path, error } => {
                let details = io_error_text(error);
                let mut words = "File error at ".to_string();
                words.append(path.as_str());
                words.append(": ");
                words.append(details.as_str());
                assert(words@ =~= file_error_prefix(path@) + details@);
                assert(words@.subrange(0, file_error_prefix(path@).len() as int) =~= file_error_prefix(
                    path@,
                ));
                words
            },
            ProcessError::ParseError { line, error } => {
                let mut words = "Parse error at line ".to_string();
                push_decimal(&mut words, *line as u64);
                words.append(": ");
                words.append(error.message());
                words
            },
            ProcessError::ValidationError(details) => {
                let mut words = "Validation error: ".to_string();
                words.append(details.as_str());
                words
            },
        }
    }
}

/// What each error of a list says.
pub open spec fn error_models(errors: Seq<ProcessError>) -> Seq<ProcessErrorModel> {
    errors.map_values(|error: ProcessError| error@)
}

/// The numbers and the errors after one more line was processed.  `number`
/// is the line's number, counted from one.  An empty line says nothing; a
/// line that holds a number from zero up adds it; a negative number and a
/// line that is no number are errors.
pub open spec fn process_line(
    numbers: Seq<i32>,
    errors: Seq<ProcessErrorModel>,
    number: usize,
    line: Seq<char>,
) -> (Seq<i32>, Seq<ProcessErrorModel>) {
    let text = trimmed(line);
    if text.len() == 0 {
        (numbers, errors)
    } else {
        match as_i32(text) {
            Ok(value) => if value < 0 {
                (
                    numbers,
                    errors.push(
                        ProcessErrorModel::ValidationError(
                            "Negative number "@ + signed_decimal(value) + " at line "@ + decimal(
                                number as nat,
                            ),
                        ),
                    ),
                )
            } else {
                (numbers.push(value as i32), errors)
            },
            Err(error) => (numbers, errors.push(ProcessErrorModel::ParseError { line: number, error })),
        }
    }
}

/// The numbers and the errors after the first `count` lines were processed.
pub open spec fn process_lines(errors: Seq<ProcessErrorModel>, lines: Seq<Seq<char>>, count: nat) -> (
    Seq<i32>,
    Seq<ProcessErrorModel>,
)
    decreases count,
{
    if count == 0 || count > lines.len() {
        (Seq::empty(), errors)
    } else {
        let (numbers, before) = process_lines(errors, lines, (count - 1) as nat);
        process_line(numbers, before, count as usize, lines[count - 1])
    }
}

/// Processes files of numbers, one number to a line, and collects what was
/// wrong with them.
pub struct DataProcessor {
    pub errors: Vec<ProcessError>,
}

impl DataProcessor {
    /// A processor that has seen no error.
    pub fn new() -> (processor: DataProcessor)
        ensures
            processor.errors@.len() == 0,
    {
        DataProcessor { errors: Vec::new() }
    }

    /// Processes the text of a file: gives back its numbers, in order, and
    /// adds its errors to those collected so far.
    pub fn process_contents(&mut self, contents: &str) -> (numbers: Vec<i32>)
        ensures
            (numbers@, error_models(final(self).errors@)) == process_lines(
                error_models(old(self).errors@),
                lines_of(contents@),
                lines_of(contents@).len(),
            ),
    {
        let all = lines(contents);
        let mut numbers: Vec<i32> = Vec::new();
        let mut i: usize = 0;
        assert(texts(all@).len() == all@.len());
        while i < all.len()
            invariant
                i <= all.len(),
                texts(all@) == lines_of(contents@),
                texts(all@).len() == all@.len(),
                (numbers@, error_models(self.errors@)) == process_lines(
                    error_models(old(self).errors@),
                    lines_of(contents@),
                    i as nat,
                ),
            decreases all.len() - i,
        {
            let ghost errors_before = error_models(self.errors@);
            let ghost numbers_before = numbers@;
            assert(texts(all@)[i as int] == all@[i as int]@);
            let text = trim(all[i].as_str());
            let empty = text.as_str().is_empty();
            if !empty {
                match parse_i32(text.as_str()) {
                    Ok(value) => {
                        if value < 0 {
                            let mut words = "Negative number ".to_string();
                            push_signed_decimal(&mut words, value as i64);
                            words.append(" at line ");
                            push_decimal(&mut words, (i + 1) as u64);
                            self.errors.push(ProcessError::ValidationError(words));
                            assert(error_models(self.errors@) =~= errors_before.push(
                                ProcessErrorModel::ValidationError(words@),
                            ));
                        } else {
                            numbers.push(value);
                        }
                    },
                    Err(error) => {
                        self.errors.push(ProcessError::ParseError { line: i + 1, error });
                        assert(error_models(self.errors@) =~= errors_before.push(
                            ProcessErrorModel::ParseError { line: (i + 1) as usize, error },
                        ));
                    },
                }
            }
            i = i + 1;
        }
        numbers
    }

    /// Whether any error was collected.
    pub fn has_errors(&self) -> (any: bool)
        ensures
            any == (self.errors@.len() > 0),
    {
        self.errors.len() > 0
    }
}

/// Why an e-mail could not be built.
#[derive(Debug)]
pub enum EmailError {
    MissingField(&'static str),
    InvalidEmail(String),
}

/// What an `EmailError` says.
pub enum EmailErrorModel {
    MissingField(Seq<char>),
    InvalidEmail(Seq<char>),
}

impl View for EmailError {
    type V = EmailErrorModel;

    open spec fn view(&self) -> EmailErrorModel {
        match *self {
            EmailError::MissingField(field) => EmailErrorModel::MissingField(field@),
            EmailError::InvalidEmail(address) => EmailErrorModel::InvalidEmail(address@),
        }
    }
}

impl EmailError {
    /// The error in words.
    pub fn message(&self) -> (words: String)
        ensures
            words@ == (match self@ {
                EmailErrorModel::MissingField(field) => "Missing required field: "@ + field,
                EmailErrorModel::InvalidEmail(address) => "Invalid email format: "@ + address,
            }),
    {
        match self {
            EmailError::MissingField(field) => {
                let mut words = "Missing required field: ".to_string();
                words.append(field);
                words
            },
            EmailError::InvalidEmail(address) => {
                let mut words = "Invalid email format: ".to_string();
                words.append(address.as_str());
                words
            },
        }
    }
}

/// An e-mail in the making.
#[derive(Debug)]
pub struct EmailBuilder {
    to: Option<String>,
    from: Option<String>,
    subject: Option<String>,
    body: Option<String>,
}

/// What an `EmailBuilder` holds.
pub struct EmailBuilderModel {
    pub to: Option<Seq<char>>,
    pub from: Option<Seq<char>>,
    pub subject: Option<Seq<char>>,
    pub body: Option<Seq<char>>,
}

/// An e-mail.
pub struct Email {
    pub to: String,
    pub from: String,
    pub subject: String,
    pub body: String,
}

/// What an `Email` says.
pub struct EmailModel {
    pub to: Seq<char>,
    pub from: Seq<char>,
    pub subject: Seq<char>,
    pub body: Seq<char>,
}

impl View for EmailBuilder {
    type V = EmailBuilderModel;

    closed spec fn view(&self) -> EmailBuilderModel {
        EmailBuilderModel {
            to: optional_text(self.to),
            from: optional_text(self.from),
            subject: optional_text(self.subject),
            body: optional_text(self.body),
        }
    }
}

impl View for Email {
    type V = EmailModel;

    open spec fn view(&self) -> EmailModel {
        EmailModel { to: self.to@, from: self.from@, subject: self.subject@, body: self.body@ }
    }
}

/// Whether `address` can be an e-mail address: it holds an `@`.
pub open spec fn valid_address(address: Seq<char>) -> bool {
    address.contains('@')
}

/// The e-mail that a builder gives, or the first part that it lacks, in the
/// order recipient, sender, subject, body.
pub open spec fn built(builder: EmailBuilderModel) -> Result<EmailModel, EmailErrorModel> {
    if builder.to is None {
        Err(EmailErrorModel::MissingField("to"@))
    } else if builder.from is None {
        Err(EmailErrorModel::MissingField("from"@))
    } else if builder.subject is None {
        Err(EmailErrorModel::MissingField("subject"@))
    } else if builder.body is None {
        Err(EmailErrorModel::MissingField("body"@))
    } else {
        Ok(
            EmailModel {
                to: builder.to->0,
                from: builder.from->0,
                subject: builder.subject->0,
                body: builder.body->0,
            },
        )
    }
}

impl EmailBuilder {
    /// A builder in which nothing is set.
    pub fn new() -> (builder: EmailBuilder)
        ensures
            builder@ == (EmailBuilderModel { to: None, from: None, subject: None, body: None }),
    {
        EmailBuilder { to: None, from: None, subject: None, body: None }
    }

    /// Accepts an address that holds an `@`, and refuses any other.
    fn validate_email(email: &str) -> (outcome: Result<(), EmailError>)
        ensures
            valid_address(email@) ==> outcome is Ok,
            !valid_address(email@) ==> (outcome matches Err(error) && error@
                == EmailErrorModel::InvalidEmail(email@)),
    {
        if !contains_char(email, '@') {
            Err(EmailError::InvalidEmail(email.to_string()))
        } else {
            Ok(())
        }
    }

    /// Sets the recipient, whose address must hold an `@`.
    pub fn to(self, email: &str) -> (outcome: Result<EmailBuilder, EmailError>)
        ensures
            valid_address(email@) ==> (outcome matches Ok(builder) && builder@ == (EmailBuilderModel {
                to: Some(email@),
                ..self@
            })),
            !valid_address(email@) ==> (outcome matches Err(error) && error@
                == EmailErrorModel::InvalidEmail(email@)),
    {
        match EmailBuilder::validate_email(email) {
            Ok(()) => {},
            Err(error) => {
                return Err(error);
            },
        }
        let mut builder = self;
        builder.to = Some(email.to_string());
        Ok(builder)
    }

    /// Sets the sender, whose address must hold an `@`.
    pub fn from(self, email: &str) -> (outcome: Result<EmailBuilder, EmailError>)
        ensures
            valid_address(email@) ==> (outcome matches Ok(builder) && builder@ == (EmailBuilderModel {
                from: Some(email@),
                ..self@
            })),
            !valid_address(email@) ==> (outcome matches Err(error) && error@
                == EmailErrorModel::InvalidEmail(email@)),
    {
        match EmailBuilder::validate_email(email) {
            Ok(()) => {},
            Err(error) => {
                return Err(error);
            },
        }
        let mut builder = self;
        builder.from = Some(email.to_string());
        Ok(builder)
    }

    /// Sets the subject, which must not be empty.
    pub fn subject(self, subject: &str) -> (outcome: Result<EmailBuilder, EmailError>)
        ensures
            subject@.len() > 0 ==> (outcome matches Ok(builder) && builder@ == (EmailBuilderModel {
                subject: Some(subject@),
                ..self@
            })),
            subject@.len() == 0 ==> (outcome matches Err(error) && error@
                == EmailErrorModel::MissingField("subject cannot be empty"@)),
    {
        if subject.is_empty() {
            return Err(EmailError::MissingField("subject cannot be empty"));
        }
        let mut builder = self;
        builder.subject = Some(subject.to_string());
        Ok(builder)
    }

    /// Sets the body.  Any text is accepted.
    pub fn body(self, body: &str) -> (outcome: Result<EmailBuilder, EmailError>)
        ensures
            outcome matches Ok(builder) && builder@ == (EmailBuilderModel { body: Some(body@), ..self@ }),
    {
        let mut builder = self;
        builder.body = Some(body.to_string());
        Ok(builder)
    }

    /// The e-mail, where every part is set.
    pub fn build(self) -> (outcome: Result<Email, EmailError>)
        ensures
            match built(self@) {
                Ok(model) => outcome matches Ok(email) && email@ == model,
                Err(model) => outcome matches Err(error) && error@ == model,
            },
    {
        let to = match self.to {
            Some(to) => to,
            None => {
                return Err(EmailError::MissingField("to"));
            },
        };
        let from = match self.from {
            Some(from) => from,
            None => {
                return Err(EmailError::MissingField("from"));
            },
        };
        let subject = match self.subject {
            Some(subject) => subject,
            None => {
                return Err(EmailError::MissingField("subject"));
            },
        };
        let body = match self.body {
            Some(body) => body,
            None => {
                return Err(EmailError::MissingField("body"));
            },
        };
        Ok(Email { to, from, subject, body })
    }
}

/// The three lines with which an e-mail is announced when it is sent.
pub open spec fn announcement(email: EmailModel) -> Seq<Seq<char>> {
    seq![
        "Sending email from "@ + email.from + " to "@ + email.to,
        "Subject: "@ + email.subject,
        "Body: "@ + email.body,
    ]
}

impl Email {
    /// The lines with which the e-mail is announced when it is sent.
    pub fn announce(&self) -> (lines: Vec<String>)
        ensures
            texts(lines@) == announcement(self@),
    {
        let mut first = "Sending email from ".to_string();
        first.append(self.from.as_str());
        first.append(" to ");
        first.append(self.to.as_str());
        let mut second = "Subject: ".to_string();
        second.append(self.subject.as_str());
        let mut third = "Body: ".to_string();
        third.append(self.body.as_str());
        let mut lines: Vec<String> = Vec::new();
        lines.push(first);
        lines.push(second);
        lines.push(third);
        assert(texts(lines@) =~= announcement(self@));
        lines
    }
}

} // verus!
