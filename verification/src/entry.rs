//! The rules of the attribute that turns an `async fn` into the entry point of a program or
//! into a test: which options it takes, what their values may be, and where the statements
//! of the function's body end.
//!
//! The attribute's arguments arrive here as plain values. An [`Argument`] is one of the
//! comma-separated arguments, a [`Literal`] the value that stands behind `=`. What is read
//! from them is a [`FinalConfig`], or the [`ConfigError`] of the first argument that is wrong.

use vstd::prelude::*;
use vstd::string::StringExecFns;

verus! {

/// A literal that stands as the value of an argument.
#[derive(Debug, Clone, PartialEq, Eq)]
pub enum Literal {
    /// An integer literal, by its digits in base 10, without sign or suffix.
    Int(String),
    /// A string literal, by the text that it denotes, and whether a suffix follows it.
    Str { value: String, suffixed: bool },
    /// Any other literal.
    Other,
}

/// One argument of the attribute.
#[derive(Debug, Clone, PartialEq, Eq)]
pub enum Argument {
    /// `name = value`. The name is missing where a path of several segments stands for it,
    /// the literal where the value is another kind of expression.
    NameValue { name: Option<String>, literal: Option<Literal> },
    /// Anything else: a lone path, or a list in brackets.
    Other,
}

/// Why a text is not a number that fits into a `usize`.
#[derive(Debug, Clone, Copy, PartialEq, Eq, Structural)]
pub enum IntError {
    /// The text is empty.
    Empty,
    /// A character is not a digit.
    InvalidDigit,
    /// The number is too large.
    Overflow,
}

/// Why the arguments of the attribute, or the function under it, were refused.
#[derive(Debug, Clone, PartialEq, Eq)]
pub enum ConfigError {
    /// The function is not `async`.
    MissingAsync,
    /// The entry point of a program takes arguments.
    MainWithArguments,
    /// The test carries a second `test` attribute.
    SecondTestAttribute,
    /// The name of an argument is not a single identifier.
    MissingName,
    /// The value of an argument is not a literal.
    NotLiteral,
    /// No option has this name. It is held in lower case.
    UnknownName(String),
    /// The argument is not of the form `name = value`.
    UnknownArgument,
    /// `worker_threads` is given a second time.
    WorkerThreadsTwice,
    /// The value of `worker_threads` is no integer literal (`None`), or one that no `usize`
    /// holds.
    WorkerThreadsNotInteger(Option<IntError>),
    /// The value of `worker_threads` is 0.
    WorkerThreadsZero,
    /// `crate` is given a second time.
    CrateTwice,
    /// The value of `crate` is no string literal (`None`), or one whose text, held here, is
    /// no path.
    CrateNotPath(Option<String>),
}

/// A refusal, and the argument that it is about, if it is about one.
#[derive(Debug, Clone, PartialEq, Eq)]
pub struct Failure {
    /// The position of the argument among the arguments.
    pub argument: Option<usize>,
    /// What is wrong.
    pub error: ConfigError,
}

/// What the attribute's arguments ask for.
#[derive(Debug, Clone, PartialEq, Eq)]
pub struct FinalConfig {
    /// The number of worker threads of the runtime, if one was asked for. It is not 0.
    pub worker_threads: Option<usize>,
    /// The path of the crate that provides the runtime, if one was named.
    pub crate_name: Option<String>,
}

/// The options seen so far, while the arguments are read.
pub struct Configuration {
    worker_threads: Option<usize>,
    crate_name: Option<String>,
}

/// What a function under the attribute looks like, as far as the rules go.
#[derive(Debug, Clone, PartialEq, Eq)]
pub struct FunctionShape {
    /// Whether it is `async`.
    pub is_async: bool,
    /// Whether its name is `main`.
    pub is_main: bool,
    /// Whether it takes arguments.
    pub has_inputs: bool,
    /// Whether one of its attributes is named `test`.
    pub has_test_attribute: bool,
}

/// The text in lower case, as `str::to_lowercase` gives it.
pub uninterp spec fn lowercase(text: Seq<char>) -> Seq<char>;

/// Whether the text is the source text of a path, as `syn` parses one.
pub uninterp spec fn parses_as_path(text: Seq<char>) -> bool;

/// The text in lower case, by `str::to_lowercase`. The contract names the result and says
/// nothing else of it.
#[verifier::external_body]
fn to_lowercase(text: &str) -> (lowered: String)
    ensures
        lowered@ == lowercase(text@),
{
    text.to_lowercase()
}

/// Whether `syn::parse_str` makes a `syn::Path` of the text. The contract names the result
/// and says nothing else of it.
#[verifier::external_body]
fn is_path(text: &str) -> (parses: bool)
    ensures
        parses == parses_as_path(text@),
{
    syn::parse_str::<syn::Path>(text).is_ok()
}

/// The value of a decimal digit.
pub open spec fn digit_value(digit: char) -> Option<nat> {
    if '0' <= digit <= '9' {
        Some((digit as u32 - '0' as u32) as nat)
    } else {
        None
    }
}

/// The number that `digits` continue, read from the left, behind the digits that made
/// `before`: the first character that is no digit ends the reading, and so does the first
/// digit with which the number exceeds `limit`.
pub open spec fn read_digits(digits: Seq<char>, before: nat, limit: nat) -> Result<nat, IntError>
    decreases digits.len(),
{
    if digits.len() == 0 {
        Ok(before)
    } else {
        match digit_value(digits[0]) {
            None => Err(IntError::InvalidDigit),
            Some(digit) => if before * 10 + digit > limit {
                Err(IntError::Overflow)
            } else {
                read_digits(digits.drop_first(), before * 10 + digit, limit)
            },
        }
    }
}

/// The number that a text denotes in base 10, up to `limit`. A `+` may stand before the
/// digits. There is at least one digit.
pub open spec fn read_number(text: Seq<char>, limit: nat) -> Result<nat, IntError> {
    if text.len() == 0 {
        Err(IntError::Empty)
    } else if text[0] == '+' || text[0] == '-' {
        if text.len() == 1 || text[0] == '-' {
            Err(IntError::InvalidDigit)
        } else {
            read_digits(text.drop_first(), 0, limit)
        }
    } else {
        read_digits(text, 0, limit)
    }
}

/// Ten to the power of `exponent`.
pub open spec fn pow10(exponent: nat) -> nat
    decreases exponent,
{
    if exponent == 0 {
        1
    } else {
        10 * pow10((exponent - 1) as nat)
    }
}

/// The value of a text of digits: its last digit, and ten times the value of the digits
/// before it.
pub open spec fn decimal(digits: Seq<char>) -> nat
    decreases digits.len(),
{
    if digits.len() == 0 {
        0
    } else {
        decimal(digits.drop_last()) * 10 + match digit_value(digits.last()) {
            Some(digit) => digit,
            None => 0,
        }
    }
}

/// Where reading digits succeeds, all of them are digits, and the result is their value
/// behind what was read before.
pub proof fn lemma_read_digits(digits: Seq<char>, before: nat, limit: nat)
    requires
        read_digits(digits, before, limit) is Ok,
    ensures
        forall|i: int| 0 <= i < digits.len() ==> digit_value(digits[i]) is Some,
        read_digits(digits, before, limit) == Ok::<nat, IntError>(
            before * pow10(digits.len()) + decimal(digits),
        ),
    decreases digits.len(),
{
    if digits.len() == 0 {
        assert(before * 1 == before);
    } else {
        let rest = digits.drop_first();
        let digit = digit_value(digits[0])->0;
        let next = before * 10 + digit;
        lemma_decimal_first(digits);
        lemma_read_digits(rest, next, limit);
        assert forall|i: int| 0 <= i < digits.len() implies digit_value(digits[i]) is Some by {
            if i > 0 {
                assert(digits[i] == rest[i - 1]);
            }
        }
        assert(before * pow10(digits.len()) + digit * pow10(rest.len()) == next * pow10(
            rest.len(),
        )) by (nonlinear_arith)
            requires
                pow10(digits.len()) == 10 * pow10(rest.len()),
                next == before * 10 + digit,
        ;
    }
}

/// The value of a text of digits is the value of its first digit, shifted left by the
/// length of the rest, and the value of the rest.
pub proof fn lemma_decimal_first(digits: Seq<char>)
    requires
        digits.len() > 0,
    ensures
        decimal(digits) == match digit_value(digits[0]) {
            Some(digit) => digit,
            None => 0,
        } * pow10((digits.len() - 1) as nat) + decimal(digits.drop_first()),
        pow10(digits.len()) == 10 * pow10((digits.len() - 1) as nat),
    decreases digits.len(),
{
    let first: nat = match digit_value(digits[0]) {
        Some(digit) => digit,
        None => 0,
    };
    if digits.len() == 1 {
        assert(digits.drop_last() =~= Seq::<char>::empty());
        assert(digits.drop_first() =~= Seq::<char>::empty());
        assert(first * 1 == first);
    } else {
        let front = digits.drop_last();
        let rest = digits.drop_first();
        let last: nat = match digit_value(digits.last()) {
            Some(digit) => digit,
            None => 0,
        };
        lemma_decimal_first(front);
        assert(front.drop_first() =~= rest.drop_last());
        assert((first * pow10((front.len() - 1) as nat) + decimal(front.drop_first())) * 10 + last
            == first * pow10((digits.len() - 1) as nat) + (decimal(rest.drop_last()) * 10 + last))
            by (nonlinear_arith)
            requires
                pow10((digits.len() - 1) as nat) == 10 * pow10((front.len() - 1) as nat),
                decimal(front.drop_first()) == decimal(rest.drop_last()),
        ;
    }
}

/// Reads the number that a text denotes in base 10, if a `usize` holds it.
pub fn parse_int(text: &str) -> (number: Result<usize, IntError>)
    ensures
        match read_number(text@, usize::MAX as nat) {
            Ok(value) => number matches Ok(found) && found as nat == value,
            Err(error) => number == Err::<usize, IntError>(error),
        },
{
    let len: usize = text.unicode_len();
    if len == 0 {
        return Err(IntError::Empty);
    }
    let first = text.get_char(0);
    let mut start: usize = 0;
    if first == '+' || first == '-' {
        if len == 1 || first == '-' {
            return Err(IntError::InvalidDigit);
        }
        start = 1;
    }
    let digits = text.substring_char(start, len);
    proof {
        assert(text@ =~= text@.subrange(0, len as int));
        assert(digits@.skip(0) =~= digits@);
    }
    let ghost limit = usize::MAX as nat;
    let mut number: usize = 0;
    for c in it: digits.chars()
        invariant
            it.seq() == digits@,
            limit == usize::MAX as nat,
            read_number(text@, limit) == read_digits(
                digits@.skip(it.index()),
                number as nat,
                limit,
            ),
    {
        proof {
            let rest = digits@.skip(it.index());
            assert(rest.drop_first() =~= digits@.skip(it.index() + 1));
        }
        if c < '0' || c > '9' {
            return Err(IntError::InvalidDigit);
        }
        let digit: usize = (c as u32 - '0' as u32) as usize;
        if number > (usize::MAX - digit) / 10 {
            proof {
                assert(number * 10 + digit > usize::MAX) by (nonlinear_arith)
                    requires
                        number > (usize::MAX - digit) / 10,
                        digit <= 9,
                ;
            }
            return Err(IntError::Overflow);
        }
        proof {
            assert(number * 10 + digit <= usize::MAX) by (nonlinear_arith)
                requires
                    number <= (usize::MAX - digit) / 10,
                    digit <= 9,
            ;
        }
        number = number * 10 + digit;
    }
    Ok(number)
}

/// The options that a configuration holds, with names as texts.
pub struct Options {
    /// The number of worker threads, if it is set.
    pub worker_threads: Option<usize>,
    /// The path of the runtime's crate, if it is set.
    pub crate_name: Option<Seq<char>>,
}

/// A [`ConfigError`], with the names that it holds as texts.
pub enum ConfigErrorText {
    MissingAsync,
    MainWithArguments,
    SecondTestAttribute,
    MissingName,
    NotLiteral,
    UnknownName(Seq<char>),
    UnknownArgument,
    WorkerThreadsTwice,
    WorkerThreadsNotInteger(Option<IntError>),
    WorkerThreadsZero,
    CrateTwice,
    CrateNotPath(Option<Seq<char>>),
}

impl View for ConfigError {
    type V = ConfigErrorText;

    open spec fn view(&self) -> ConfigErrorText {
        match *self {
            ConfigError::MissingAsync => ConfigErrorText::MissingAsync,
            ConfigError::MainWithArguments => ConfigErrorText::MainWithArguments,
            ConfigError::SecondTestAttribute => ConfigErrorText::SecondTestAttribute,
            ConfigError::MissingName => ConfigErrorText::MissingName,
            ConfigError::NotLiteral => ConfigErrorText::NotLiteral,
            ConfigError::UnknownName(name) => ConfigErrorText::UnknownName(name@),
            ConfigError::UnknownArgument => ConfigErrorText::UnknownArgument,
            ConfigError::WorkerThreadsTwice => ConfigErrorText::WorkerThreadsTwice,
            ConfigError::WorkerThreadsNotInteger(error) => ConfigErrorText::WorkerThreadsNotInteger(
                error,
            ),
            ConfigError::WorkerThreadsZero => ConfigErrorText::WorkerThreadsZero,
            ConfigError::CrateTwice => ConfigErrorText::CrateTwice,
            ConfigError::CrateNotPath(text) => ConfigErrorText::CrateNotPath(
                match text {
                    Some(text) => Some(text@),
                    None => None,
                },
            ),
        }
    }
}

impl View for Configuration {
    type V = Options;

    closed spec fn view(&self) -> Options {
        Options {
            worker_threads: self.worker_threads,
            crate_name: match self.crate_name {
                Some(name) => Some(name@),
                None => None,
            },
        }
    }
}

impl View for FinalConfig {
    type V = Options;

    open spec fn view(&self) -> Options {
        Options {
            worker_threads: self.worker_threads,
            crate_name: match self.crate_name {
                Some(name) => Some(name@),
                None => None,
            },
        }
    }
}

/// How the failure to read a number is worded.
pub open spec fn int_error_text(error: IntError) -> Seq<char> {
    match error {
        IntError::Empty => "cannot parse integer from empty string"@,
        IntError::InvalidDigit => "invalid digit found in string"@,
        IntError::Overflow => "number too large to fit in target type"@,
    }
}

/// How a refusal is worded.
pub open spec fn message_text(error: ConfigErrorText) -> Seq<char> {
    match error {
        ConfigErrorText::MissingAsync => "the `async` keyword is missing from the function declaration"@,
        ConfigErrorText::MainWithArguments => "the main function cannot accept arguments"@,
        ConfigErrorText::SecondTestAttribute => "second test attribute is supplied"@,
        ConfigErrorText::MissingName => "Must have specified ident"@,
        ConfigErrorText::NotLiteral => "Must be a literal"@,
        ConfigErrorText::UnknownName(name) => "Unknown attribute "@ + name
            + " is specified; expected one of: `worker_threads``, `crate`"@,
        ConfigErrorText::UnknownArgument => "Unknown attribute inside the macro"@,
        ConfigErrorText::WorkerThreadsTwice => "`worker_threads` set multiple times."@,
        ConfigErrorText::WorkerThreadsNotInteger(None) => "Failed to parse value of `worker_threads` as integer."@,
        ConfigErrorText::WorkerThreadsNotInteger(Some(error)) => "Failed to parse value of `worker_threads` as integer: "@
            + int_error_text(error),
        ConfigErrorText::WorkerThreadsZero => "`worker_threads` may not be 0."@,
        ConfigErrorText::CrateTwice => "`crate` set multiple times."@,
        ConfigErrorText::CrateNotPath(None) => "Failed to parse value of `crate` as path."@,
        ConfigErrorText::CrateNotPath(Some(text)) => "Failed to parse value of `crate` as path: \""@
            + text + "\""@,
    }
}

impl IntError {
    /// The failure in words.
    pub fn message(&self) -> (message: &'static str)
        ensures
            message@ == int_error_text(*self),
    {
        match self {
            IntError::Empty => "cannot parse integer from empty string",
            IntError::InvalidDigit => "invalid digit found in string",
            IntError::Overflow => "number too large to fit in target type",
        }
    }
}

impl ConfigError {
    /// The refusal in words.
    pub fn message(&self) -> (message: String)
        ensures
            message@ == message_text(self@),
    {
        match self {
            ConfigError::MissingAsync => String::from_str(
                "the `async` keyword is missing from the function declaration",
            ),
            ConfigError::MainWithArguments => String::from_str(
                "the main function cannot accept arguments",
            ),
            ConfigError::SecondTestAttribute => String::from_str(
                "second test attribute is supplied",
            ),
            ConfigError::MissingName => String::from_str("Must have specified ident"),
            ConfigError::NotLiteral => String::from_str("Must be a literal"),
            ConfigError::UnknownName(name) => String::from_str("Unknown attribute ").concat(
                name.as_str(),
            ).concat(" is specified; expected one of: `worker_threads``, `crate`"),
            ConfigError::UnknownArgument => String::from_str("Unknown attribute inside the macro"),
            ConfigError::WorkerThreadsTwice => String::from_str(
                "`worker_threads` set multiple times.",
            ),
            ConfigError::WorkerThreadsNotInteger(None) => String::from_str(
                "Failed to parse value of `worker_threads` as integer.",
            ),
            ConfigError::WorkerThreadsNotInteger(Some(error)) => String::from_str(
                "Failed to parse value of `worker_threads` as integer: ",
            ).concat(error.message()),
            ConfigError::WorkerThreadsZero => String::from_str("`worker_threads` may not be 0."),
            ConfigError::CrateTwice => String::from_str("`crate` set multiple times."),
            ConfigError::CrateNotPath(None) => String::from_str(
                "Failed to parse value of `crate` as path.",
            ),
            ConfigError::CrateNotPath(Some(text)) => String::from_str(
                "Failed to parse value of `crate` as path: \"",
            ).concat(text.as_str()).concat("\""),
        }
    }
}

/// The number of worker threads that a literal asks for: it is an integer literal, its
/// number fits into a `usize`, and it is not 0.
pub open spec fn worker_threads_of(literal: Literal) -> Result<usize, ConfigErrorText> {
    match literal {
        Literal::Int(digits) => match read_number(digits@, usize::MAX as nat) {
            Ok(number) => if number == 0 {
                Err(ConfigErrorText::WorkerThreadsZero)
            } else {
                Ok(number as usize)
            },
            Err(error) => Err(ConfigErrorText::WorkerThreadsNotInteger(Some(error))),
        },
        _ => Err(ConfigErrorText::WorkerThreadsNotInteger(None)),
    }
}

/// The path of the runtime's crate that a literal names: it is a string literal without
/// suffix, and its text is a path.
pub open spec fn crate_name_of(literal: Literal) -> Result<Seq<char>, ConfigErrorText> {
    match literal {
        Literal::Str { value, suffixed } => if parses_as_path(value@) && !suffixed {
            Ok(value@)
        } else {
            Err(ConfigErrorText::CrateNotPath(Some(value@)))
        },
        _ => Err(ConfigErrorText::CrateNotPath(None)),
    }
}

/// What setting the option `name` to `literal` makes of `options`. An option is set once.
/// The name is in lower case.
pub open spec fn set_option(options: Options, name: Seq<char>, literal: Literal) -> Result<
    Options,
    ConfigErrorText,
> {
    if name == "worker_threads"@ {
        if options.worker_threads is Some {
            Err(ConfigErrorText::WorkerThreadsTwice)
        } else {
            match worker_threads_of(literal) {
                Ok(number) => Ok(Options { worker_threads: Some(number), ..options }),
                Err(error) => Err(error),
            }
        }
    } else if name == "crate"@ {
        if options.crate_name is Some {
            Err(ConfigErrorText::CrateTwice)
        } else {
            match crate_name_of(literal) {
                Ok(path) => Ok(Options { crate_name: Some(path), ..options }),
                Err(error) => Err(error),
            }
        }
    } else {
        Err(ConfigErrorText::UnknownName(name))
    }
}

/// What one argument makes of `options`. It must be of the form `name = value`, with an
/// identifier as the name, which is read in lower case, and a literal as the value.
pub open spec fn read_argument(options: Options, argument: Argument) -> Result<
    Options,
    ConfigErrorText,
> {
    match argument {
        Argument::NameValue { name: None, literal } => Err(ConfigErrorText::MissingName),
        Argument::NameValue { name: Some(name), literal: None } => Err(ConfigErrorText::NotLiteral),
        Argument::NameValue { name: Some(name), literal: Some(literal) } => set_option(
            options,
            lowercase(name@),
            literal,
        ),
        Argument::Other => Err(ConfigErrorText::UnknownArgument),
    }
}

/// What the arguments from position `from` on make of `options`, read in order: the
/// options, or the position of the first argument that is refused, and why.
pub open spec fn read_arguments(options: Options, arguments: Seq<Argument>, from: int) -> Result<
    Options,
    (int, ConfigErrorText),
>
    decreases arguments.len() - from,
{
    if from < 0 || from >= arguments.len() {
        Ok(options)
    } else {
        match read_argument(options, arguments[from]) {
            Ok(next) => read_arguments(next, arguments, from + 1),
            Err(error) => Err((from, error)),
        }
    }
}

/// What the attribute's arguments ask for, on a function that is `async` or not.
pub open spec fn config_of(is_async: bool, arguments: Seq<Argument>) -> Result<
    Options,
    (Option<int>, ConfigErrorText),
> {
    if !is_async {
        Err((None, ConfigErrorText::MissingAsync))
    } else {
        match read_arguments(
            Options { worker_threads: None, crate_name: None },
            arguments,
            0,
        ) {
            Ok(options) => Ok(options),
            Err((at, error)) => Err((Some(at), error)),
        }
    }
}

/// The number of worker threads that a literal asks for.
pub fn parse_worker_threads(literal: &Literal) -> (threads: Result<usize, ConfigError>)
    ensures
        match worker_threads_of(*literal) {
            Ok(number) => threads == Ok::<usize, ConfigError>(number),
            Err(error) => threads matches Err(found) && found@ == error,
        },
{
    match literal {
        Literal::Int(digits) => match parse_int(digits.as_str()) {
            Ok(number) => if number == 0usize {
                Err(ConfigError::WorkerThreadsZero)
            } else {
                Ok(number)
            },
            Err(error) => Err(ConfigError::WorkerThreadsNotInteger(Some(error))),
        },
        _ => Err(ConfigError::WorkerThreadsNotInteger(None)),
    }
}

/// The path that a literal names, given whether its text is a path.
pub fn crate_name_from(literal: &Literal, parses: bool) -> (path: Result<String, ConfigError>)
    ensures
        match *literal {
            Literal::Str { value, suffixed } => if parses && !suffixed {
                path matches Ok(found) && found@ == value@
            } else {
                path matches Err(found) && found@ == ConfigErrorText::CrateNotPath(Some(value@))
            },
            _ => path matches Err(found) && found@ == ConfigErrorText::CrateNotPath(None),
        },
{
    match literal {
        Literal::Str { value, suffixed } => if parses && !*suffixed {
            Ok(value.clone())
        } else {
            Err(ConfigError::CrateNotPath(Some(value.clone())))
        },
        _ => Err(ConfigError::CrateNotPath(None)),
    }
}

/// The path that a literal names.
pub fn parse_path(literal: &Literal) -> (path: Result<String, ConfigError>)
    ensures
        match crate_name_of(*literal) {
            Ok(text) => path matches Ok(found) && found@ == text,
            Err(error) => path matches Err(found) && found@ == error,
        },
{
    let parses = match literal {
        Literal::Str { value, suffixed } => is_path(value.as_str()),
        _ => false,
    };
    crate_name_from(literal, parses)
}

impl Configuration {
    /// A configuration in which no option is set.
    pub fn new() -> (config: Self)
        ensures
            config@ == (Options { worker_threads: None, crate_name: None }),
    {
        Configuration { worker_threads: None, crate_name: None }
    }

    /// Sets the number of worker threads, unless it is set already or the literal is not
    /// a number of threads. A refusal leaves the configuration as it was.
    pub fn set_worker_threads(&mut self, literal: &Literal) -> (result: Result<(), ConfigError>)
        ensures
            match set_option(old(self)@, "worker_threads"@, *literal) {
                Ok(options) => result is Ok && final(self)@ == options,
                Err(error) => result matches Err(found) && found@ == error && final(self)@ == old(
                    self,
                )@,
            },
    {
        if self.worker_threads.is_some() {
            return Err(ConfigError::WorkerThreadsTwice);
        }
        let threads = parse_worker_threads(literal)?;
        self.worker_threads = Some(threads);
        Ok(())
    }

    /// Sets the path of the runtime's crate, unless it is set already or the literal names
    /// no path. A refusal leaves the configuration as it was.
    pub fn set_crate_name(&mut self, literal: &Literal) -> (result: Result<(), ConfigError>)
        ensures
            match set_option(old(self)@, "crate"@, *literal) {
                Ok(options) => result is Ok && final(self)@ == options,
                Err(error) => result matches Err(found) && found@ == error && final(self)@ == old(
                    self,
                )@,
            },
    {
        proof {
            lemma_option_names_differ();
        }
        if self.crate_name.is_some() {
            return Err(ConfigError::CrateTwice);
        }
        let path = parse_path(literal)?;
        self.crate_name = Some(path);
        Ok(())
    }

    /// Sets the option of the given name, which is in lower case.
    pub fn set(&mut self, name: String, literal: &Literal) -> (result: Result<(), ConfigError>)
        ensures
            match set_option(old(self)@, name@, *literal) {
                Ok(options) => result is Ok && final(self)@ == options,
                Err(error) => result matches Err(found) && found@ == error && final(self)@ == old(
                    self,
                )@,
            },
    {
        proof {
            lemma_option_names_differ();
        }
        if name == String::from_str("worker_threads") {
            self.set_worker_threads(literal)
        } else if name == String::from_str("crate") {
            self.set_crate_name(literal)
        } else {
            Err(ConfigError::UnknownName(name))
        }
    }

    /// Reads one argument into the configuration.
    pub fn read(&mut self, argument: &Argument) -> (result: Result<(), ConfigError>)
        ensures
            match read_argument(old(self)@, *argument) {
                Ok(options) => result is Ok && final(self)@ == options,
                Err(error) => result matches Err(found) && found@ == error && final(self)@ == old(
                    self,
                )@,
            },
    {
        match argument {
            Argument::NameValue { name, literal } => {
                let name = match name {
                    Some(name) => to_lowercase(name.as_str()),
                    None => {
                        return Err(ConfigError::MissingName);
                    },
                };
                match literal {
                    Some(literal) => self.set(name, literal),
                    None => Err(ConfigError::NotLiteral),
                }
            },
            Argument::Other => Err(ConfigError::UnknownArgument),
        }
    }

    /// The options that were set.
    pub fn build(&self) -> (config: FinalConfig)
        ensures
            config@ == self@,
    {
        FinalConfig {
            worker_threads: self.worker_threads,
            crate_name: match &self.crate_name {
                Some(name) => Some(name.clone()),
                None => None,
            },
        }
    }
}

/// The names of the two options are two names.
pub proof fn lemma_option_names_differ()
    ensures
        "crate"@ != "worker_threads"@,
{
    reveal_strlit("crate");
    reveal_strlit("worker_threads");
    assert("crate"@.len() == 5);
}

/// Reads the arguments of the attribute, in order, up to the first that is refused.
pub fn build_config(is_async: bool, arguments: &Vec<Argument>) -> (result: Result<
    FinalConfig,
    Failure,
>)
    ensures
        match config_of(is_async, arguments@) {
            Ok(options) => result matches Ok(config) && config@ == options,
            Err((at, error)) => {
                &&& result matches Err(failure)
                &&& failure.error@ == error
                &&& match at {
                    Some(at) => failure.argument == Some(at as usize),
                    None => failure.argument is None,
                }
            },
        },
{
    if !is_async {
        return Err(Failure { argument: None, error: ConfigError::MissingAsync });
    }
    let mut config = Configuration::new();
    let mut next: usize = 0;
    while next < arguments.len()
        invariant
            is_async,
            next <= arguments@.len(),
            read_arguments(Options { worker_threads: None, crate_name: None }, arguments@, 0)
                == read_arguments(config@, arguments@, next as int),
        decreases arguments@.len() - next,
    {
        match config.read(&arguments[next]) {
            Ok(()) => {},
            Err(error) => {
                return Err(Failure { argument: Some(next), error });
            },
        }
        next += 1;
    }
    Ok(config.build())
}

/// Refuses the entry point of a program that takes arguments.
pub fn check_main(shape: &FunctionShape) -> (result: Result<(), ConfigError>)
    ensures
        result is Err <==> shape.is_main && shape.has_inputs,
        result matches Err(error) ==> error == ConfigError::MainWithArguments,
{
    if shape.is_main && shape.has_inputs {
        Err(ConfigError::MainWithArguments)
    } else {
        Ok(())
    }
}

/// Refuses a test that carries a `test` attribute already.
pub fn check_test(shape: &FunctionShape) -> (result: Result<(), ConfigError>)
    ensures
        result is Err <==> shape.has_test_attribute,
        result matches Err(error) ==> error == ConfigError::SecondTestAttribute,
{
    if shape.has_test_attribute {
        Err(ConfigError::SecondTestAttribute)
    } else {
        Ok(())
    }
}

impl FinalConfig {
    /// The configuration that stands in when the arguments were refused: no option is set.
    pub fn fallback() -> (config: Self)
        ensures
            config@ == (Options { worker_threads: None, crate_name: None }),
    {
        FinalConfig { worker_threads: None, crate_name: None }
    }

    /// The path of the crate that provides the runtime: the one that was named, or `rama`.
    pub fn crate_path(&self) -> (path: String)
        ensures
            path@ == match self@.crate_name {
                Some(name) => name,
                None => "rama"@,
            },
    {
        match &self.crate_name {
            Some(name) => name.clone(),
            None => String::from_str("rama"),
        }
    }
}

/// The ends of the tokens that are semicolons: for each semicolon, in order, the position
/// behind it.
pub open spec fn semicolon_ends(semicolons: Seq<bool>) -> Seq<int>
    decreases semicolons.len(),
{
    if semicolons.len() == 0 {
        Seq::empty()
    } else if semicolons.last() {
        semicolon_ends(semicolons.drop_last()).push(semicolons.len() as int)
    } else {
        semicolon_ends(semicolons.drop_last())
    }
}

/// Where the statements of a body end. The body is a sequence of tokens, of which
/// `semicolons` says which ones are semicolons. A statement ends behind its semicolon; what
/// follows the last semicolon is a statement too, if anything does.
pub open spec fn statement_ends(semicolons: Seq<bool>) -> Seq<int> {
    if semicolons.len() > 0 && !semicolons.last() {
        semicolon_ends(semicolons).push(semicolons.len() as int)
    } else {
        semicolon_ends(semicolons)
    }
}

/// The ends of the statements rise, none is before the first token or behind the last, and
/// a token is a semicolon exactly when it is the last of a statement, but for the last
/// token of the body, which ends a statement whatever it is.
pub proof fn lemma_statement_ends(semicolons: Seq<bool>)
    ensures
        forall|k: int|
            0 <= k < statement_ends(semicolons).len() ==> 1 <= #[trigger] statement_ends(
                semicolons,
            )[k] <= semicolons.len(),
        forall|j: int, k: int|
            0 <= j < k < statement_ends(semicolons).len() ==> statement_ends(semicolons)[j]
                < statement_ends(semicolons)[k],
        forall|i: int|
            0 <= i < semicolons.len() ==> ((semicolons[i] || i == semicolons.len() - 1)
                <==> statement_ends(semicolons).contains(i + 1)),
{
    lemma_semicolon_ends(semicolons);
    let ends = semicolon_ends(semicolons);
    let all = statement_ends(semicolons);
    if semicolons.len() > 0 && !semicolons.last() {
        let n = semicolons.len() as int;
        assert forall|i: int| 0 <= i < semicolons.len() implies ((semicolons[i] || i
            == semicolons.len() - 1) <==> all.contains(i + 1)) by {
            if ends.contains(i + 1) {
                let k = choose|k: int| 0 <= k < ends.len() && ends[k] == i + 1;
                assert(all[k] == i + 1);
            }
            if i == n - 1 {
                assert(all[ends.len() as int] == n);
            }
            if all.contains(i + 1) && i < n - 1 {
                let k = choose|k: int| 0 <= k < all.len() && all[k] == i + 1;
                assert(ends[k] == i + 1);
            }
        }
        assert forall|k: int| 0 <= k < ends.len() implies ends[k] < n by {
            assert(ends.contains(ends[k]));
        }
    }
}

/// The ends of the semicolons rise, lie within the body, and are the positions behind the
/// semicolons.
pub proof fn lemma_semicolon_ends(semicolons: Seq<bool>)
    ensures
        forall|k: int|
            0 <= k < semicolon_ends(semicolons).len() ==> 1 <= #[trigger] semicolon_ends(
                semicolons,
            )[k] <= semicolons.len(),
        forall|j: int, k: int|
            0 <= j < k < semicolon_ends(semicolons).len() ==> semicolon_ends(semicolons)[j]
                < semicolon_ends(semicolons)[k],
        forall|i: int|
            0 <= i < semicolons.len() ==> (semicolons[i] <==> semicolon_ends(semicolons).contains(
                i + 1,
            )),
    decreases semicolons.len(),
{
    if semicolons.len() > 0 {
        let front = semicolons.drop_last();
        let before = semicolon_ends(front);
        let ends = semicolon_ends(semicolons);
        let n = semicolons.len() as int;
        lemma_semicolon_ends(front);
        assert forall|i: int| 0 <= i < semicolons.len() implies (semicolons[i] <==> ends.contains(
            i + 1,
        )) by {
            if i < n - 1 {
                assert(front[i] == semicolons[i]);
                if before.contains(i + 1) {
                    let k = choose|k: int| 0 <= k < before.len() && before[k] == i + 1;
                    assert(ends[k] == i + 1);
                }
                if ends.contains(i + 1) {
                    let k = choose|k: int| 0 <= k < ends.len() && ends[k] == i + 1;
                    assert(before[k] == i + 1);
                }
            } else {
                if semicolons.last() {
                    assert(ends[before.len() as int] == n);
                }
                if ends.contains(n) && !semicolons.last() {
                    let k = choose|k: int| 0 <= k < ends.len() && ends[k] == n;
                    assert(before[k] <= n - 1);
                }
            }
        }
    }
}

/// Finds where the statements of a body end, given which of its tokens are semicolons.
pub fn split_statements(semicolons: &Vec<bool>) -> (ends: Vec<usize>)
    ensures
        ends@.len() == statement_ends(semicolons@).len(),
        forall|k: int| 0 <= k < ends@.len() ==> ends@[k] as int == statement_ends(semicolons@)[k],
{
    let mut ends: Vec<usize> = Vec::new();
    let mut at: usize = 0;
    while at < semicolons.len()
        invariant
            at <= semicolons@.len(),
            ends@.len() == semicolon_ends(semicolons@.take(at as int)).len(),
            forall|k: int|
                0 <= k < ends@.len() ==> ends@[k] as int == semicolon_ends(
                    semicolons@.take(at as int),
                )[k],
        decreases semicolons@.len() - at,
    {
        proof {
            let seen = semicolons@.take(at + 1);
            assert(seen.drop_last() =~= semicolons@.take(at as int));
        }
        if semicolons[at] {
            ends.push(at + 1);
        }
        at += 1;
    }
    proof {
        assert(semicolons@.take(at as int) =~= semicolons@);
    }
    if at > 0 && !semicolons[at - 1] {
        ends.push(at);
    }
    ends
}

} // verus!
