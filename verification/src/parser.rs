//! The parser: from the text of a program to its syntax tree.

use crate::parser::canonical::{
    show_array, show_block, show_items, show_loop, show_loops, show_members, show_method,
    show_print, show_program, show_service, show_services, show_statement, show_statements,
    show_string,
};
use crate::parser::grammar::{
    array_items, array_literal, block, call_statement, digits_end, digits_value, identifier,
    identifier_end, is_digit, loop_def, members, method_def, number, print_statement, program,
    quote_from, service_def, services, skip, sleep_statement, statement, statements, string_literal,
    time_value, token_from, word_at, Parsed, SpecLoop, SpecMethod, SpecParseError, SpecProgram,
    SpecService, SpecStatement,
};
use crate::text::{
    debug_duration, debug_duration_text, debug_list, debug_list_text, decimal, decimal_digits,
    from_chars, join, to_chars,
};
use vstd::prelude::*;

pub mod canonical;
pub mod grammar;
pub mod laws;
pub mod roundtrip;

verus! {

/// The rules of the grammar. A syntax error names the rule that the text
/// fails to match.
#[allow(non_camel_case_types)]
#[derive(Debug, Clone, Copy, PartialEq, Eq)]
pub enum Rule {
    program,
    service_def,
    method_def,
    loop_def,
    statement,
    print_stmt,
    sleep_stmt,
    call_stmt,
    time_value,
    time_unit,
    array_literal,
    string_literal,
    identifier,
    number,
    WHITESPACE,
    COMMENT,
    EOI,
    print_channel,
}

/// The name of a rule.
pub open spec fn rule_name(rule: Rule) -> Seq<char> {
    match rule {
        Rule::program => "program"@,
        Rule::service_def => "service_def"@,
        Rule::method_def => "method_def"@,
        Rule::loop_def => "loop_def"@,
        Rule::statement => "statement"@,
        Rule::print_stmt => "print_stmt"@,
        Rule::sleep_stmt => "sleep_stmt"@,
        Rule::call_stmt => "call_stmt"@,
        Rule::time_value => "time_value"@,
        Rule::time_unit => "time_unit"@,
        Rule::array_literal => "array_literal"@,
        Rule::string_literal => "string_literal"@,
        Rule::identifier => "identifier"@,
        Rule::number => "number"@,
        Rule::WHITESPACE => "WHITESPACE"@,
        Rule::COMMENT => "COMMENT"@,
        Rule::EOI => "EOI"@,
        Rule::print_channel => "print_channel"@,
    }
}

/// Names for the rules of the grammar.
pub trait RuleTrait {
    fn as_str(&self) -> &'static str;
}

impl RuleTrait for Rule {
    fn as_str(&self) -> (name: &'static str)
        ensures
            name@ == rule_name(*self),
    {
        match self {
            Rule::program => "program",
            Rule::service_def => "service_def",
            Rule::method_def => "method_def",
            Rule::loop_def => "loop_def",
            Rule::statement => "statement",
            Rule::print_stmt => "print_stmt",
            Rule::sleep_stmt => "sleep_stmt",
            Rule::call_stmt => "call_stmt",
            Rule::time_value => "time_value",
            Rule::time_unit => "time_unit",
            Rule::array_literal => "array_literal",
            Rule::string_literal => "string_literal",
            Rule::identifier => "identifier",
            Rule::number => "number",
            Rule::WHITESPACE => "WHITESPACE",
            Rule::COMMENT => "COMMENT",
            Rule::EOI => "EOI",
            Rule::print_channel => "print_channel",
        }
    }
}

/// A program: the services it declares, in the order of the text.
#[derive(Debug, Clone, PartialEq, Eq)]
pub struct Program {
    pub services: Vec<Service>,
}

/// A service: its name, its methods and its loops, each in the order of the
/// text.
#[derive(Debug, Clone, PartialEq, Eq)]
pub struct Service {
    pub name: String,
    pub methods: Vec<Method>,
    pub loops: Vec<Loop>,
}

/// A method: its name and its statements.
#[derive(Debug, Clone, PartialEq, Eq)]
pub struct Method {
    pub name: String,
    pub statements: Vec<Statement>,
}

/// A loop: the statements that the service repeats.
#[derive(Debug, Clone, PartialEq, Eq)]
pub struct Loop {
    pub statements: Vec<Statement>,
}

/// A statement of a method or a loop.
#[derive(Debug, Clone, PartialEq, Eq)]
pub enum Statement {
    /// Print a message to stdout; with `args`, once for each argument.
    Stdout { message: String, args: Option<Vec<String>> },
    /// Print a message to stderr; with `args`, once for each argument.
    Stderr { message: String, args: Option<Vec<String>> },
    /// Pause for `duration` milliseconds.
    Sleep { duration: u64 },
    /// Call a method: one of the same service, or with `service` one of
    /// another service.
    Call { service: Option<String>, method: String },
}

/// The text that describes a print statement in messages: the name of the
/// channel, the message in parentheses and, where there are arguments, their
/// list in parentheses.
pub open spec fn print_text(channel: Seq<char>, message: Seq<char>, args: Option<Seq<Seq<char>>>)
    -> Seq<char> {
    channel + "("@ + message + ")"@ + match args {
        Some(list) => "("@ + debug_list_text(list) + ")"@,
        None => Seq::<char>::empty(),
    }
}

/// The text that describes a statement in messages.
pub open spec fn statement_text(s: SpecStatement) -> Seq<char> {
    match s {
        SpecStatement::Stdout { message, args } => print_text("Print"@, message, args),
        SpecStatement::Stderr { message, args } => print_text("Stderr"@, message, args),
        SpecStatement::Sleep { duration } => "Sleep("@ + debug_duration_text(duration) + ")"@,
        SpecStatement::Call { service, method } => "Call("@ + match service {
            Some(name) => name,
            None => Seq::<char>::empty(),
        } + "."@ + method + ")"@,
    }
}

/// Describes a print statement.
fn print_to_string(channel: &str, message: &str, args: &Option<Vec<String>>) -> (text: String)
    ensures
        text@ == print_text(channel@, message@, args.deep_view()),
{
    let head = join(channel, "(").concat(message).concat(")");
    match args {
        Some(list) => {
            let shown = debug_list(list);
            let tail = join("(", shown.as_str()).concat(")");
            let text = head.concat(tail.as_str());
            proof {
                assert(text@ =~= print_text(channel@, message@, args.deep_view()));
            }
            text
        },
        None => {
            proof {
                assert(head@ =~= print_text(channel@, message@, args.deep_view()));
            }
            head
        },
    }
}

impl Statement {
    /// Describes the statement, for messages.
    pub fn to_string(&self) -> (text: String)
        ensures
            text@ == statement_text(self.deep_view()),
    {
        match self {
            Statement::Stdout { message, args } => print_to_string("Print", message.as_str(), args),
            Statement::Stderr { message, args } => print_to_string(
                "Stderr",
                message.as_str(),
                args,
            ),
            Statement::Sleep { duration } => {
                let shown = debug_duration(*duration);
                join("Sleep(", shown.as_str()).concat(")")
            },
            Statement::Call { service, method } => {
                let target = match service {
                    Some(name) => join("Call(", name.as_str()),
                    None => {
                        let text = "Call(".to_owned();
                        proof {
                            assert(text@ =~= "Call("@ + Seq::<char>::empty());
                        }
                        text
                    },
                };
                target.concat(".").concat(method.as_str()).concat(")")
            },
        }
    }
}

/// Why a text could not be parsed.
#[derive(Debug, Clone, PartialEq, Eq)]
pub enum ParseError {
    /// The text at `position`, counted in characters, does not start what
    /// `expected` names.
    Unexpected { position: usize, expected: Rule },
    /// A token is well formed, and what it says cannot be represented.
    InvalidInput(String),
}

impl DeepView for Statement {
    type V = SpecStatement;

    open spec fn deep_view(&self) -> SpecStatement {
        match self {
            Statement::Stdout { message, args } => SpecStatement::Stdout {
                message: message@,
                args: args.deep_view(),
            },
            Statement::Stderr { message, args } => SpecStatement::Stderr {
                message: message@,
                args: args.deep_view(),
            },
            Statement::Sleep { duration } => SpecStatement::Sleep { duration: *duration },
            Statement::Call { service, method } => SpecStatement::Call {
                service: service.deep_view(),
                method: method@,
            },
        }
    }
}

impl DeepView for Loop {
    type V = SpecLoop;

    open spec fn deep_view(&self) -> SpecLoop {
        SpecLoop { statements: self.statements.deep_view() }
    }
}

impl DeepView for Method {
    type V = SpecMethod;

    open spec fn deep_view(&self) -> SpecMethod {
        SpecMethod { name: self.name@, statements: self.statements.deep_view() }
    }
}

impl DeepView for Service {
    type V = SpecService;

    open spec fn deep_view(&self) -> SpecService {
        SpecService {
            name: self.name@,
            methods: self.methods.deep_view(),
            loops: self.loops.deep_view(),
        }
    }
}

impl DeepView for Program {
    type V = SpecProgram;

    open spec fn deep_view(&self) -> SpecProgram {
        SpecProgram { services: self.services.deep_view() }
    }
}

/// The text of an error.
pub open spec fn parse_error_text(e: SpecParseError) -> Seq<char> {
    match e {
        SpecParseError::Unexpected { position, expected } => "Parser error: expected "@
            + rule_name(expected) + " at position "@ + decimal_digits(position as nat),
        SpecParseError::InvalidInput(message) => "Invalid input: "@ + message,
    }
}

impl ParseError {
    /// The text of the error.
    pub fn to_string(&self) -> (text: String)
        ensures
            text@ == parse_error_text(self.deep_view()),
    {
        match self {
            ParseError::Unexpected { position, expected } => {
                let at = decimal(*position as u64);
                join("Parser error: expected ", expected.as_str()).concat(" at position ").concat(
                    at.as_str(),
                )
            },
            ParseError::InvalidInput(message) => join("Invalid input: ", message.as_str()),
        }
    }
}

impl DeepView for ParseError {
    type V = SpecParseError;

    open spec fn deep_view(&self) -> SpecParseError {
        match self {
            ParseError::Unexpected { position, expected } => SpecParseError::Unexpected {
                position: *position as int,
                expected: *expected,
            },
            ParseError::InvalidInput(message) => SpecParseError::InvalidInput(message@),
        }
    }
}

/// Whether the outcome `res` of reading a value is what `expected`
/// describes.
pub open spec fn parsed_as<T: DeepView>(
    res: Result<(T, usize), ParseError>,
    expected: Parsed<T::V>,
) -> bool {
    match expected {
        Parsed::Done(v, next) => res matches Ok((x, n)) && x.deep_view() == v && n == next,
        Parsed::Failed(e) => res matches Err(x) && x.deep_view() == e,
    }
}

/// `Unexpected` at position `p`.
fn unexpected<T>(p: usize, expected: Rule) -> (res: Result<T, ParseError>)
    ensures
        res matches Err(e) && e.deep_view() == (SpecParseError::Unexpected {
            position: p as int,
            expected,
        }),
{
    Err(ParseError::Unexpected { position: p, expected })
}

/// The position of the next token at or after `p`.
fn skip_blank(src: &Vec<char>, p: usize) -> (q: usize)
    requires
        p <= src.len(),
    ensures
        q == token_from(src@, p as int),
        p <= q <= src.len(),
{
    let mut i = p;
    let mut in_comment = false;
    while i < src.len()
        invariant
            p <= i <= src.len(),
            skip(src@, p as int, false) == skip(src@, i as int, in_comment),
        decreases src.len() - i,
    {
        let c = src[i];
        if in_comment {
            in_comment = c != '\n';
            i += 1;
        } else if c == ' ' || c == '\t' || c == '\r' || c == '\n' {
            i += 1;
        } else if c == '/' && i + 1 < src.len() && src[i + 1] == '/' {
            i += 2;
            in_comment = true;
        } else {
            return i;
        }
    }
    i
}

/// Whether `c` stands at position `p`.
fn char_at(src: &Vec<char>, p: usize, c: char) -> (b: bool)
    ensures
        b == grammar::char_at(src@, p as int, c),
{
    p < src.len() && src[p] == c
}

/// Where `word` stands at position `p`, the position just past it.
fn match_word(src: &Vec<char>, p: usize, word: &str) -> (res: Option<usize>)
    requires
        p <= src.len(),
    ensures
        match res {
            Some(q) => word_at(src@, p as int, word@) && q == p + word@.len() && q <= src.len(),
            None => !word_at(src@, p as int, word@),
        },
{
    let w = to_chars(word);
    if w.len() > src.len() - p {
        return None;
    }
    let mut i: usize = 0;
    while i < w.len()
        invariant
            w@ == word@,
            p + w.len() <= src.len(),
            i <= w.len(),
            src@.subrange(p as int, p + i) == w@.subrange(0, i as int),
        decreases w.len() - i,
    {
        if src[p + i] != w[i] {
            proof {
                let full = src@.subrange(p as int, p + w.len());
                assert(full[i as int] != w@[i as int]);
            }
            return None;
        }
        proof {
            assert(src@.subrange(p as int, p + i + 1) =~= src@.subrange(p as int, p + i).push(
                src@[p + i],
            ));
            assert(w@.subrange(0, i + 1) =~= w@.subrange(0, i as int).push(w@[i as int]));
        }
        i += 1;
    }
    proof {
        assert(w@.subrange(0, w.len() as int) =~= w@);
    }
    Some(p + w.len())
}

/// Where `word` stands at position `p`, the position of the token after it.
fn match_keyword(src: &Vec<char>, p: usize, word: &str) -> (res: Option<usize>)
    requires
        p <= src.len(),
    ensures
        match res {
            Some(q) => word_at(src@, p as int, word@) && q == grammar::after_word(
                src@,
                p as int,
                word@,
            ) && p <= q <= src.len(),
            None => !word_at(src@, p as int, word@),
        },
{
    match match_word(src, p, word) {
        Some(q) => Some(skip_blank(src, q)),
        None => None,
    }
}

fn parse_identifier(src: &Vec<char>, p: usize) -> (res: Result<(String, usize), ParseError>)
    requires
        p <= src.len(),
    ensures
        parsed_as(res, identifier(src@, p as int)),
        res matches Ok((_, q)) ==> p < q <= src.len(),
{
    if p >= src.len() {
        return unexpected(p, Rule::identifier);
    }
    let c = src[p];
    if !(('a' <= c && c <= 'z') || ('A' <= c && c <= 'Z') || c == '_') {
        return unexpected(p, Rule::identifier);
    }
    let mut end = p + 1;
    while end < src.len() && (('a' <= src[end] && src[end] <= 'z') || ('A' <= src[end] && src[end]
        <= 'Z') || src[end] == '_' || ('0' <= src[end] && src[end] <= '9'))
        invariant
            p < end <= src.len(),
            identifier_end(src@, p + 1) == identifier_end(src@, end as int),
        decreases src.len() - end,
    {
        end += 1;
    }
    let name = from_chars(src, p, end);
    let next = skip_blank(src, end);
    Ok((name, next))
}

fn parse_string_literal(src: &Vec<char>, p: usize) -> (res: Result<(String, usize), ParseError>)
    requires
        p <= src.len(),
    ensures
        parsed_as(res, string_literal(src@, p as int)),
        res matches Ok((_, q)) ==> p < q <= src.len(),
{
    if !char_at(src, p, '"') {
        return unexpected(p, Rule::string_literal);
    }
    let mut end = p + 1;
    while end < src.len() && src[end] != '"'
        invariant
            p < end <= src.len(),
            quote_from(src@, p + 1) == quote_from(src@, end as int),
        decreases src.len() - end,
    {
        end += 1;
    }
    if end >= src.len() {
        return unexpected(p, Rule::string_literal);
    }
    let text = from_chars(src, p + 1, end);
    let next = skip_blank(src, end + 1);
    Ok((text, next))
}

fn parse_number(src: &Vec<char>, p: usize) -> (res: Result<(u64, usize), ParseError>)
    requires
        p <= src.len(),
    ensures
        parsed_as(res, number(src@, p as int)),
        res matches Ok((_, q)) ==> p < q <= src.len(),
{
    if p >= src.len() || !('0' <= src[p] && src[p] <= '9') {
        return unexpected(p, Rule::number);
    }
    let mut end = p;
    let mut value: u64 = 0;
    let mut fits = true;
    proof {
        assert(src@.subrange(p as int, p as int) =~= Seq::<char>::empty());
    }
    while end < src.len() && '0' <= src[end] && src[end] <= '9'
        invariant
            p <= end <= src.len(),
            end == p ==> is_digit(src@[p as int]),
            digits_end(src@, p + 1) == if end == p {
                digits_end(src@, p + 1)
            } else {
                digits_end(src@, end as int)
            },
            fits ==> value == digits_value(src@.subrange(p as int, end as int)),
            !fits ==> digits_value(src@.subrange(p as int, end as int)) > u64::MAX,
        decreases src.len() - end,
    {
        let digit = (src[end] as u32 - '0' as u32) as u64;
        proof {
            let longer = src@.subrange(p as int, end + 1);
            assert(longer.drop_last() =~= src@.subrange(p as int, end as int));
            assert(longer.last() == src@[end as int]);
        }
        if fits {
            if value > (u64::MAX - digit) / 10 {
                fits = false;
            } else {
                value = value * 10 + digit;
            }
        }
        end += 1;
    }
    if fits {
        let next = skip_blank(src, end);
        Ok((value, next))
    } else {
        let digits = from_chars(src, p, end);
        Err(ParseError::InvalidInput(join("Invalid number: ", digits.as_str())))
    }
}

fn parse_time_value(src: &Vec<char>, p: usize) -> (res: Result<(u64, usize), ParseError>)
    requires
        p <= src.len(),
    ensures
        parsed_as(res, time_value(src@, p as int)),
        res matches Ok((_, q)) ==> p < q <= src.len(),
{
    let (n, q) = match parse_number(src, p) {
        Err(e) => {
            return Err(e);
        },
        Ok(found) => found,
    };
    match match_keyword(src, q, "ms") {
        Some(next) => Ok((n, next)),
        None => match match_keyword(src, q, "s") {
            Some(next) => Ok((n.wrapping_mul(1000), next)),
            None => unexpected(q, Rule::time_unit),
        },
    }
}

/// Reads the items of an array literal from the item at `first` on, up to
/// and including the closing bracket.
fn parse_array_items(src: &Vec<char>, first: usize) -> (res: Result<
    (Vec<String>, usize),
    ParseError,
>)
    requires
        first <= src.len(),
    ensures
        parsed_as(res, array_items(src@, first as int)),
        res matches Ok((_, q)) ==> first < q <= src.len(),
{
    let mut items: Vec<String> = Vec::new();
    let mut at = first;
    proof {
        assert(items.deep_view() =~= Seq::<Seq<char>>::empty());
        match array_items(src@, at as int) {
            Parsed::Done(rest, r) => {
                assert(items.deep_view() + rest =~= rest);
            },
            Parsed::Failed(e) => {},
        }
    }
    loop
        invariant
            first <= at <= src.len(),
            array_items(src@, first as int) == match array_items(src@, at as int) {
                Parsed::Done(rest, r) => Parsed::Done(items.deep_view() + rest, r),
                Parsed::Failed(e) => Parsed::Failed(e),
            },
        decreases src.len() - at,
    {
        let (item, q) = match parse_string_literal(src, at) {
            Err(e) => {
                return Err(e);
            },
            Ok(found) => found,
        };
        let ghost before = items.deep_view();
        let ghost text = item@;
        items.push(item);
        proof {
            assert(items.deep_view() =~= before + seq![text]);
        }
        if char_at(src, q, ',') {
            at = skip_blank(src, q + 1);
            proof {
                match array_items(src@, at as int) {
                    Parsed::Done(rest, r) => {
                        assert(before + (seq![text] + rest) =~= items.deep_view() + rest);
                    },
                    Parsed::Failed(e) => {},
                }
            }
        } else if char_at(src, q, ']') {
            let next = skip_blank(src, q + 1);
            return Ok((items, next));
        } else {
            return unexpected(q, Rule::array_literal);
        }
    }
}

fn parse_array_literal(src: &Vec<char>, p: usize) -> (res: Result<
    (Vec<String>, usize),
    ParseError,
>)
    requires
        p <= src.len(),
    ensures
        parsed_as(res, array_literal(src@, p as int)),
        res matches Ok((_, q)) ==> p < q <= src.len(),
{
    if !char_at(src, p, '[') {
        return unexpected(p, Rule::array_literal);
    }
    let first = skip_blank(src, p + 1);
    if char_at(src, first, ']') {
        let items: Vec<String> = Vec::new();
        let next = skip_blank(src, first + 1);
        proof {
            assert(items.deep_view() =~= Seq::<Seq<char>>::empty());
        }
        Ok((items, next))
    } else {
        parse_array_items(src, first)
    }
}

fn parse_print_statement(src: &Vec<char>, p: usize, stderr: bool) -> (res: Result<
    (Statement, usize),
    ParseError,
>)
    requires
        p <= src.len(),
    ensures
        parsed_as(res, print_statement(src@, p as int, stderr)),
        res matches Ok((_, q)) ==> p < q <= src.len(),
{
    let (message, q) = match parse_string_literal(src, p) {
        Err(e) => {
            return Err(e);
        },
        Ok(found) => found,
    };
    let (args, next) = match match_keyword(src, q, "with") {
        None => (None, q),
        Some(list) => match parse_array_literal(src, list) {
            Err(e) => {
                return Err(e);
            },
            Ok((args, next)) => (Some(args), next),
        },
    };
    if stderr {
        Ok((Statement::Stderr { message, args }, next))
    } else {
        Ok((Statement::Stdout { message, args }, next))
    }
}

fn parse_sleep_statement(src: &Vec<char>, p: usize) -> (res: Result<
    (Statement, usize),
    ParseError,
>)
    requires
        p <= src.len(),
    ensures
        parsed_as(res, sleep_statement(src@, p as int)),
        res matches Ok((_, q)) ==> p < q <= src.len(),
{
    match parse_time_value(src, p) {
        Err(e) => Err(e),
        Ok((duration, next)) => Ok((Statement::Sleep { duration }, next)),
    }
}

fn parse_call_statement(src: &Vec<char>, p: usize) -> (res: Result<(Statement, usize), ParseError>)
    requires
        p <= src.len(),
    ensures
        parsed_as(res, call_statement(src@, p as int)),
        res matches Ok((_, q)) ==> p < q <= src.len(),
{
    let (first, q) = match parse_identifier(src, p) {
        Err(e) => {
            return Err(e);
        },
        Ok(found) => found,
    };
    if char_at(src, q, '.') {
        let at = skip_blank(src, q + 1);
        match parse_identifier(src, at) {
            Err(e) => Err(e),
            Ok((second, next)) => Ok(
                (Statement::Call { service: Some(first), method: second }, next),
            ),
        }
    } else {
        Ok((Statement::Call { service: None, method: first }, q))
    }
}

fn parse_statement(src: &Vec<char>, p: usize) -> (res: Result<(Statement, usize), ParseError>)
    requires
        p <= src.len(),
    ensures
        parsed_as(res, statement(src@, p as int)),
        res matches Ok((_, q)) ==> p < q <= src.len(),
{
    let bare = match match_keyword(src, p, "print") {
        Some(at) => parse_print_statement(src, at, false),
        None => match match_keyword(src, p, "stderr") {
            Some(at) => parse_print_statement(src, at, true),
            None => match match_keyword(src, p, "sleep") {
                Some(at) => parse_sleep_statement(src, at),
                None => match match_keyword(src, p, "call") {
                    Some(at) => parse_call_statement(src, at),
                    None => unexpected(p, Rule::statement),
                },
            },
        },
    };
    match bare {
        Err(e) => Err(e),
        Ok((s, q)) => if char_at(src, q, ';') {
            let next = skip_blank(src, q + 1);
            Ok((s, next))
        } else {
            Ok((s, q))
        },
    }
}

/// Reads the statements from the token at `first` up to a closing brace;
/// returns the position of that brace.
fn parse_statements(src: &Vec<char>, first: usize) -> (res: Result<
    (Vec<Statement>, usize),
    ParseError,
>)
    requires
        first <= src.len(),
    ensures
        parsed_as(res, statements(src@, first as int)),
        res matches Ok((_, q)) ==> first <= q < src.len(),
{
    let mut body: Vec<Statement> = Vec::new();
    let mut at = first;
    proof {
        assert(body.deep_view() =~= Seq::<SpecStatement>::empty());
        match statements(src@, at as int) {
            Parsed::Done(rest, r) => {
                assert(body.deep_view() + rest =~= rest);
            },
            Parsed::Failed(e) => {},
        }
    }
    while !char_at(src, at, '}')
        invariant
            first <= at <= src.len(),
            statements(src@, first as int) == match statements(src@, at as int) {
                Parsed::Done(rest, r) => Parsed::Done(body.deep_view() + rest, r),
                Parsed::Failed(e) => Parsed::Failed(e),
            },
        decreases src.len() - at,
    {
        let (s, q) = match parse_statement(src, at) {
            Err(e) => {
                return Err(e);
            },
            Ok(found) => found,
        };
        let ghost before = body.deep_view();
        let ghost one = s.deep_view();
        body.push(s);
        at = q;
        proof {
            assert(body.deep_view() =~= before + seq![one]);
            match statements(src@, at as int) {
                Parsed::Done(rest, r) => {
                    assert(before + (seq![one] + rest) =~= body.deep_view() + rest);
                },
                Parsed::Failed(e) => {},
            }
        }
    }
    proof {
        assert(body.deep_view() + Seq::<SpecStatement>::empty() =~= body.deep_view());
    }
    Ok((body, at))
}

/// Reads statements in braces; `rule` names what the braces belong to.
fn parse_block(src: &Vec<char>, p: usize, rule: Rule) -> (res: Result<
    (Vec<Statement>, usize),
    ParseError,
>)
    requires
        p <= src.len(),
    ensures
        parsed_as(res, block(src@, p as int, rule)),
        res matches Ok((_, q)) ==> p < q <= src.len(),
{
    if !char_at(src, p, '{') {
        return unexpected(p, rule);
    }
    let first = skip_blank(src, p + 1);
    match parse_statements(src, first) {
        Err(e) => Err(e),
        Ok((body, end)) => {
            let next = skip_blank(src, end + 1);
            Ok((body, next))
        },
    }
}

/// Reads what follows `method`.
fn parse_method(src: &Vec<char>, p: usize) -> (res: Result<(Method, usize), ParseError>)
    requires
        p <= src.len(),
    ensures
        parsed_as(res, method_def(src@, p as int)),
        res matches Ok((_, q)) ==> p < q <= src.len(),
{
    let (name, q) = match parse_identifier(src, p) {
        Err(e) => {
            return Err(e);
        },
        Ok(found) => found,
    };
    match parse_block(src, q, Rule::method_def) {
        Err(e) => Err(e),
        Ok((statements, next)) => Ok((Method { name, statements }, next)),
    }
}

/// Reads what follows `loop`.
fn parse_loop(src: &Vec<char>, p: usize) -> (res: Result<(Loop, usize), ParseError>)
    requires
        p <= src.len(),
    ensures
        parsed_as(res, loop_def(src@, p as int)),
        res matches Ok((_, q)) ==> p < q <= src.len(),
{
    match parse_block(src, p, Rule::loop_def) {
        Err(e) => Err(e),
        Ok((statements, next)) => Ok((Loop { statements }, next)),
    }
}

/// Reads the methods and the loops from the token at `first` up to a
/// closing brace; returns the position of that brace.
#[verifier::spinoff_prover]
#[verifier::rlimit(30)]
fn parse_members(src: &Vec<char>, first: usize) -> (res: Result<
    ((Vec<Method>, Vec<Loop>), usize),
    ParseError,
>)
    requires
        first <= src.len(),
    ensures
        parsed_as(res, members(src@, first as int)),
        res matches Ok((_, q)) ==> first <= q < src.len(),
{
    let mut methods: Vec<Method> = Vec::new();
    let mut loops: Vec<Loop> = Vec::new();
    let mut at = first;
    proof {
        assert(methods.deep_view() =~= Seq::<SpecMethod>::empty());
        assert(loops.deep_view() =~= Seq::<SpecLoop>::empty());
        match members(src@, at as int) {
            Parsed::Done(rest, r) => {
                assert(methods.deep_view() + rest.0 =~= rest.0);
                assert(loops.deep_view() + rest.1 =~= rest.1);
            },
            Parsed::Failed(e) => {},
        }
    }
    while !char_at(src, at, '}')
        invariant
            first <= at <= src.len(),
            members(src@, first as int) == match members(src@, at as int) {
                Parsed::Done(rest, r) => Parsed::Done(
                    (methods.deep_view() + rest.0, loops.deep_view() + rest.1),
                    r,
                ),
                Parsed::Failed(e) => Parsed::Failed(e),
            },
        decreases src.len() - at,
    {
        let ghost methods_before = methods.deep_view();
        let ghost loops_before = loops.deep_view();
        match match_keyword(src, at, "method") {
            Some(inner) => {
                let (m, next) = match parse_method(src, inner) {
                    Err(e) => {
                        return Err(e);
                    },
                    Ok(found) => found,
                };
                let ghost one = m.deep_view();
                methods.push(m);
                at = next;
                proof {
                    assert(methods.deep_view() =~= methods_before + seq![one]);
                    match members(src@, at as int) {
                        Parsed::Done(rest, r) => {
                            assert(methods_before + (seq![one] + rest.0) =~= methods.deep_view()
                                + rest.0);
                        },
                        Parsed::Failed(e) => {},
                    }
                }
            },
            None => match match_keyword(src, at, "loop") {
                Some(inner) => {
                    let (l, next) = match parse_loop(src, inner) {
                        Err(e) => {
                            return Err(e);
                        },
                        Ok(found) => found,
                    };
                    let ghost one = l.deep_view();
                    loops.push(l);
                    at = next;
                    proof {
                        assert(loops.deep_view() =~= loops_before + seq![one]);
                        match members(src@, at as int) {
                            Parsed::Done(rest, r) => {
                                assert(loops_before + (seq![one] + rest.1) =~= loops.deep_view()
                                    + rest.1);
                            },
                            Parsed::Failed(e) => {},
                        }
                    }
                },
                None => {
                    return unexpected(at, Rule::service_def);
                },
            },
        }
    }
    proof {
        assert(methods.deep_view() + Seq::<SpecMethod>::empty() =~= methods.deep_view());
        assert(loops.deep_view() + Seq::<SpecLoop>::empty() =~= loops.deep_view());
    }
    Ok(((methods, loops), at))
}

/// Reads what follows `service`.
fn parse_service(src: &Vec<char>, p: usize) -> (res: Result<(Service, usize), ParseError>)
    requires
        p <= src.len(),
    ensures
        parsed_as(res, service_def(src@, p as int)),
        res matches Ok((_, q)) ==> p < q <= src.len(),
{
    let (name, q) = match parse_identifier(src, p) {
        Err(e) => {
            return Err(e);
        },
        Ok(found) => found,
    };
    if !char_at(src, q, '{') {
        return unexpected(q, Rule::service_def);
    }
    let first = skip_blank(src, q + 1);
    match parse_members(src, first) {
        Err(e) => Err(e),
        Ok(((methods, loops), end)) => {
            let next = skip_blank(src, end + 1);
            Ok((Service { name, methods, loops }, next))
        },
    }
}

/// Reads the services from the token at `p` to the end of the text.
fn parse_program(src: &Vec<char>, p: usize) -> (res: Result<Program, ParseError>)
    requires
        p <= src.len(),
    ensures
        match services(src@, p as int) {
            Parsed::Done(all, _) => res matches Ok(program) && program.deep_view() == (SpecProgram {
                services: all,
            }),
            Parsed::Failed(e) => res matches Err(x) && x.deep_view() == e,
        },
{
    let mut found: Vec<Service> = Vec::new();
    let mut at = p;
    proof {
        assert(found.deep_view() =~= Seq::<SpecService>::empty());
        match services(src@, at as int) {
            Parsed::Done(rest, r) => {
                assert(found.deep_view() + rest =~= rest);
            },
            Parsed::Failed(e) => {},
        }
    }
    while at < src.len()
        invariant
            p <= at <= src.len(),
            services(src@, p as int) == match services(src@, at as int) {
                Parsed::Done(rest, r) => Parsed::Done(found.deep_view() + rest, r),
                Parsed::Failed(e) => Parsed::Failed(e),
            },
        decreases src.len() - at,
    {
        let inner = match match_keyword(src, at, "service") {
            None => {
                return unexpected(at, Rule::EOI);
            },
            Some(inner) => inner,
        };
        let (service, next) = match parse_service(src, inner) {
            Err(e) => {
                return Err(e);
            },
            Ok(parsed) => parsed,
        };
        let ghost before = found.deep_view();
        let ghost one = service.deep_view();
        found.push(service);
        at = next;
        proof {
            assert(found.deep_view() =~= before + seq![one]);
            match services(src@, at as int) {
                Parsed::Done(rest, r) => {
                    assert(before + (seq![one] + rest) =~= found.deep_view() + rest);
                },
                Parsed::Failed(e) => {},
            }
        }
    }
    proof {
        assert(found.deep_view() + Seq::<SpecService>::empty() =~= found.deep_view());
    }
    Ok(Program { services: found })
}

/// Whether the outcome `res` of parsing a text is what `expected`
/// describes.
pub open spec fn program_parsed_as(
    res: Result<Program, ParseError>,
    expected: Result<SpecProgram, SpecParseError>,
) -> bool {
    match expected {
        Ok(p) => res matches Ok(x) && x.deep_view() == p,
        Err(e) => res matches Err(x) && x.deep_view() == e,
    }
}

/// Parses the text of a program. Succeeds exactly on the texts that the
/// grammar derives, with the tree that the grammar gives them; fails on
/// every other text, with the position and the rule at which the grammar
/// fails.
pub fn parse(input: &str) -> (res: Result<Program, ParseError>)
    ensures
        program_parsed_as(res, program(input@)),
{
    let src = to_chars(input);
    let start = skip_blank(&src, 0);
    parse_program(&src, start)
}

/// The parser of the language.
pub struct MustermannParser;

impl MustermannParser {
    /// Parses the text of a program, as [`parse`] does.
    pub fn parse(input: &str) -> (res: Result<Program, ParseError>)
        ensures
            program_parsed_as(res, program(input@)),
    {
        parse(input)
    }
}

/// Appends a string literal for `s` to `out`.
fn write_string(out: &mut String, s: &str)
    ensures
        final(out)@ == old(out)@ + show_string(s@),
{
    out.push('"');
    out.append(s);
    out.push('"');
    proof {
        assert(out@ =~= old(out)@ + show_string(s@));
    }
}

/// Appends an array literal for `items` to `out`.
fn write_array(out: &mut String, items: &Vec<String>)
    ensures
        final(out)@ == old(out)@ + show_array(items.deep_view()),
{
    let ghost list = items.deep_view();
    out.push('[');
    let ghost head = out@;
    let mut k: usize = 0;
    proof {
        assert(list.skip(0) =~= list);
    }
    while k < items.len()
        invariant
            k <= items.len(),
            list == items.deep_view(),
            out@ + show_items(list.skip(k as int)) == head + show_items(list),
        decreases items.len() - k,
    {
        let ghost before = out@;
        write_string(out, items[k].as_str());
        if k + 1 < items.len() {
            out.push(',');
            out.push(' ');
        }
        proof {
            let rest = list.skip(k as int);
            assert(rest[0] == items[k as int]@);
            assert(rest.drop_first() =~= list.skip(k + 1));
            assert(out@ + show_items(list.skip(k + 1)) =~= before + show_items(rest));
        }
        k += 1;
    }
    out.push(']');
    proof {
        assert(out@ =~= old(out)@ + show_array(list));
    }
}

/// Appends the message and the arguments of a print statement to `out`.
fn write_print(out: &mut String, message: &str, args: &Option<Vec<String>>)
    ensures
        final(out)@ == old(out)@ + show_print(message@, args.deep_view()),
{
    write_string(out, message);
    match args {
        None => {},
        Some(items) => {
            out.push(' ');
            out.append("with");
            out.push(' ');
            write_array(out, items);
            proof {
                assert(out@ =~= old(out)@ + show_print(message@, args.deep_view()));
            }
        },
    }
}

/// Appends the canonical text of a statement to `out`.
fn write_statement(out: &mut String, statement: &Statement)
    ensures
        final(out)@ == old(out)@ + show_statement(statement.deep_view()),
{
    match statement {
        Statement::Stdout { message, args } => {
            out.append("print");
            out.push(' ');
            write_print(out, message.as_str(), args);
        },
        Statement::Stderr { message, args } => {
            out.append("stderr");
            out.push(' ');
            write_print(out, message.as_str(), args);
        },
        Statement::Sleep { duration } => {
            let number = decimal(*duration);
            out.append("sleep");
            out.push(' ');
            out.append(number.as_str());
            out.append("ms");
        },
        Statement::Call { service, method } => {
            out.append("call");
            out.push(' ');
            match service {
                Some(service) => {
                    out.append(service.as_str());
                    out.push('.');
                },
                None => {},
            }
            out.append(method.as_str());
        },
    }
    out.push(';');
    out.push('\n');
    proof {
        assert(out@ =~= old(out)@ + show_statement(statement.deep_view()));
    }
}

/// Appends the canonical text of statements in braces to `out`.
fn write_block(out: &mut String, statements: &Vec<Statement>)
    ensures
        final(out)@ == old(out)@ + show_block(statements.deep_view()),
{
    out.push('{');
    out.push('\n');
    let ghost list = statements.deep_view();
    let ghost head = out@;
    let mut k: usize = 0;
    proof {
        assert(list.skip(0) =~= list);
    }
    while k < statements.len()
        invariant
            k <= statements.len(),
            list == statements.deep_view(),
            out@ + show_statements(list.skip(k as int)) == head + show_statements(list),
        decreases statements.len() - k,
    {
        let ghost before = out@;
        write_statement(out, &statements[k]);
        proof {
            let rest = list.skip(k as int);
            assert(rest[0] == statements[k as int].deep_view());
            assert(rest.drop_first() =~= list.skip(k + 1));
            assert(out@ + show_statements(list.skip(k + 1)) =~= before + show_statements(rest));
        }
        k += 1;
    }
    out.push('}');
    out.push('\n');
    proof {
        assert(out@ =~= old(out)@ + show_block(statements.deep_view()));
    }
}

/// Appends the canonical text of a method to `out`.
fn write_method(out: &mut String, method: &Method)
    ensures
        final(out)@ == old(out)@ + show_method(method.deep_view()),
{
    out.append("method");
    out.push(' ');
    out.append(method.name.as_str());
    out.push(' ');
    write_block(out, &method.statements);
    proof {
        assert(out@ =~= old(out)@ + show_method(method.deep_view()));
    }
}

/// Appends the canonical text of a loop to `out`.
fn write_loop(out: &mut String, loop_def: &Loop)
    ensures
        final(out)@ == old(out)@ + show_loop(loop_def.deep_view()),
{
    out.append("loop");
    out.push(' ');
    write_block(out, &loop_def.statements);
    proof {
        assert(out@ =~= old(out)@ + show_loop(loop_def.deep_view()));
    }
}

/// Appends the canonical text of the methods and the loops of a service to
/// `out`.
fn write_members(out: &mut String, service: &Service)
    ensures
        final(out)@ == old(out)@ + show_members(
            service.methods.deep_view(),
            service.loops.deep_view(),
        ),
{
    let ghost methods = service.methods.deep_view();
    let ghost loops = service.loops.deep_view();
    let ghost head = out@;
    let mut k: usize = 0;
    proof {
        assert(methods.skip(0) =~= methods);
    }
    while k < service.methods.len()
        invariant
            k <= service.methods.len(),
            methods == service.methods.deep_view(),
            out@ + show_members(methods.skip(k as int), loops) == head + show_members(
                methods,
                loops,
            ),
        decreases service.methods.len() - k,
    {
        let ghost before = out@;
        write_method(out, &service.methods[k]);
        proof {
            let rest = methods.skip(k as int);
            assert(rest[0] == service.methods[k as int].deep_view());
            assert(rest.drop_first() =~= methods.skip(k + 1));
            assert(out@ + show_members(methods.skip(k + 1), loops) =~= before + show_members(
                rest,
                loops,
            ));
        }
        k += 1;
    }
    let mut k: usize = 0;
    proof {
        assert(loops.skip(0) =~= loops);
    }
    while k < service.loops.len()
        invariant
            k <= service.loops.len(),
            loops == service.loops.deep_view(),
            out@ + show_loops(loops.skip(k as int)) == head + show_members(methods, loops),
        decreases service.loops.len() - k,
    {
        let ghost before = out@;
        write_loop(out, &service.loops[k]);
        proof {
            let rest = loops.skip(k as int);
            assert(rest[0] == service.loops[k as int].deep_view());
            assert(rest.drop_first() =~= loops.skip(k + 1));
            assert(out@ + show_loops(loops.skip(k + 1)) =~= before + show_loops(rest));
        }
        k += 1;
    }
    proof {
        assert(out@ + Seq::<char>::empty() =~= out@);
    }
}

/// Appends the canonical text of a service to `out`.
fn write_service(out: &mut String, service: &Service)
    ensures
        final(out)@ == old(out)@ + show_service(service.deep_view()),
{
    out.append("service");
    out.push(' ');
    out.append(service.name.as_str());
    out.push(' ');
    out.push('{');
    out.push('\n');
    write_members(out, service);
    out.push('}');
    out.push('\n');
    proof {
        assert(out@ =~= old(out)@ + show_service(service.deep_view()));
    }
}

impl Program {
    /// The canonical text of the program. Parsing it gives the program
    /// back.
    pub fn to_source(&self) -> (text: String)
        ensures
            text@ == show_program(self.deep_view()),
    {
        let mut out = String::new();
        let ghost list = self.services.deep_view();
        let mut k: usize = 0;
        proof {
            assert(list.skip(0) =~= list);
            assert(out@ + show_services(list) =~= show_services(list));
        }
        while k < self.services.len()
            invariant
                k <= self.services.len(),
                list == self.services.deep_view(),
                out@ + show_services(list.skip(k as int)) == show_services(list),
            decreases self.services.len() - k,
        {
            let ghost before = out@;
            write_service(&mut out, &self.services[k]);
            proof {
                let rest = list.skip(k as int);
                assert(rest[0] == self.services[k as int].deep_view());
                assert(rest.drop_first() =~= list.skip(k + 1));
                assert(out@ + show_services(list.skip(k + 1)) =~= before + show_services(rest));
            }
            k += 1;
        }
        proof {
            assert(out@ + Seq::<char>::empty() =~= out@);
        }
        out
    }
}

} // verus!
