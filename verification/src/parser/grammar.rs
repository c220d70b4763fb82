//! The grammar of the language, as functions from a text and a position to
//! what stands at that position.
//!
//! ```text
//! program       <- service_def* EOI
//! service_def   <- "service" identifier "{" (method_def | loop_def)* "}"
//! method_def    <- "method" identifier "{" statement* "}"
//! loop_def      <- "loop" "{" statement* "}"
//! statement     <- (print_stmt | sleep_stmt | call_stmt) ";"?
//! print_stmt    <- ("print" | "stderr") string_literal ("with" array_literal)?
//! sleep_stmt    <- "sleep" number ("ms" | "s")
//! call_stmt     <- "call" identifier ("." identifier)?
//! array_literal <- "[" (string_literal ("," string_literal)*)? "]"
//! string_literal<- '"' (any character but '"')* '"'
//! identifier    <- (letter | "_") (letter | digit | "_")*
//! number        <- digit+
//! ```
//!
//! Blanks (space, tab, carriage return, line feed) and comments (from `//`
//! to the end of the line) may stand before the first token and after every
//! token. None is needed: a word of the language ends with its last letter,
//! so that `servicea{}` declares the service `a`, and `sleep 5 ms` is the
//! same as `sleep 5ms`. Each function here takes a position at which a token
//! starts and, on success, yields the position at which the next token
//! starts.

use crate::parser::Rule;
use vstd::prelude::*;

verus! {

/// Why a text is not a program.
pub enum SpecParseError {
    /// The text at `position` does not start what `expected` names.
    Unexpected { position: int, expected: Rule },
    /// A token is well formed, and what it says cannot be represented.
    InvalidInput(Seq<char>),
}

/// What reading the text at a position yields: a value and the position of
/// the next token, or the reason why there is no such value there.
pub enum Parsed<T> {
    Done(T, int),
    Failed(SpecParseError),
}

/// A statement of a method or a loop.
pub enum SpecStatement {
    Stdout { message: Seq<char>, args: Option<Seq<Seq<char>>> },
    Stderr { message: Seq<char>, args: Option<Seq<Seq<char>>> },
    Sleep { duration: u64 },
    Call { service: Option<Seq<char>>, method: Seq<char> },
}

/// A loop of a service.
pub struct SpecLoop {
    pub statements: Seq<SpecStatement>,
}

/// A method of a service.
pub struct SpecMethod {
    pub name: Seq<char>,
    pub statements: Seq<SpecStatement>,
}

/// A service: its name, its methods and its loops, each kind in the order
/// of the text.
pub struct SpecService {
    pub name: Seq<char>,
    pub methods: Seq<SpecMethod>,
    pub loops: Seq<SpecLoop>,
}

/// A program: its services in the order of the text.
pub struct SpecProgram {
    pub services: Seq<SpecService>,
}

/// `Unexpected` at position `p`.
pub open spec fn unexpected<T>(p: int, expected: Rule) -> Parsed<T> {
    Parsed::Failed(SpecParseError::Unexpected { position: p, expected })
}

/// Whether `c` is a blank.
pub open spec fn is_space(c: char) -> bool {
    c == ' ' || c == '\t' || c == '\r' || c == '\n'
}

/// Whether `c` is a decimal digit.
pub open spec fn is_digit(c: char) -> bool {
    '0' <= c <= '9'
}

/// Whether an identifier can start with `c`: a letter or `_`.
pub open spec fn is_identifier_start(c: char) -> bool {
    ('a' <= c <= 'z') || ('A' <= c <= 'Z') || c == '_'
}

/// Whether an identifier can go on with `c`: a letter, a digit or `_`.
pub open spec fn is_identifier_part(c: char) -> bool {
    is_identifier_start(c) || is_digit(c)
}

/// Whether the character `c` stands at position `p` of `t`.
pub open spec fn char_at(t: Seq<char>, p: int, c: char) -> bool {
    0 <= p < t.len() && t[p] == c
}

/// Whether the characters of `word` stand at position `p` of `t`.
pub open spec fn word_at(t: Seq<char>, p: int, word: Seq<char>) -> bool {
    0 <= p && p + word.len() <= t.len() && t.subrange(p, p + word.len()) == word
}

/// The first position at or after `p` that holds neither a blank nor a part
/// of a comment; `in_comment` says whether `p` lies inside a comment.
pub open spec fn skip(t: Seq<char>, p: int, in_comment: bool) -> int
    decreases t.len() - p,
{
    if p < 0 || p >= t.len() {
        p
    } else if in_comment {
        skip(t, p + 1, t[p] != '\n')
    } else if is_space(t[p]) {
        skip(t, p + 1, false)
    } else if char_at(t, p, '/') && char_at(t, p + 1, '/') {
        skip(t, p + 2, true)
    } else {
        p
    }
}

/// The position of the next token at or after `p`.
pub open spec fn token_from(t: Seq<char>, p: int) -> int {
    skip(t, p, false)
}

/// The position of the token after the word that stands at `p`.
pub open spec fn after_word(t: Seq<char>, p: int, word: Seq<char>) -> int {
    token_from(t, p + word.len())
}

/// The end of the longest run of identifier characters that starts at `p`.
pub open spec fn identifier_end(t: Seq<char>, p: int) -> int
    decreases t.len() - p,
{
    if 0 <= p < t.len() && is_identifier_part(t[p]) {
        identifier_end(t, p + 1)
    } else {
        p
    }
}

/// An identifier: the longest run of identifier characters at `p`, which
/// must not start with a digit.
pub open spec fn identifier(t: Seq<char>, p: int) -> Parsed<Seq<char>> {
    if 0 <= p < t.len() && is_identifier_start(t[p]) {
        Parsed::Done(
            t.subrange(p, identifier_end(t, p + 1)),
            token_from(t, identifier_end(t, p + 1)),
        )
    } else {
        unexpected(p, Rule::identifier)
    }
}

/// The position of the first `"` at or after `p`.
pub open spec fn quote_from(t: Seq<char>, p: int) -> Option<int>
    decreases t.len() - p,
{
    if p < 0 || p >= t.len() {
        None
    } else if t[p] == '"' {
        Some(p)
    } else {
        quote_from(t, p + 1)
    }
}

/// A string literal: the characters between a `"` and the next `"`, taken
/// as they are.
pub open spec fn string_literal(t: Seq<char>, p: int) -> Parsed<Seq<char>> {
    if char_at(t, p, '"') {
        match quote_from(t, p + 1) {
            Some(q) => Parsed::Done(t.subrange(p + 1, q), token_from(t, q + 1)),
            None => unexpected(p, Rule::string_literal),
        }
    } else {
        unexpected(p, Rule::string_literal)
    }
}

/// The end of the longest run of digits that starts at `p`.
pub open spec fn digits_end(t: Seq<char>, p: int) -> int
    decreases t.len() - p,
{
    if 0 <= p < t.len() && is_digit(t[p]) {
        digits_end(t, p + 1)
    } else {
        p
    }
}

/// The number that a run of digits is the decimal numeral of.
pub open spec fn digits_value(digits: Seq<char>) -> nat
    decreases digits.len(),
{
    if digits.len() == 0 {
        0
    } else {
        digits_value(digits.drop_last()) * 10 + (digits.last() as nat - '0' as nat) as nat
    }
}

/// A number: a run of digits whose value fits 64 bits.
pub open spec fn number(t: Seq<char>, p: int) -> Parsed<u64> {
    if 0 <= p < t.len() && is_digit(t[p]) {
        let digits = t.subrange(p, digits_end(t, p + 1));
        if digits_value(digits) <= u64::MAX {
            Parsed::Done(digits_value(digits) as u64, token_from(t, digits_end(t, p + 1)))
        } else {
            Parsed::Failed(SpecParseError::InvalidInput("Invalid number: "@ + digits))
        }
    } else {
        unexpected(p, Rule::number)
    }
}

/// A time value: a number and a unit. Yields the time in milliseconds,
/// reduced modulo 2^64.
pub open spec fn time_value(t: Seq<char>, p: int) -> Parsed<u64> {
    match number(t, p) {
        Parsed::Failed(e) => Parsed::Failed(e),
        Parsed::Done(n, q) => if word_at(t, q, "ms"@) {
            Parsed::Done(n, after_word(t, q, "ms"@))
        } else if word_at(t, q, "s"@) {
            Parsed::Done(n.wrapping_mul(1000), after_word(t, q, "s"@))
        } else {
            unexpected(q, Rule::time_unit)
        },
    }
}

/// The items of an array literal from the item at `p` on, up to and
/// including the closing bracket.
pub open spec fn array_items(t: Seq<char>, p: int) -> Parsed<Seq<Seq<char>>>
    decreases t.len() - p,
{
    match string_literal(t, p) {
        Parsed::Failed(e) => Parsed::Failed(e),
        Parsed::Done(item, q) => if char_at(t, q, ',') {
            proof {
                lemma_string_literal_advances(t, p);
                lemma_skip_bounds(t, q + 1, false);
            }
            match array_items(t, token_from(t, q + 1)) {
                Parsed::Failed(e) => Parsed::Failed(e),
                Parsed::Done(rest, r) => Parsed::Done(seq![item] + rest, r),
            }
        } else if char_at(t, q, ']') {
            Parsed::Done(seq![item], token_from(t, q + 1))
        } else {
            unexpected(q, Rule::array_literal)
        },
    }
}

/// An array literal: string literals in brackets, separated by commas.
pub open spec fn array_literal(t: Seq<char>, p: int) -> Parsed<Seq<Seq<char>>> {
    if char_at(t, p, '[') {
        if char_at(t, token_from(t, p + 1), ']') {
            Parsed::Done(Seq::<Seq<char>>::empty(), token_from(t, token_from(t, p + 1) + 1))
        } else {
            array_items(t, token_from(t, p + 1))
        }
    } else {
        unexpected(p, Rule::array_literal)
    }
}

/// The print statement with the given parts, for stdout or for stderr.
pub open spec fn print_of(stderr: bool, message: Seq<char>, args: Option<Seq<Seq<char>>>)
    -> SpecStatement {
    if stderr {
        SpecStatement::Stderr { message, args }
    } else {
        SpecStatement::Stdout { message, args }
    }
}

/// What follows the channel of a print statement: the message and, after
/// `with`, the arguments. An empty list of arguments is not the same as no
/// list.
pub open spec fn print_statement(t: Seq<char>, p: int, stderr: bool) -> Parsed<SpecStatement> {
    match string_literal(t, p) {
        Parsed::Failed(e) => Parsed::Failed(e),
        Parsed::Done(message, q) => if word_at(t, q, "with"@) {
            match array_literal(t, after_word(t, q, "with"@)) {
                Parsed::Failed(e) => Parsed::Failed(e),
                Parsed::Done(args, r) => Parsed::Done(print_of(stderr, message, Some(args)), r),
            }
        } else {
            Parsed::Done(print_of(stderr, message, None), q)
        },
    }
}

/// What follows `sleep`.
pub open spec fn sleep_statement(t: Seq<char>, p: int) -> Parsed<SpecStatement> {
    match time_value(t, p) {
        Parsed::Failed(e) => Parsed::Failed(e),
        Parsed::Done(duration, q) => Parsed::Done(SpecStatement::Sleep { duration }, q),
    }
}

/// What follows `call`: one identifier names a method of the same service,
/// two identifiers joined by a dot name a service and a method of it.
pub open spec fn call_statement(t: Seq<char>, p: int) -> Parsed<SpecStatement> {
    match identifier(t, p) {
        Parsed::Failed(e) => Parsed::Failed(e),
        Parsed::Done(first, q) => if char_at(t, q, '.') {
            match identifier(t, token_from(t, q + 1)) {
                Parsed::Failed(e) => Parsed::Failed(e),
                Parsed::Done(second, r) => Parsed::Done(
                    SpecStatement::Call { service: Some(first), method: second },
                    r,
                ),
            }
        } else {
            Parsed::Done(SpecStatement::Call { service: None, method: first }, q)
        },
    }
}

/// A statement without the semicolon that may follow it.
pub open spec fn bare_statement(t: Seq<char>, p: int) -> Parsed<SpecStatement> {
    if word_at(t, p, "print"@) {
        print_statement(t, after_word(t, p, "print"@), false)
    } else if word_at(t, p, "stderr"@) {
        print_statement(t, after_word(t, p, "stderr"@), true)
    } else if word_at(t, p, "sleep"@) {
        sleep_statement(t, after_word(t, p, "sleep"@))
    } else if word_at(t, p, "call"@) {
        call_statement(t, after_word(t, p, "call"@))
    } else {
        unexpected(p, Rule::statement)
    }
}

/// A statement, with the semicolon that may follow it.
pub open spec fn statement(t: Seq<char>, p: int) -> Parsed<SpecStatement> {
    match bare_statement(t, p) {
        Parsed::Failed(e) => Parsed::Failed(e),
        Parsed::Done(s, q) => if char_at(t, q, ';') {
            Parsed::Done(s, token_from(t, q + 1))
        } else {
            Parsed::Done(s, q)
        },
    }
}

/// The statements from position `p` up to a closing brace; yields the
/// position of that brace.
pub open spec fn statements(t: Seq<char>, p: int) -> Parsed<Seq<SpecStatement>>
    decreases t.len() - p,
{
    if char_at(t, p, '}') {
        Parsed::Done(Seq::<SpecStatement>::empty(), p)
    } else {
        match statement(t, p) {
            Parsed::Failed(e) => Parsed::Failed(e),
            Parsed::Done(s, q) => {
                proof {
                    lemma_statement_advances(t, p);
                }
                match statements(t, q) {
                    Parsed::Failed(e) => Parsed::Failed(e),
                    Parsed::Done(rest, r) => Parsed::Done(seq![s] + rest, r),
                }
            },
        }
    }
}

/// Statements in braces; `rule` names what the braces belong to.
pub open spec fn block(t: Seq<char>, p: int, rule: Rule) -> Parsed<Seq<SpecStatement>> {
    if char_at(t, p, '{') {
        match statements(t, token_from(t, p + 1)) {
            Parsed::Failed(e) => Parsed::Failed(e),
            Parsed::Done(body, q) => Parsed::Done(body, token_from(t, q + 1)),
        }
    } else {
        unexpected(p, rule)
    }
}

/// What follows `method`.
pub open spec fn method_def(t: Seq<char>, p: int) -> Parsed<SpecMethod> {
    match identifier(t, p) {
        Parsed::Failed(e) => Parsed::Failed(e),
        Parsed::Done(name, q) => match block(t, q, Rule::method_def) {
            Parsed::Failed(e) => Parsed::Failed(e),
            Parsed::Done(statements, r) => Parsed::Done(SpecMethod { name, statements }, r),
        },
    }
}

/// What follows `loop`.
pub open spec fn loop_def(t: Seq<char>, p: int) -> Parsed<SpecLoop> {
    match block(t, p, Rule::loop_def) {
        Parsed::Failed(e) => Parsed::Failed(e),
        Parsed::Done(statements, r) => Parsed::Done(SpecLoop { statements }, r),
    }
}

/// The methods and the loops from position `p` up to a closing brace, each
/// kind in the order of the text; yields the position of that brace.
pub open spec fn members(t: Seq<char>, p: int) -> Parsed<(Seq<SpecMethod>, Seq<SpecLoop>)>
    decreases t.len() - p,
{
    if char_at(t, p, '}') {
        Parsed::Done((Seq::<SpecMethod>::empty(), Seq::<SpecLoop>::empty()), p)
    } else if word_at(t, p, "method"@) {
        match method_def(t, after_word(t, p, "method"@)) {
            Parsed::Failed(e) => Parsed::Failed(e),
            Parsed::Done(m, q) => {
                proof {
                    lemma_method_def_advances(t, after_word(t, p, "method"@));
                    lemma_skip_bounds(t, p + "method"@.len(), false);
                }
                match members(t, q) {
                    Parsed::Failed(e) => Parsed::Failed(e),
                    Parsed::Done(rest, r) => Parsed::Done((seq![m] + rest.0, rest.1), r),
                }
            },
        }
    } else if word_at(t, p, "loop"@) {
        match loop_def(t, after_word(t, p, "loop"@)) {
            Parsed::Failed(e) => Parsed::Failed(e),
            Parsed::Done(l, q) => {
                proof {
                    lemma_loop_def_advances(t, after_word(t, p, "loop"@));
                    lemma_skip_bounds(t, p + "loop"@.len(), false);
                }
                match members(t, q) {
                    Parsed::Failed(e) => Parsed::Failed(e),
                    Parsed::Done(rest, r) => Parsed::Done((rest.0, seq![l] + rest.1), r),
                }
            },
        }
    } else {
        unexpected(p, Rule::service_def)
    }
}

/// What follows `service`.
pub open spec fn service_def(t: Seq<char>, p: int) -> Parsed<SpecService> {
    match identifier(t, p) {
        Parsed::Failed(e) => Parsed::Failed(e),
        Parsed::Done(name, q) => if char_at(t, q, '{') {
            match members(t, token_from(t, q + 1)) {
                Parsed::Failed(e) => Parsed::Failed(e),
                Parsed::Done(parts, r) => Parsed::Done(
                    SpecService { name, methods: parts.0, loops: parts.1 },
                    token_from(t, r + 1),
                ),
            }
        } else {
            unexpected(q, Rule::service_def)
        },
    }
}

/// The services from position `p` to the end of the text.
pub open spec fn services(t: Seq<char>, p: int) -> Parsed<Seq<SpecService>>
    decreases t.len() - p,
{
    if p < 0 || p >= t.len() {
        Parsed::Done(Seq::<SpecService>::empty(), p)
    } else if word_at(t, p, "service"@) {
        match service_def(t, after_word(t, p, "service"@)) {
            Parsed::Failed(e) => Parsed::Failed(e),
            Parsed::Done(s, q) => {
                proof {
                    lemma_service_def_advances(t, after_word(t, p, "service"@));
                    lemma_skip_bounds(t, p + "service"@.len(), false);
                }
                match services(t, q) {
                    Parsed::Failed(e) => Parsed::Failed(e),
                    Parsed::Done(rest, r) => Parsed::Done(seq![s] + rest, r),
                }
            },
        }
    } else {
        unexpected(p, Rule::EOI)
    }
}

/// The program that a text denotes, or the reason why it denotes none.
pub open spec fn program(t: Seq<char>) -> Result<SpecProgram, SpecParseError> {
    match services(t, token_from(t, 0)) {
        Parsed::Failed(e) => Err(e),
        Parsed::Done(services, _) => Ok(SpecProgram { services }),
    }
}

/// Skipping blanks and comments moves forward and stays inside the text.
pub proof fn lemma_skip_bounds(t: Seq<char>, p: int, in_comment: bool)
    ensures
        0 <= p <= t.len() ==> p <= skip(t, p, in_comment) <= t.len(),
        p <= skip(t, p, in_comment) || p < 0,
    decreases t.len() - p,
{
    if p < 0 || p >= t.len() {
    } else if in_comment {
        lemma_skip_bounds(t, p + 1, t[p] != '\n');
    } else if is_space(t[p]) {
        lemma_skip_bounds(t, p + 1, false);
    } else if char_at(t, p, '/') && char_at(t, p + 1, '/') {
        lemma_skip_bounds(t, p + 2, true);
    } else {
    }
}

/// A run of identifier characters ends at or after its start, inside the
/// text.
pub proof fn lemma_identifier_end_bounds(t: Seq<char>, p: int)
    requires
        0 <= p <= t.len(),
    ensures
        p <= identifier_end(t, p) <= t.len(),
    decreases t.len() - p,
{
    if p < t.len() && is_identifier_part(t[p]) {
        lemma_identifier_end_bounds(t, p + 1);
    }
}

/// A run of digits ends at or after its start, inside the text.
pub proof fn lemma_digits_end_bounds(t: Seq<char>, p: int)
    requires
        0 <= p <= t.len(),
    ensures
        p <= digits_end(t, p) <= t.len(),
    decreases t.len() - p,
{
    if p < t.len() && is_digit(t[p]) {
        lemma_digits_end_bounds(t, p + 1);
    }
}

/// The first quote from `p` on stands at or after `p`, and no quote stands
/// between.
pub proof fn lemma_quote_from(t: Seq<char>, p: int)
    requires
        0 <= p,
    ensures
        quote_from(t, p) matches Some(q) ==> p <= q < t.len() && t[q] == '"' && forall|i: int|
            p <= i < q ==> t[i] != '"',
        quote_from(t, p) is None ==> forall|i: int| p <= i < t.len() ==> t[i] != '"',
    decreases t.len() - p,
{
    if p >= t.len() {
    } else if t[p] == '"' {
    } else {
        lemma_quote_from(t, p + 1);
    }
}

/// An identifier, where there is one, ends after its start and inside the
/// text.
pub proof fn lemma_identifier_advances(t: Seq<char>, p: int)
    ensures
        identifier(t, p) matches Parsed::Done(_, q) ==> 0 <= p < q <= t.len(),
{
    if 0 <= p < t.len() && is_identifier_start(t[p]) {
        lemma_identifier_end_bounds(t, p + 1);
        lemma_skip_bounds(t, identifier_end(t, p + 1), false);
    }
}

/// A string literal, where there is one, ends after its start and inside
/// the text.
pub proof fn lemma_string_literal_advances(t: Seq<char>, p: int)
    ensures
        string_literal(t, p) matches Parsed::Done(_, q) ==> 0 <= p < q <= t.len(),
{
    if char_at(t, p, '"') {
        lemma_quote_from(t, p + 1);
        match quote_from(t, p + 1) {
            Some(q) => {
                lemma_skip_bounds(t, q + 1, false);
            },
            None => {},
        }
    }
}

/// A number, where there is one, ends after its start and inside the text.
pub proof fn lemma_number_advances(t: Seq<char>, p: int)
    ensures
        number(t, p) matches Parsed::Done(_, q) ==> 0 <= p < q <= t.len(),
{
    if 0 <= p < t.len() && is_digit(t[p]) {
        lemma_digits_end_bounds(t, p + 1);
        lemma_skip_bounds(t, digits_end(t, p + 1), false);
    }
}

/// The items of an array literal end after their start and inside the text.
pub proof fn lemma_array_items_advance(t: Seq<char>, p: int)
    ensures
        array_items(t, p) matches Parsed::Done(_, q) ==> 0 <= p < q <= t.len(),
    decreases t.len() - p,
{
    lemma_string_literal_advances(t, p);
    match string_literal(t, p) {
        Parsed::Failed(e) => {},
        Parsed::Done(item, q) => {
            lemma_skip_bounds(t, q + 1, false);
            if char_at(t, q, ',') {
                lemma_array_items_advance(t, token_from(t, q + 1));
            }
        },
    }
}

/// A statement, where there is one, ends after its start and inside the
/// text.
pub proof fn lemma_statement_advances(t: Seq<char>, p: int)
    ensures
        statement(t, p) matches Parsed::Done(_, q) ==> 0 <= p < q <= t.len(),
        bare_statement(t, p) matches Parsed::Done(_, q) ==> 0 <= p < q <= t.len(),
{
    let word = if word_at(t, p, "print"@) {
        "print"@
    } else if word_at(t, p, "stderr"@) {
        "stderr"@
    } else if word_at(t, p, "sleep"@) {
        "sleep"@
    } else {
        "call"@
    };
    if word_at(t, p, word) {
        let a = after_word(t, p, word);
        lemma_skip_bounds(t, p + word.len(), false);
        lemma_string_literal_advances(t, a);
        lemma_number_advances(t, a);
        lemma_identifier_advances(t, a);
        match string_literal(t, a) {
            Parsed::Done(_, q) => {
                lemma_skip_bounds(t, q + "with"@.len(), false);
                let b = after_word(t, q, "with"@);
                if char_at(t, b, '[') {
                    lemma_skip_bounds(t, b + 1, false);
                    lemma_skip_bounds(t, token_from(t, b + 1) + 1, false);
                    lemma_array_items_advance(t, token_from(t, b + 1));
                }
            },
            _ => {},
        }
        match number(t, a) {
            Parsed::Done(_, q) => {
                lemma_skip_bounds(t, q + "ms"@.len(), false);
                lemma_skip_bounds(t, q + "s"@.len(), false);
            },
            _ => {},
        }
        match identifier(t, a) {
            Parsed::Done(_, q) => {
                lemma_skip_bounds(t, q + 1, false);
                lemma_identifier_advances(t, token_from(t, q + 1));
            },
            _ => {},
        }
        match bare_statement(t, p) {
            Parsed::Done(_, q) => {
                lemma_skip_bounds(t, q + 1, false);
            },
            _ => {},
        }
    }
}

/// A run of statements ends at a closing brace, at or after its start.
pub proof fn lemma_statements_end(t: Seq<char>, p: int)
    ensures
        statements(t, p) matches Parsed::Done(_, q) ==> 0 <= p <= q < t.len() && t[q] == '}',
    decreases t.len() - p,
{
    if char_at(t, p, '}') {
    } else {
        lemma_statement_advances(t, p);
        match statement(t, p) {
            Parsed::Done(_, q) => {
                lemma_statements_end(t, q);
            },
            _ => {},
        }
    }
}

/// A block, where there is one, ends after its start and inside the text.
pub proof fn lemma_block_advances(t: Seq<char>, p: int, rule: Rule)
    ensures
        block(t, p, rule) matches Parsed::Done(_, q) ==> 0 <= p < q <= t.len(),
{
    if char_at(t, p, '{') {
        lemma_skip_bounds(t, p + 1, false);
        lemma_statements_end(t, token_from(t, p + 1));
        match statements(t, token_from(t, p + 1)) {
            Parsed::Done(_, q) => {
                lemma_skip_bounds(t, q + 1, false);
            },
            _ => {},
        }
    }
}

/// A method, where there is one, ends after its start and inside the text.
pub proof fn lemma_method_def_advances(t: Seq<char>, p: int)
    ensures
        method_def(t, p) matches Parsed::Done(_, q) ==> 0 <= p < q <= t.len(),
{
    lemma_identifier_advances(t, p);
    match identifier(t, p) {
        Parsed::Done(_, q) => {
            lemma_block_advances(t, q, Rule::method_def);
        },
        _ => {},
    }
}

/// A loop, where there is one, ends after its start and inside the text.
pub proof fn lemma_loop_def_advances(t: Seq<char>, p: int)
    ensures
        loop_def(t, p) matches Parsed::Done(_, q) ==> 0 <= p < q <= t.len(),
{
    lemma_block_advances(t, p, Rule::loop_def);
}

/// A run of members ends at a closing brace, at or after its start.
pub proof fn lemma_members_end(t: Seq<char>, p: int)
    ensures
        members(t, p) matches Parsed::Done(_, q) ==> 0 <= p <= q < t.len() && t[q] == '}',
    decreases t.len() - p,
{
    if char_at(t, p, '}') {
    } else if word_at(t, p, "method"@) {
        lemma_skip_bounds(t, p + "method"@.len(), false);
        lemma_method_def_advances(t, after_word(t, p, "method"@));
        match method_def(t, after_word(t, p, "method"@)) {
            Parsed::Done(_, q) => {
                lemma_members_end(t, q);
            },
            _ => {},
        }
    } else if word_at(t, p, "loop"@) {
        lemma_skip_bounds(t, p + "loop"@.len(), false);
        lemma_loop_def_advances(t, after_word(t, p, "loop"@));
        match loop_def(t, after_word(t, p, "loop"@)) {
            Parsed::Done(_, q) => {
                lemma_members_end(t, q);
            },
            _ => {},
        }
    }
}

/// A service, where there is one, ends after its start and inside the text.
pub proof fn lemma_service_def_advances(t: Seq<char>, p: int)
    ensures
        service_def(t, p) matches Parsed::Done(_, q) ==> 0 <= p < q <= t.len(),
{
    lemma_identifier_advances(t, p);
    match identifier(t, p) {
        Parsed::Done(_, q) => {
            if char_at(t, q, '{') {
                lemma_skip_bounds(t, q + 1, false);
                lemma_members_end(t, token_from(t, q + 1));
                match members(t, token_from(t, q + 1)) {
                    Parsed::Done(_, r) => {
                        lemma_skip_bounds(t, r + 1, false);
                    },
                    _ => {},
                }
            }
        },
        _ => {},
    }
}

} // verus!
