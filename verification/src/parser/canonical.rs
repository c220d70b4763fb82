//! The canonical text of a program: one text for each syntax tree, which
//! the parser reads back as that tree.
//!
//! ```text
//! service frontend {
//! method main_page {
//! print "Main page %s" with ["a", "b"];
//! sleep 500ms;
//! call products.get_products;
//! }
//! loop {
//! call main_page;
//! }
//! }
//! ```
//!
//! The methods of a service come before its loops; a time is given in
//! milliseconds; every statement ends with a semicolon.

use crate::parser::grammar::{SpecLoop, SpecMethod, SpecProgram, SpecService, SpecStatement};
use crate::text::decimal_digits;
use vstd::prelude::*;

verus! {

/// A string literal for `s`.
pub open spec fn show_string(s: Seq<char>) -> Seq<char> {
    seq!['"'] + s + seq!['"']
}

/// String literals for the items, separated by a comma and a space.
pub open spec fn show_items(items: Seq<Seq<char>>) -> Seq<char>
    decreases items.len(),
{
    if items.len() == 0 {
        Seq::<char>::empty()
    } else if items.len() == 1 {
        show_string(items[0])
    } else {
        show_string(items[0]) + (seq![',', ' '] + show_items(items.drop_first()))
    }
}

/// An array literal for the items.
pub open spec fn show_array(items: Seq<Seq<char>>) -> Seq<char> {
    seq!['['] + (show_items(items) + seq![']'])
}

/// The message of a print statement and, where it has arguments, their
/// list.
pub open spec fn show_print(message: Seq<char>, args: Option<Seq<Seq<char>>>) -> Seq<char> {
    match args {
        Some(items) => show_string(message) + (seq![' '] + ("with"@ + (seq![' '] + show_array(
            items,
        )))),
        None => show_string(message),
    }
}

/// A statement without its semicolon.
pub open spec fn show_bare_statement(s: SpecStatement) -> Seq<char> {
    match s {
        SpecStatement::Stdout { message, args } => "print"@ + (seq![' '] + show_print(
            message,
            args,
        )),
        SpecStatement::Stderr { message, args } => "stderr"@ + (seq![' '] + show_print(
            message,
            args,
        )),
        SpecStatement::Sleep { duration } => "sleep"@ + (seq![' '] + (decimal_digits(
            duration as nat,
        ) + "ms"@)),
        SpecStatement::Call { service: None, method } => "call"@ + (seq![' '] + method),
        SpecStatement::Call { service: Some(service), method } => "call"@ + (seq![' '] + (service
            + (seq!['.'] + method))),
    }
}

/// A statement on a line of its own.
pub open spec fn show_statement(s: SpecStatement) -> Seq<char> {
    show_bare_statement(s) + seq![';', '\n']
}

/// The statements, one after the other.
pub open spec fn show_statements(statements: Seq<SpecStatement>) -> Seq<char>
    decreases statements.len(),
{
    if statements.len() == 0 {
        Seq::<char>::empty()
    } else {
        show_statement(statements[0]) + show_statements(statements.drop_first())
    }
}

/// Statements in braces.
pub open spec fn show_block(statements: Seq<SpecStatement>) -> Seq<char> {
    seq!['{', '\n'] + (show_statements(statements) + seq!['}', '\n'])
}

/// A method: the word, the name and the statements in braces.
pub open spec fn show_method(m: SpecMethod) -> Seq<char> {
    "method"@ + (seq![' '] + (m.name + (seq![' '] + show_block(m.statements))))
}

/// A loop: the word and the statements in braces.
pub open spec fn show_loop(l: SpecLoop) -> Seq<char> {
    "loop"@ + (seq![' '] + show_block(l.statements))
}

/// The loops, one after the other.
pub open spec fn show_loops(loops: Seq<SpecLoop>) -> Seq<char>
    decreases loops.len(),
{
    if loops.len() == 0 {
        Seq::<char>::empty()
    } else {
        show_loop(loops[0]) + show_loops(loops.drop_first())
    }
}

/// The methods of a service, and behind them its loops.
pub open spec fn show_members(methods: Seq<SpecMethod>, loops: Seq<SpecLoop>) -> Seq<char>
    decreases methods.len(),
{
    if methods.len() == 0 {
        show_loops(loops)
    } else {
        show_method(methods[0]) + show_members(methods.drop_first(), loops)
    }
}

/// A service: the word, the name and the members in braces.
pub open spec fn show_service(s: SpecService) -> Seq<char> {
    "service"@ + (seq![' '] + (s.name + (seq![' ', '{', '\n'] + (show_members(s.methods, s.loops)
        + seq!['}', '\n']))))
}

/// The services, one after the other.
pub open spec fn show_services(services: Seq<SpecService>) -> Seq<char>
    decreases services.len(),
{
    if services.len() == 0 {
        Seq::<char>::empty()
    } else {
        show_service(services[0]) + show_services(services.drop_first())
    }
}

/// The canonical text of a program.
pub open spec fn show_program(p: SpecProgram) -> Seq<char> {
    show_services(p.services)
}

} // verus!
