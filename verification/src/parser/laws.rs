//! The law of the parser: a program that was parsed can be written down in
//! canonical form, and parsing that text gives the same program.

use crate::parser::Rule;
use crate::parser::canonical::show_program;
use crate::parser::grammar::{
    after_word, array_items, bare_statement, block, char_at, identifier, identifier_end,
    is_identifier_part, lemma_identifier_end_bounds, lemma_loop_def_advances,
    lemma_method_def_advances, lemma_quote_from, lemma_service_def_advances, lemma_skip_bounds,
    lemma_statement_advances, lemma_string_literal_advances, loop_def, members, method_def, program,
    quote_from, service_def, services, statement, statements, string_literal, token_from, word_at,
    Parsed,
};
use crate::parser::roundtrip::{
    lemma_parse_canonical, quote_free, valid_identifier, valid_method, valid_program, valid_service,
    valid_statement, valid_statements,
};
use vstd::prelude::*;

verus! {

/// The characters of a run of identifier characters are identifier
/// characters.
proof fn lemma_identifier_end_chars(t: Seq<char>, i: int)
    requires
        0 <= i <= t.len(),
    ensures
        forall|j: int| i <= j < identifier_end(t, i) ==> is_identifier_part(#[trigger] t[j]),
    decreases t.len() - i,
{
    if i < t.len() && is_identifier_part(t[i]) {
        lemma_identifier_end_chars(t, i + 1);
    }
}

/// What is read as an identifier is one.
pub proof fn lemma_identifier_valid(t: Seq<char>, p: int)
    ensures
        identifier(t, p) matches Parsed::Done(name, _) ==> valid_identifier(name),
{
    if let Parsed::Done(name, _) = identifier(t, p) {
        lemma_identifier_end_bounds(t, p + 1);
        lemma_identifier_end_chars(t, p + 1);
        assert(name[0] == t[p]);
        assert forall|i: int| 0 <= i < name.len() implies is_identifier_part(
            #[trigger] name[i],
        ) by {
            assert(name[i] == t[p + i]);
        }
    }
}

/// What is read as a string literal holds no `"`.
pub proof fn lemma_string_valid(t: Seq<char>, p: int)
    ensures
        string_literal(t, p) matches Parsed::Done(s, _) ==> quote_free(s),
{
    if let Parsed::Done(s, _) = string_literal(t, p) {
        lemma_quote_from(t, p + 1);
        let q = quote_from(t, p + 1)->0;
        assert forall|i: int| 0 <= i < s.len() implies #[trigger] s[i] != '"' by {
            assert(s[i] == t[p + 1 + i]);
        }
    }
}

/// The items that are read from an array literal hold no `"`.
pub proof fn lemma_array_items_valid(t: Seq<char>, p: int)
    ensures
        array_items(t, p) matches Parsed::Done(items, _) ==> forall|i: int|
            0 <= i < items.len() ==> quote_free(#[trigger] items[i]),
    decreases t.len() - p,
{
    lemma_string_valid(t, p);
    lemma_string_literal_advances(t, p);
    if let Parsed::Done(item, q) = string_literal(t, p) {
        if char_at(t, q, ',') {
            lemma_skip_bounds(t, q + 1, false);
            lemma_array_items_valid(t, token_from(t, q + 1));
        }
    }
}

/// What is read as a statement can be written down.
pub proof fn lemma_statement_valid(t: Seq<char>, p: int)
    ensures
        statement(t, p) matches Parsed::Done(s, _) ==> valid_statement(s),
        bare_statement(t, p) matches Parsed::Done(s, _) ==> valid_statement(s),
{
    let word = if word_at(t, p, "print"@) {
        "print"@
    } else if word_at(t, p, "stderr"@) {
        "stderr"@
    } else if word_at(t, p, "sleep"@) {
        "sleep"@
    } else {
        "call"@
    };
    let a = after_word(t, p, word);
    lemma_string_valid(t, a);
    lemma_identifier_valid(t, a);
    if let Parsed::Done(_, q) = string_literal(t, a) {
        let b = after_word(t, q, "with"@);
        lemma_array_items_valid(t, token_from(t, b + 1));
    }
    if let Parsed::Done(_, q) = identifier(t, a) {
        lemma_identifier_valid(t, token_from(t, q + 1));
    }
}

/// The statements that are read can be written down.
pub proof fn lemma_statements_valid(t: Seq<char>, p: int)
    ensures
        statements(t, p) matches Parsed::Done(list, _) ==> valid_statements(list),
    decreases t.len() - p,
{
    if !char_at(t, p, '}') {
        lemma_statement_valid(t, p);
        lemma_statement_advances(t, p);
        if let Parsed::Done(_, q) = statement(t, p) {
            lemma_statements_valid(t, q);
        }
    }
}

/// The statements that are read from a block can be written down.
pub proof fn lemma_block_valid(t: Seq<char>, p: int, rule: Rule)
    ensures
        block(t, p, rule) matches Parsed::Done(list, _) ==> valid_statements(list),
{
    lemma_statements_valid(t, token_from(t, p + 1));
}

/// The methods and the loops that are read can be written down.
pub proof fn lemma_members_valid(t: Seq<char>, p: int)
    ensures
        members(t, p) matches Parsed::Done(parts, _) ==> (forall|i: int|
            0 <= i < parts.0.len() ==> valid_method(#[trigger] parts.0[i])) && (forall|i: int|
            0 <= i < parts.1.len() ==> valid_statements(#[trigger] parts.1[i].statements)),
    decreases t.len() - p,
{
    if char_at(t, p, '}') {
    } else if word_at(t, p, "method"@) {
        let a = after_word(t, p, "method"@);
        lemma_skip_bounds(t, p + "method"@.len(), false);
        lemma_method_def_advances(t, a);
        lemma_identifier_valid(t, a);
        if let Parsed::Done(_, q) = identifier(t, a) {
            lemma_block_valid(t, q, Rule::method_def);
        }
        if let Parsed::Done(_, q) = method_def(t, a) {
            lemma_members_valid(t, q);
        }
    } else if word_at(t, p, "loop"@) {
        let a = after_word(t, p, "loop"@);
        lemma_skip_bounds(t, p + "loop"@.len(), false);
        lemma_loop_def_advances(t, a);
        lemma_block_valid(t, a, Rule::loop_def);
        if let Parsed::Done(_, q) = loop_def(t, a) {
            lemma_members_valid(t, q);
        }
    }
}

/// What is read as a service can be written down.
pub proof fn lemma_service_valid(t: Seq<char>, p: int)
    ensures
        service_def(t, p) matches Parsed::Done(s, _) ==> valid_service(s),
{
    lemma_identifier_valid(t, p);
    if let Parsed::Done(_, q) = identifier(t, p) {
        lemma_members_valid(t, token_from(t, q + 1));
    }
}

/// The services that are read can be written down.
pub proof fn lemma_services_valid(t: Seq<char>, p: int)
    ensures
        services(t, p) matches Parsed::Done(list, _) ==> forall|i: int|
            0 <= i < list.len() ==> valid_service(#[trigger] list[i]),
    decreases t.len() - p,
{
    if 0 <= p < t.len() && word_at(t, p, "service"@) {
        let a = after_word(t, p, "service"@);
        lemma_skip_bounds(t, p + "service"@.len(), false);
        lemma_service_def_advances(t, a);
        lemma_service_valid(t, a);
        if let Parsed::Done(_, q) = service_def(t, a) {
            lemma_services_valid(t, q);
        }
    }
}

/// Every program that the parser yields can be written down.
pub proof fn lemma_parsed_program_valid(t: Seq<char>)
    ensures
        program(t) matches Ok(p) ==> valid_program(p),
{
    lemma_services_valid(t, token_from(t, 0));
}

/// For every text that is a program, writing the parsed program down in
/// canonical form and parsing that text gives the same program.
pub proof fn lemma_reparse(t: Seq<char>)
    requires
        program(t) is Ok,
    ensures
        program(show_program(program(t)->Ok_0)) == program(t),
{
    lemma_parsed_program_valid(t);
    lemma_parse_canonical(program(t)->Ok_0);
}

} // verus!
