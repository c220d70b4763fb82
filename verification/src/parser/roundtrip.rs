//! Parsing the canonical text of a program gives the program back.

use crate::parser::Rule;
use crate::parser::canonical::{
    show_array, show_bare_statement, show_block, show_items, show_loop, show_loops, show_members,
    show_method, show_print, show_program, show_service, show_services, show_statement,
    show_statements, show_string,
};
use crate::parser::grammar::{
    after_word, array_items, array_literal, bare_statement, block, char_at, digits_end,
    digits_value, identifier, identifier_end, is_digit, is_identifier_part, is_identifier_start,
    is_space, loop_def, members, method_def, number, print_of, print_statement, program, quote_from,
    service_def, services, statement, statements, string_literal, time_value, token_from, word_at,
    Parsed, SpecLoop, SpecMethod, SpecParseError, SpecProgram, SpecService, SpecStatement,
};
use crate::text::{decimal_digits, digit_char};
use vstd::prelude::*;

verus! {

/// Whether a token can start with `c`: it is no blank and starts no
/// comment.
pub open spec fn token_char(c: char) -> bool {
    !is_space(c) && c != '/'
}

/// Whether position `q` of `t` is the end of the text or the start of a
/// token.
pub open spec fn follow(t: Seq<char>, q: int) -> bool {
    q == t.len() || (0 <= q < t.len() && token_char(t[q]))
}

/// Whether `name` is an identifier.
pub open spec fn valid_identifier(name: Seq<char>) -> bool {
    name.len() > 0 && is_identifier_start(name[0]) && forall|i: int|
        0 <= i < name.len() ==> is_identifier_part(#[trigger] name[i])
}

/// Whether `s` can stand in a string literal: it holds no `"`.
pub open spec fn quote_free(s: Seq<char>) -> bool {
    forall|i: int| 0 <= i < s.len() ==> #[trigger] s[i] != '"'
}

/// A text holds `a + b` at `p` exactly if it holds `a` at `p` and `b` just
/// behind it.
pub proof fn lemma_word_split(t: Seq<char>, p: int, a: Seq<char>, b: Seq<char>)
    ensures
        word_at(t, p, a + b) <==> word_at(t, p, a) && word_at(t, p + a.len(), b),
{
    if word_at(t, p, a + b) {
        let whole = t.subrange(p, p + (a + b).len());
        assert(t.subrange(p, p + a.len()) =~= whole.subrange(0, a.len() as int));
        assert((a + b).subrange(0, a.len() as int) =~= a);
        assert(t.subrange(p + a.len(), p + a.len() + b.len()) =~= whole.subrange(
            a.len() as int,
            (a + b).len() as int,
        ));
        assert((a + b).subrange(a.len() as int, (a + b).len() as int) =~= b);
    }
    if word_at(t, p, a) && word_at(t, p + a.len(), b) {
        assert(t.subrange(p, p + (a + b).len()) =~= t.subrange(p, p + a.len()) + t.subrange(
            p + a.len(),
            p + a.len() + b.len(),
        ));
    }
}

/// The characters of a word that a text holds are characters of the text.
pub proof fn lemma_word_chars(t: Seq<char>, p: int, word: Seq<char>)
    requires
        word_at(t, p, word),
    ensures
        forall|i: int| 0 <= i < word.len() ==> t[p + i] == #[trigger] word[i],
{
    assert forall|i: int| 0 <= i < word.len() implies t[p + i] == #[trigger] word[i] by {
        assert(t.subrange(p, p + word.len())[i] == t[p + i]);
    }
}

/// The first characters of a word that a text holds stand in the text.
pub proof fn lemma_word_first(t: Seq<char>, p: int, word: Seq<char>)
    requires
        word_at(t, p, word),
    ensures
        word.len() > 0 ==> 0 <= p < t.len() && t[p] == word[0],
        word.len() > 1 ==> t[p + 1] == word[1],
{
    lemma_word_chars(t, p, word);
    if word.len() > 0 {
        assert(t[p + 0] == word[0]);
    }
    if word.len() > 1 {
        assert(t[p + 1] == word[1]);
    }
}

/// A token that starts at `q` is the next token from `q`.
pub proof fn lemma_token_here(t: Seq<char>, q: int)
    requires
        follow(t, q),
    ensures
        token_from(t, q) == q,
{
}

/// A token that starts behind the blank at `q` is the next token from `q`.
pub proof fn lemma_token_after_blank(t: Seq<char>, q: int)
    requires
        0 <= q < t.len(),
        is_space(t[q]),
        follow(t, q + 1),
    ensures
        token_from(t, q) == q + 1,
{
    lemma_token_here(t, q + 1);
}

/// A run of identifier characters that ends at `e` is read up to `e`.
proof fn lemma_identifier_run(t: Seq<char>, i: int, e: int)
    requires
        0 <= i <= e <= t.len(),
        forall|j: int| i <= j < e ==> is_identifier_part(#[trigger] t[j]),
        e == t.len() || !is_identifier_part(t[e]),
    ensures
        identifier_end(t, i) == e,
    decreases e - i,
{
    if i < e {
        lemma_identifier_run(t, i + 1, e);
    }
}

/// An identifier that the text holds at `p`, followed by something else,
/// is read as that identifier.
pub proof fn lemma_read_identifier(t: Seq<char>, p: int, name: Seq<char>)
    requires
        valid_identifier(name),
        word_at(t, p, name),
        p + name.len() == t.len() || !is_identifier_part(t[p + name.len()]),
    ensures
        identifier(t, p) == Parsed::Done(name, token_from(t, p + name.len())),
{
    lemma_word_chars(t, p, name);
    assert(t[p + 0] == name[0]);
    assert forall|j: int| p + 1 <= j < p + name.len() implies is_identifier_part(
        #[trigger] t[j],
    ) by {
        assert(t[p + (j - p)] == name[j - p]);
    }
    lemma_identifier_run(t, p + 1, p + name.len());
}

/// The first quote from `i` on is the one at `e`, if none stands between.
proof fn lemma_quote_scan(t: Seq<char>, i: int, e: int)
    requires
        0 <= i <= e < t.len(),
        forall|j: int| i <= j < e ==> #[trigger] t[j] != '"',
        t[e] == '"',
    ensures
        quote_from(t, i) == Some(e),
    decreases e - i,
{
    if i < e {
        lemma_quote_scan(t, i + 1, e);
    }
}

/// A string literal that the text holds at `p` is read as its content.
pub proof fn lemma_read_string(t: Seq<char>, p: int, s: Seq<char>)
    requires
        quote_free(s),
        word_at(t, p, show_string(s)),
    ensures
        string_literal(t, p) == Parsed::Done(s, token_from(t, p + s.len() + 2)),
        show_string(s).len() == s.len() + 2,
{
    let lit = show_string(s);
    lemma_word_chars(t, p, lit);
    assert(t[p + 0] == lit[0]);
    assert(t[p + (s.len() + 1)] == lit[s.len() as int + 1]);
    assert forall|j: int| p + 1 <= j < p + 1 + s.len() implies #[trigger] t[j] != '"' by {
        assert(t[p + (j - p)] == lit[j - p]);
        assert(lit[j - p] == s[j - p - 1]);
    }
    lemma_quote_scan(t, p + 1, p + 1 + s.len());
    assert forall|k: int| 0 <= k < s.len() implies t.subrange(p + 1, p + 1 + s.len())[k]
        == s[k] by {
        assert(t[p + (k + 1)] == lit[k + 1]);
    }
    assert(t.subrange(p + 1, p + 1 + s.len()) =~= s);
}

/// A run of digits that ends at `e` is read up to `e`.
proof fn lemma_digits_run(t: Seq<char>, i: int, e: int)
    requires
        0 <= i <= e <= t.len(),
        forall|j: int| i <= j < e ==> is_digit(#[trigger] t[j]),
        e == t.len() || !is_digit(t[e]),
    ensures
        digits_end(t, i) == e,
    decreases e - i,
{
    if i < e {
        lemma_digits_run(t, i + 1, e);
    }
}

/// A decimal numeral is a run of at least one digit whose value is the
/// number.
pub proof fn lemma_decimal_digits(n: nat)
    ensures
        decimal_digits(n).len() >= 1,
        forall|i: int| 0 <= i < decimal_digits(n).len() ==> is_digit(#[trigger] decimal_digits(n)[i]),
        digits_value(decimal_digits(n)) == n,
    decreases n,
{
    if n < 10 {
        let d = decimal_digits(n);
        assert(d.drop_last() =~= Seq::<char>::empty());
        assert(digits_value(d) == digits_value(d.drop_last()) * 10 + (d.last() as nat - '0' as nat));
    } else {
        lemma_decimal_digits(n / 10);
        let d = decimal_digits(n);
        assert(d.drop_last() =~= decimal_digits(n / 10));
        assert(d.last() == digit_char(n % 10));
    }
}

/// A decimal numeral that the text holds at `p`, followed by something
/// else, is read as its number.
pub proof fn lemma_read_number(t: Seq<char>, p: int, n: u64)
    requires
        word_at(t, p, decimal_digits(n as nat)),
        p + decimal_digits(n as nat).len() == t.len() || !is_digit(
            t[p + decimal_digits(n as nat).len()],
        ),
    ensures
        number(t, p) == Parsed::Done(n, token_from(t, p + decimal_digits(n as nat).len())),
{
    let d = decimal_digits(n as nat);
    lemma_decimal_digits(n as nat);
    lemma_word_chars(t, p, d);
    assert(t[p + 0] == d[0]);
    assert forall|j: int| p + 1 <= j < p + d.len() implies is_digit(#[trigger] t[j]) by {
        assert(t[p + (j - p)] == d[j - p]);
    }
    lemma_digits_run(t, p + 1, p + d.len());
}

/// Whether the parts of a statement can be written down: its texts hold no
/// `"`, its names are identifiers.
pub open spec fn valid_statement(s: SpecStatement) -> bool {
    match s {
        SpecStatement::Stdout { message, args } => quote_free(message) && (args matches Some(
            items,
        ) ==> forall|i: int| 0 <= i < items.len() ==> quote_free(#[trigger] items[i])),
        SpecStatement::Stderr { message, args } => quote_free(message) && (args matches Some(
            items,
        ) ==> forall|i: int| 0 <= i < items.len() ==> quote_free(#[trigger] items[i])),
        SpecStatement::Sleep { duration } => true,
        SpecStatement::Call { service, method } => valid_identifier(method) && (service matches Some(
            name,
        ) ==> valid_identifier(name)),
    }
}

/// Whether each of the statements can be written down.
pub open spec fn valid_statements(statements: Seq<SpecStatement>) -> bool {
    forall|i: int| 0 <= i < statements.len() ==> valid_statement(#[trigger] statements[i])
}

/// Whether a method can be written down.
pub open spec fn valid_method(m: SpecMethod) -> bool {
    valid_identifier(m.name) && valid_statements(m.statements)
}

/// Whether a service can be written down.
pub open spec fn valid_service(s: SpecService) -> bool {
    &&& valid_identifier(s.name)
    &&& forall|i: int| 0 <= i < s.methods.len() ==> valid_method(#[trigger] s.methods[i])
    &&& forall|i: int| 0 <= i < s.loops.len() ==> valid_statements(#[trigger] s.loops[i].statements)
}

/// Whether a program can be written down; every program that was parsed
/// can.
pub open spec fn valid_program(p: SpecProgram) -> bool {
    forall|i: int| 0 <= i < p.services.len() ==> valid_service(#[trigger] p.services[i])
}

/// How long the words of the language are, and how they start.
pub proof fn lemma_words()
    ensures
        "print"@.len() == 5 && "print"@[0] == 'p',
        "stderr"@.len() == 6 && "stderr"@[0] == 's' && "stderr"@[1] == 't',
        "sleep"@.len() == 5 && "sleep"@[0] == 's' && "sleep"@[1] == 'l',
        "call"@.len() == 4 && "call"@[0] == 'c',
        "with"@.len() == 4 && "with"@[0] == 'w',
        "ms"@.len() == 2 && "ms"@[0] == 'm',
        "method"@.len() == 6 && "method"@[0] == 'm',
        "loop"@.len() == 4 && "loop"@[0] == 'l',
        "service"@.len() == 7 && "service"@[0] == 's',
{
    reveal_strlit("print");
    reveal_strlit("stderr");
    reveal_strlit("sleep");
    reveal_strlit("call");
    reveal_strlit("with");
    reveal_strlit("ms");
    reveal_strlit("method");
    reveal_strlit("loop");
    reveal_strlit("service");
}

/// The items of an array literal that the text holds at `p`, with the
/// closing bracket, are read as those items.
#[verifier::spinoff_prover]
pub proof fn lemma_read_items(t: Seq<char>, p: int, items: Seq<Seq<char>>)
    requires
        items.len() >= 1,
        forall|i: int| 0 <= i < items.len() ==> quote_free(#[trigger] items[i]),
        word_at(t, p, show_items(items) + seq![']']),
        follow(t, p + show_items(items).len() + 1),
    ensures
        array_items(t, p) == Parsed::Done(items, p + show_items(items).len() + 1),
    decreases items.len(),
{
    let first = items[0];
    let lit = show_string(first);
    let close = seq![']'];
    let q = p + lit.len();
    if items.len() == 1 {
        lemma_word_split(t, p, lit, close);
        lemma_read_string(t, p, first);
        lemma_word_first(t, q, close);
        lemma_token_here(t, q);
        lemma_token_here(t, q + 1);
        assert(seq![first] =~= items);
    } else {
        let rest = items.drop_first();
        let comma = seq![',', ' '];
        let inner = show_items(rest) + close;
        assert(show_items(items) + close =~= lit + (comma + inner));
        lemma_word_split(t, p, lit, comma + inner);
        lemma_read_string(t, p, first);
        lemma_word_split(t, q, comma, inner);
        lemma_word_first(t, q, comma);
        lemma_word_first(t, q + 2, inner);
        assert(show_string(rest[0])[0] == '"');
        assert(inner[0] == '"');
        lemma_token_here(t, q);
        lemma_token_after_blank(t, q + 1);
        assert forall|i: int| 0 <= i < rest.len() implies quote_free(#[trigger] rest[i]) by {
            assert(rest[i] == items[i + 1]);
        }
        lemma_read_items(t, q + 2, rest);
        assert(seq![first] + rest =~= items);
    }
}

/// An array literal that the text holds at `p` is read as its items.
#[verifier::spinoff_prover]
pub proof fn lemma_read_array(t: Seq<char>, p: int, items: Seq<Seq<char>>)
    requires
        forall|i: int| 0 <= i < items.len() ==> quote_free(#[trigger] items[i]),
        word_at(t, p, show_array(items)),
        follow(t, p + show_array(items).len()),
    ensures
        array_literal(t, p) == Parsed::Done(items, p + show_array(items).len()),
{
    let open = seq!['['];
    let inner = show_items(items) + seq![']'];
    lemma_word_split(t, p, open, inner);
    lemma_word_first(t, p, open);
    lemma_word_first(t, p + 1, inner);
    if items.len() == 0 {
        assert(inner[0] == ']');
        lemma_token_here(t, p + 1);
        lemma_token_here(t, p + 2);
        assert(items =~= Seq::<Seq<char>>::empty());
    } else {
        assert(show_string(items[0])[0] == '"');
        assert(inner[0] == '"');
        lemma_token_here(t, p + 1);
        lemma_read_items(t, p + 1, items);
    }
}

/// What follows the channel of a print statement is read as the message
/// and the arguments that it shows.
#[verifier::spinoff_prover]
pub proof fn lemma_read_print(
    t: Seq<char>,
    p: int,
    message: Seq<char>,
    args: Option<Seq<Seq<char>>>,
    stderr: bool,
)
    requires
        valid_statement(print_of(stderr, message, args)),
        word_at(t, p, show_print(message, args)),
        char_at(t, p + show_print(message, args).len(), ';'),
    ensures
        print_statement(t, p, stderr) == Parsed::Done(
            print_of(stderr, message, args),
            p + show_print(message, args).len(),
        ),
{
    lemma_words();
    let lit = show_string(message);
    let q = p + lit.len();
    let with = "with"@;
    match args {
        None => {
            lemma_read_string(t, p, message);
            lemma_token_here(t, q);
            if word_at(t, q, with) {
                lemma_word_first(t, q, with);
            }
        },
        Some(items) => {
            let blank = seq![' '];
            let list = show_array(items);
            lemma_word_split(t, p, lit, blank + (with + (blank + list)));
            lemma_read_string(t, p, message);
            lemma_word_split(t, q, blank, with + (blank + list));
            lemma_word_split(t, q + 1, with, blank + list);
            lemma_word_split(t, q + 5, blank, list);
            lemma_word_first(t, q, blank);
            lemma_word_first(t, q + 1, with);
            lemma_word_first(t, q + 5, blank);
            lemma_word_first(t, q + 6, list);
            lemma_token_after_blank(t, q);
            lemma_token_after_blank(t, q + 5);
            lemma_token_here(t, q + 6 + list.len());
            lemma_read_array(t, q + 6, items);
        },
    }
}

/// A time that the text holds at `p` in milliseconds is read as that time.
#[verifier::spinoff_prover]
pub proof fn lemma_read_time(t: Seq<char>, p: int, duration: u64)
    requires
        word_at(t, p, decimal_digits(duration as nat) + "ms"@),
        char_at(t, p + decimal_digits(duration as nat).len() + 2, ';'),
    ensures
        time_value(t, p) == Parsed::Done(duration, p + decimal_digits(duration as nat).len() + 2),
{
    lemma_words();
    let digits = decimal_digits(duration as nat);
    let unit = "ms"@;
    let e = p + digits.len();
    lemma_word_split(t, p, digits, unit);
    lemma_word_first(t, e, unit);
    lemma_read_number(t, p, duration);
    lemma_token_here(t, e);
    lemma_token_here(t, e + 2);
}

/// The text of a statement starts with a letter that starts neither
/// `method` nor `loop`.
pub proof fn lemma_statement_starts(s: SpecStatement)
    ensures
        show_bare_statement(s).len() > 0,
        show_statement(s).len() > 0,
        show_statement(s)[0] == show_bare_statement(s)[0],
        show_bare_statement(s)[0] == 'p' || show_bare_statement(s)[0] == 's'
            || show_bare_statement(s)[0] == 'c',
{
    lemma_words();
}

/// A statement that the text holds at `p` without its semicolon, followed
/// by a semicolon, is read as that statement.
#[verifier::spinoff_prover]
pub proof fn lemma_read_bare_statement(t: Seq<char>, p: int, s: SpecStatement)
    requires
        valid_statement(s),
        word_at(t, p, show_bare_statement(s)),
        char_at(t, p + show_bare_statement(s).len(), ';'),
    ensures
        bare_statement(t, p) == Parsed::Done(s, p + show_bare_statement(s).len()),
{
    lemma_words();
    let blank = seq![' '];
    let print = "print"@;
    let stderr = "stderr"@;
    let sleep = "sleep"@;
    let call = "call"@;
    if word_at(t, p, print) {
        lemma_word_first(t, p, print);
    }
    if word_at(t, p, stderr) {
        lemma_word_first(t, p, stderr);
    }
    if word_at(t, p, sleep) {
        lemma_word_first(t, p, sleep);
    }
    match s {
        SpecStatement::Stdout { message, args } => {
            let rest = show_print(message, args);
            lemma_word_split(t, p, print, blank + rest);
            lemma_word_split(t, p + 5, blank, rest);
            lemma_word_first(t, p + 5, blank);
            lemma_word_first(t, p + 6, rest);
            assert(show_string(message)[0] == '"');
            assert(rest[0] == '"');
            lemma_token_after_blank(t, p + 5);
            lemma_read_print(t, p + 6, message, args, false);
        },
        SpecStatement::Stderr { message, args } => {
            let rest = show_print(message, args);
            lemma_word_split(t, p, stderr, blank + rest);
            lemma_word_split(t, p + 6, blank, rest);
            lemma_word_first(t, p, stderr);
            lemma_word_first(t, p + 6, blank);
            lemma_word_first(t, p + 7, rest);
            assert(show_string(message)[0] == '"');
            assert(rest[0] == '"');
            lemma_token_after_blank(t, p + 6);
            lemma_read_print(t, p + 7, message, args, true);
        },
        SpecStatement::Sleep { duration } => {
            let rest = decimal_digits(duration as nat) + "ms"@;
            lemma_word_split(t, p, sleep, blank + rest);
            lemma_word_split(t, p + 5, blank, rest);
            lemma_word_first(t, p, sleep);
            lemma_word_first(t, p + 5, blank);
            lemma_word_first(t, p + 6, rest);
            lemma_decimal_digits(duration as nat);
            assert(rest[0] == decimal_digits(duration as nat)[0]);
            lemma_token_after_blank(t, p + 5);
            lemma_read_time(t, p + 6, duration);
        },
        SpecStatement::Call { service: None, method } => {
            lemma_word_split(t, p, call, blank + method);
            lemma_word_split(t, p + 4, blank, method);
            lemma_word_first(t, p, call);
            lemma_word_first(t, p + 4, blank);
            lemma_word_first(t, p + 5, method);
            lemma_token_after_blank(t, p + 4);
            lemma_read_identifier(t, p + 5, method);
            lemma_token_here(t, p + 5 + method.len());
        },
        SpecStatement::Call { service: Some(service), method } => {
            let dot = seq!['.'];
            lemma_word_split(t, p, call, blank + (service + (dot + method)));
            lemma_word_split(t, p + 4, blank, service + (dot + method));
            lemma_word_split(t, p + 5, service, dot + method);
            let q = p + 5 + service.len();
            lemma_word_split(t, q, dot, method);
            lemma_word_first(t, p, call);
            lemma_word_first(t, p + 4, blank);
            lemma_word_first(t, p + 5, service);
            lemma_word_first(t, q, dot);
            lemma_word_first(t, q + 1, method);
            lemma_token_after_blank(t, p + 4);
            lemma_read_identifier(t, p + 5, service);
            lemma_token_here(t, q);
            lemma_token_here(t, q + 1);
            lemma_read_identifier(t, q + 1, method);
            lemma_token_here(t, q + 1 + method.len());
        },
    }
}

/// A statement that the text holds at `p`, followed by a token or the end
/// of the text, is read as that statement.
#[verifier::spinoff_prover]
pub proof fn lemma_read_statement(t: Seq<char>, p: int, s: SpecStatement)
    requires
        valid_statement(s),
        word_at(t, p, show_statement(s)),
        follow(t, p + show_statement(s).len()),
    ensures
        statement(t, p) == Parsed::Done(s, p + show_statement(s).len()),
{
    let bare = show_bare_statement(s);
    let end = seq![';', '\n'];
    lemma_word_split(t, p, bare, end);
    lemma_word_first(t, p + bare.len(), end);
    lemma_read_bare_statement(t, p, s);
    lemma_token_after_blank(t, p + bare.len() + 1);
}

/// The text of statements, followed by a closing brace, starts with a
/// token.
pub proof fn lemma_statements_start(list: Seq<SpecStatement>)
    ensures
        token_char((show_statements(list) + seq!['}', '\n'])[0]),
        (show_statements(list) + seq!['}', '\n'])[0] != 'm',
        (show_statements(list) + seq!['}', '\n'])[0] != 'l',
{
    if list.len() > 0 {
        lemma_statement_starts(list[0]);
        assert(show_statements(list)[0] == show_statement(list[0])[0]);
    }
}

/// The statements that the text holds at `p`, followed by a closing brace,
/// are read as those statements.
#[verifier::spinoff_prover]
pub proof fn lemma_read_statements(t: Seq<char>, p: int, list: Seq<SpecStatement>)
    requires
        valid_statements(list),
        word_at(t, p, show_statements(list) + seq!['}', '\n']),
    ensures
        statements(t, p) == Parsed::Done(list, p + show_statements(list).len()),
    decreases list.len(),
{
    let close = seq!['}', '\n'];
    if list.len() == 0 {
        lemma_word_first(t, p, close);
        assert(list =~= Seq::<SpecStatement>::empty());
    } else {
        let first = show_statement(list[0]);
        let rest = list.drop_first();
        let tail = show_statements(rest) + close;
        assert(show_statements(list) + close =~= first + tail);
        lemma_word_split(t, p, first, tail);
        let q = p + first.len();
        assert(valid_statements(rest)) by {
            assert forall|i: int| 0 <= i < rest.len() implies valid_statement(
                #[trigger] rest[i],
            ) by {
                assert(rest[i] == list[i + 1]);
            }
        }
        lemma_statements_start(rest);
        lemma_word_first(t, q, tail);
        lemma_statement_starts(list[0]);
        lemma_word_first(t, p, first);
        lemma_read_statement(t, p, list[0]);
        lemma_read_statements(t, q, rest);
        assert(seq![list[0]] + rest =~= list);
    }
}

/// Statements in braces that the text holds at `p`, followed by a token or
/// the end of the text, are read as those statements.
#[verifier::spinoff_prover]
pub proof fn lemma_read_block(t: Seq<char>, p: int, list: Seq<SpecStatement>, rule: Rule)
    requires
        valid_statements(list),
        word_at(t, p, show_block(list)),
        follow(t, p + show_block(list).len()),
    ensures
        block(t, p, rule) == Parsed::Done(list, p + show_block(list).len()),
{
    let open = seq!['{', '\n'];
    let body = show_statements(list);
    let close = seq!['}', '\n'];
    lemma_word_split(t, p, open, body + close);
    lemma_word_split(t, p + 2, body, close);
    lemma_word_first(t, p, open);
    lemma_word_first(t, p + 2, body + close);
    let q = p + 2 + body.len();
    lemma_word_first(t, q, close);
    lemma_statements_start(list);
    lemma_token_after_blank(t, p + 1);
    lemma_read_statements(t, p + 2, list);
    lemma_token_after_blank(t, q + 1);
}

/// The text of a method starts with `m`, that of a loop with `l`.
pub proof fn lemma_member_starts(m: SpecMethod, l: SpecLoop)
    ensures
        show_method(m).len() > 0,
        show_method(m)[0] == 'm',
        show_loop(l).len() > 0,
        show_loop(l)[0] == 'l',
{
    lemma_words();
}

/// A method that the text holds at `p`, followed by a token, is read as
/// that method: after the word `method`, `method_def` yields it.
#[verifier::spinoff_prover]
pub proof fn lemma_read_method(t: Seq<char>, p: int, m: SpecMethod)
    requires
        valid_method(m),
        word_at(t, p, show_method(m)),
        follow(t, p + show_method(m).len()),
    ensures
        word_at(t, p, "method"@),
        method_def(t, after_word(t, p, "method"@)) == Parsed::Done(m, p + show_method(m).len()),
{
    lemma_words();
    let word = "method"@;
    let blank = seq![' '];
    let body = show_block(m.statements);
    lemma_word_split(t, p, word, blank + (m.name + (blank + body)));
    lemma_word_split(t, p + 6, blank, m.name + (blank + body));
    lemma_word_split(t, p + 7, m.name, blank + body);
    let q = p + 7 + m.name.len();
    lemma_word_split(t, q, blank, body);
    lemma_word_first(t, p + 6, blank);
    lemma_word_first(t, p + 7, m.name);
    lemma_word_first(t, q, blank);
    lemma_word_first(t, q + 1, body);
    lemma_token_after_blank(t, p + 6);
    lemma_read_identifier(t, p + 7, m.name);
    lemma_token_after_blank(t, q);
    lemma_read_block(t, q + 1, m.statements, Rule::method_def);
}

/// A loop that the text holds at `p`, followed by a token, is read as that
/// loop: after the word `loop`, `loop_def` yields it.
#[verifier::spinoff_prover]
pub proof fn lemma_read_loop(t: Seq<char>, p: int, l: SpecLoop)
    requires
        valid_statements(l.statements),
        word_at(t, p, show_loop(l)),
        follow(t, p + show_loop(l).len()),
    ensures
        word_at(t, p, "loop"@),
        !word_at(t, p, "method"@),
        loop_def(t, after_word(t, p, "loop"@)) == Parsed::Done(l, p + show_loop(l).len()),
{
    lemma_words();
    let word = "loop"@;
    let blank = seq![' '];
    let body = show_block(l.statements);
    lemma_word_split(t, p, word, blank + body);
    lemma_word_split(t, p + 4, blank, body);
    lemma_word_first(t, p, word);
    lemma_word_first(t, p + 4, blank);
    lemma_word_first(t, p + 5, body);
    if word_at(t, p, "method"@) {
        lemma_word_first(t, p, "method"@);
    }
    lemma_token_after_blank(t, p + 4);
    lemma_read_block(t, p + 5, l.statements, Rule::loop_def);
}

/// The text of loops, followed by a closing brace, starts with a token.
pub proof fn lemma_loops_start(loops: Seq<SpecLoop>)
    ensures
        token_char((show_loops(loops) + seq!['}', '\n'])[0]),
{
    if loops.len() > 0 {
        lemma_member_starts(SpecMethod { name: Seq::empty(), statements: Seq::empty() }, loops[0]);
        assert(show_loops(loops)[0] == show_loop(loops[0])[0]);
    }
}

/// The text of methods and loops, followed by a closing brace, starts with
/// a token.
pub proof fn lemma_members_start(methods: Seq<SpecMethod>, loops: Seq<SpecLoop>)
    ensures
        token_char((show_members(methods, loops) + seq!['}', '\n'])[0]),
{
    if methods.len() > 0 {
        lemma_member_starts(methods[0], SpecLoop { statements: Seq::empty() });
        assert(show_members(methods, loops)[0] == show_method(methods[0])[0]);
    } else {
        lemma_loops_start(loops);
    }
}

/// The loops that the text holds at `p`, followed by a closing brace, are
/// read as those loops.
#[verifier::spinoff_prover]
pub proof fn lemma_read_loops(t: Seq<char>, p: int, loops: Seq<SpecLoop>)
    requires
        forall|i: int| 0 <= i < loops.len() ==> valid_statements(#[trigger] loops[i].statements),
        word_at(t, p, show_loops(loops) + seq!['}', '\n']),
    ensures
        members(t, p) == Parsed::Done(
            (Seq::<SpecMethod>::empty(), loops),
            p + show_loops(loops).len(),
        ),
    decreases loops.len(),
{
    let close = seq!['}', '\n'];
    if loops.len() == 0 {
        lemma_word_first(t, p, close);
        assert(loops =~= Seq::<SpecLoop>::empty());
    } else {
        let first = show_loop(loops[0]);
        let rest = loops.drop_first();
        let tail = show_loops(rest) + close;
        assert(show_loops(loops) + close =~= first + tail);
        lemma_word_split(t, p, first, tail);
        let q = p + first.len();
        lemma_member_starts(SpecMethod { name: Seq::empty(), statements: Seq::empty() }, loops[0]);
        lemma_word_first(t, p, first);
        assert forall|i: int| 0 <= i < rest.len() implies valid_statements(
            #[trigger] rest[i].statements,
        ) by {
            assert(rest[i] == loops[i + 1]);
        }
        lemma_loops_start(rest);
        lemma_word_first(t, q, tail);
        lemma_read_loop(t, p, loops[0]);
        lemma_read_loops(t, q, rest);
        assert(seq![loops[0]] + rest =~= loops);
        assert(Seq::<SpecMethod>::empty() =~= members(t, q)->Done_0.0);
    }
}

/// The methods and the loops that the text holds at `p`, followed by a
/// closing brace, are read as those methods and loops.
#[verifier::spinoff_prover]
#[verifier::rlimit(40)]
pub proof fn lemma_read_members(
    t: Seq<char>,
    p: int,
    methods: Seq<SpecMethod>,
    loops: Seq<SpecLoop>,
)
    requires
        forall|i: int| 0 <= i < methods.len() ==> valid_method(#[trigger] methods[i]),
        forall|i: int| 0 <= i < loops.len() ==> valid_statements(#[trigger] loops[i].statements),
        word_at(t, p, show_members(methods, loops) + seq!['}', '\n']),
    ensures
        members(t, p) == Parsed::Done((methods, loops), p + show_members(methods, loops).len()),
    decreases methods.len(),
{
    let close = seq!['}', '\n'];
    if methods.len() == 0 {
        lemma_read_loops(t, p, loops);
        assert(methods =~= Seq::<SpecMethod>::empty());
    } else {
        let first = show_method(methods[0]);
        let rest = methods.drop_first();
        let tail = show_members(rest, loops) + close;
        assert(show_members(methods, loops) + close =~= first + tail);
        lemma_word_split(t, p, first, tail);
        let q = p + first.len();
        lemma_member_starts(methods[0], SpecLoop { statements: Seq::empty() });
        lemma_word_first(t, p, first);
        assert forall|i: int| 0 <= i < rest.len() implies valid_method(#[trigger] rest[i]) by {
            assert(rest[i] == methods[i + 1]);
        }
        lemma_members_start(rest, loops);
        lemma_word_first(t, q, tail);
        lemma_read_method(t, p, methods[0]);
        lemma_read_members(t, q, rest, loops);
        assert(seq![methods[0]] + rest =~= methods);
    }
}

/// A service that the text holds at `p`, followed by a token or the end of
/// the text, is read as that service: after the word `service`,
/// `service_def` yields it.
#[verifier::spinoff_prover]
pub proof fn lemma_read_service(t: Seq<char>, p: int, s: SpecService)
    requires
        valid_service(s),
        word_at(t, p, show_service(s)),
        follow(t, p + show_service(s).len()),
    ensures
        word_at(t, p, "service"@),
        service_def(t, after_word(t, p, "service"@)) == Parsed::Done(
            s,
            p + show_service(s).len(),
        ),
{
    lemma_words();
    let word = "service"@;
    let blank = seq![' '];
    let open = seq![' ', '{', '\n'];
    let parts = show_members(s.methods, s.loops);
    let close = seq!['}', '\n'];
    lemma_word_split(t, p, word, blank + (s.name + (open + (parts + close))));
    lemma_word_split(t, p + 7, blank, s.name + (open + (parts + close)));
    lemma_word_split(t, p + 8, s.name, open + (parts + close));
    let q = p + 8 + s.name.len();
    lemma_word_split(t, q, open, parts + close);
    lemma_word_split(t, q + 3, parts, close);
    let r = q + 3 + parts.len();
    lemma_word_first(t, p + 7, blank);
    lemma_word_first(t, p + 8, s.name);
    lemma_word_first(t, q, open);
    lemma_word_split(t, q, seq![' ', '{'], seq!['\n']);
    assert(open =~= seq![' ', '{'] + seq!['\n']);
    lemma_word_first(t, q + 2, seq!['\n']);
    lemma_word_first(t, q + 3, parts + close);
    lemma_word_first(t, r, close);
    lemma_members_start(s.methods, s.loops);
    lemma_token_after_blank(t, p + 7);
    lemma_read_identifier(t, p + 8, s.name);
    lemma_token_after_blank(t, q);
    lemma_token_after_blank(t, q + 2);
    lemma_read_members(t, q + 3, s.methods, s.loops);
    lemma_token_after_blank(t, r + 1);
}

/// The text of a service starts with `s`.
pub proof fn lemma_service_starts(s: SpecService)
    ensures
        show_service(s).len() > 0,
        show_service(s)[0] == 's',
{
    lemma_words();
}

/// The services that the text holds from `p` to its end are read as those
/// services.
#[verifier::spinoff_prover]
#[verifier::rlimit(40)]
pub proof fn lemma_read_services(t: Seq<char>, p: int, list: Seq<SpecService>)
    requires
        forall|i: int| 0 <= i < list.len() ==> valid_service(#[trigger] list[i]),
        word_at(t, p, show_services(list)),
        p + show_services(list).len() == t.len(),
    ensures
        services(t, p) matches Parsed::Done(found, _) && found == list,
    decreases list.len(),
{
    if list.len() == 0 {
        assert(list =~= Seq::<SpecService>::empty());
    } else {
        let first = show_service(list[0]);
        let rest = list.drop_first();
        lemma_word_split(t, p, first, show_services(rest));
        let q = p + first.len();
        lemma_service_starts(list[0]);
        lemma_word_first(t, p, first);
        assert forall|i: int| 0 <= i < rest.len() implies valid_service(#[trigger] rest[i]) by {
            assert(rest[i] == list[i + 1]);
        }
        if rest.len() > 0 {
            lemma_word_split(t, q, show_service(rest[0]), show_services(rest.drop_first()));
            lemma_service_starts(rest[0]);
            lemma_word_first(t, q, show_service(rest[0]));
        }
        lemma_read_service(t, p, list[0]);
        lemma_read_services(t, q, rest);
        assert(seq![list[0]] + rest =~= list);
    }
}

/// Parsing the canonical text of a program that can be written down gives
/// the program back.
#[verifier::spinoff_prover]
pub proof fn lemma_parse_canonical(p: SpecProgram)
    requires
        valid_program(p),
    ensures
        program(show_program(p)) == Ok::<SpecProgram, SpecParseError>(p),
{
    let t = show_services(p.services);
    assert(t.subrange(0, 0 + t.len() as int) =~= t);
    assert(word_at(t, 0, t));
    if p.services.len() > 0 {
        let first = show_service(p.services[0]);
        lemma_service_starts(p.services[0]);
        lemma_word_split(t, 0, first, show_services(p.services.drop_first()));
        lemma_word_first(t, 0, first);
    }
    lemma_token_here(t, 0);
    lemma_read_services(t, 0, p.services);
}

} // verus!
