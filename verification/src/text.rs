//! Text helpers shared by the parser, the code generator and the machine.
//!
//! Strings are viewed as sequences of characters (`s@`). The helpers here move
//! between `String`/`&str` and `Vec<char>`, so that the rest of the crate can
//! index and slice text without reasoning about its byte encoding.

use vstd::prelude::*;
use vstd::utf8::*;

verus! {

/// `String::from_utf8` accepts exactly the byte sequences that are valid
/// UTF-8 and returns the text that they encode.
#[verifier::external_body]
pub(crate) fn string_from_utf8(bytes: &[u8]) -> (res: Option<String>)
    ensures
        res is Some <==> valid_utf8(bytes@),
        res matches Some(s) ==> s@ == decode_utf8(bytes@),
{
    String::from_utf8(bytes.to_vec()).ok()
}

/// `String::push` appends one character to the end of the string.
pub assume_specification[ std::string::String::push ](s: &mut std::string::String, c: char)
    ensures
        final(s)@ == old(s)@.push(c),
;

/// The characters of `s`, in order.
pub fn to_chars(s: &str) -> (v: Vec<char>)
    ensures
        v@ == s@,
{
    let mut v: Vec<char> = Vec::new();
    for c in it: s.chars()
        invariant
            it.seq() == s@,
            v@ == it.seq().take(it.index()),
    {
        v.push(c);
    }
    v
}

/// The text made of `v[from..to]`.
pub fn from_chars(v: &Vec<char>, from: usize, to: usize) -> (s: String)
    requires
        from <= to <= v.len(),
    ensures
        s@ == v@.subrange(from as int, to as int),
{
    let mut s = String::new();
    let mut i: usize = from;
    while i < to
        invariant
            from <= i <= to <= v.len(),
            s@ == v@.subrange(from as int, i as int),
        decreases to - i,
    {
        s.push(v[i]);
        i += 1;
    }
    s
}

/// The text that `{:?}` prints for a text. The standard library defines it:
/// the text in double quotes, with its special characters escaped.
pub uninterp spec fn debug_str_text(s: Seq<char>) -> Seq<char>;

/// Formats a text with `{:?}`, as `std::fmt::Debug` for `str` does. The
/// result depends on the text alone.
#[verifier::external_body]
pub(crate) fn debug_str(s: &str) -> (res: String)
    ensures
        res@ == debug_str_text(s@),
{
    format!("{:?}", s)
}

/// The texts of the items as `{:?}` prints them, separated by a comma
/// and a space.
pub open spec fn debug_items_text(items: Seq<Seq<char>>) -> Seq<char>
    decreases items.len(),
{
    if items.len() == 0 {
        Seq::<char>::empty()
    } else if items.len() == 1 {
        debug_str_text(items[0])
    } else {
        debug_items_text(items.drop_last()) + ", "@ + debug_str_text(items.last())
    }
}

/// The text that `{:?}` prints for a list of texts: the items in brackets,
/// each as `{:?}` prints it, separated by a comma and a space.
pub open spec fn debug_list_text(items: Seq<Seq<char>>) -> Seq<char> {
    "["@ + debug_items_text(items) + "]"@
}

/// Formats a list of texts as `{:?}` does.
pub fn debug_list(items: &Vec<String>) -> (res: String)
    ensures
        res@ == debug_list_text(items.deep_view()),
{
    let ghost list = items.deep_view();
    let mut res = "[".to_owned();
    let mut k: usize = 0;
    proof {
        assert(list.take(0) =~= Seq::<Seq<char>>::empty());
        assert(res@ =~= "["@ + debug_items_text(list.take(0)));
    }
    while k < items.len()
        invariant
            k <= items.len(),
            list == items.deep_view(),
            res@ == "["@ + debug_items_text(list.take(k as int)),
        decreases items.len() - k,
    {
        let ghost before = debug_items_text(list.take(k as int));
        let shown = debug_str(items[k].as_str());
        if k > 0 {
            res.append(", ");
        }
        res.append(shown.as_str());
        proof {
            let next = list.take(k + 1);
            assert(next.drop_last() =~= list.take(k as int));
            assert(next.last() == items[k as int]@);
            if k == 0 {
                assert(before =~= Seq::<char>::empty());
            }
            assert(res@ =~= "["@ + debug_items_text(next));
        }
        k += 1;
    }
    res.append("]");
    proof {
        assert(list.take(k as int) =~= list);
    }
    res
}

/// The text that `{:?}` prints for a span of time of `ms` milliseconds. The
/// standard library defines it: the time in the largest unit that gives an
/// integer part, with its fraction and the unit's name.
pub uninterp spec fn debug_duration_text(ms: u64) -> Seq<char>;

/// Formats a span of `ms` milliseconds with `{:?}`, as `std::fmt::Debug` for
/// `std::time::Duration` does. The result depends on `ms` alone.
#[verifier::external_body]
pub(crate) fn debug_duration(ms: u64) -> (res: String)
    ensures
        res@ == debug_duration_text(ms),
{
    format!("{:?}", std::time::Duration::from_millis(ms))
}

/// `a` followed by `b`.
pub fn join(a: &str, b: &str) -> (s: String)
    ensures
        s@ == a@ + b@,
{
    a.to_owned().concat(b)
}

/// Whether `a` and `b` are the same text.
pub fn same_text(a: &String, b: &str) -> (same: bool)
    ensures
        same == (a@ == b@),
{
    let other = b.to_owned();
    *a == other
}

/// The character that stands for the decimal digit `d`.
pub open spec fn digit_char(d: nat) -> char
    recommends
        d < 10,
{
    (48 + d) as u8 as char
}

/// The decimal numeral of `n`, without leading zeros.
pub open spec fn decimal_digits(n: nat) -> Seq<char>
    decreases n,
{
    if n < 10 {
        seq![digit_char(n)]
    } else {
        decimal_digits(n / 10).push(digit_char(n % 10))
    }
}

/// The decimal numeral of `n`.
pub fn decimal(n: u64) -> (s: String)
    ensures
        s@ == decimal_digits(n as nat),
{
    // The digits of `n`, least significant first.
    let mut digits: Vec<char> = Vec::new();
    digits.push((48 + (n % 10) as u8) as char);
    let mut rest: u64 = n / 10;
    while rest > 0
        invariant
            digits.len() >= 1,
            decimal_digits(n as nat) == if rest > 0 {
                decimal_digits(rest as nat) + digits@.reverse()
            } else {
                digits@.reverse()
            },
        decreases rest,
    {
        let ghost before = digits@;
        digits.push((48 + (rest % 10) as u8) as char);
        proof {
            let d = digit_char((rest % 10) as nat);
            assert(digits@.reverse() =~= seq![d] + before.reverse());
            if rest >= 10 {
                assert(decimal_digits(rest as nat) == decimal_digits((rest / 10) as nat).push(d));
                assert(decimal_digits((rest / 10) as nat).push(d) + before.reverse()
                    =~= decimal_digits((rest / 10) as nat) + digits@.reverse());
            } else {
                assert(decimal_digits(rest as nat) + before.reverse() =~= digits@.reverse());
            }
        }
        rest = rest / 10;
    }
    let mut s = String::new();
    let mut i: usize = digits.len();
    while i > 0
        invariant
            i <= digits.len(),
            s@ == digits@.reverse().take(digits.len() - i),
        decreases i,
    {
        i -= 1;
        s.push(digits[i]);
        proof {
            let r = digits@.reverse();
            assert(r.take(digits.len() - i) =~= r.take(digits.len() - i - 1).push(digits@[i as int]));
        }
    }
    proof {
        assert(digits@.reverse().take(digits.len() as int) =~= digits@.reverse());
    }
    s
}

/// Whether the two characters `%` and `kind` stand at position `i` of `t`.
pub open spec fn placeholder_at(t: Seq<char>, i: int, kind: char) -> bool {
    0 <= i && i + 1 < t.len() && t[i] == '%' && t[i + 1] == kind
}

/// The position of the first placeholder of the given kind at or after
/// `from`, if there is one.
pub open spec fn find_placeholder(t: Seq<char>, kind: char, from: int) -> Option<int>
    decreases t.len() - from,
{
    if from < 0 || from + 1 >= t.len() {
        None
    } else if placeholder_at(t, from, kind) {
        Some(from)
    } else {
        find_placeholder(t, kind, from + 1)
    }
}

/// `t` with the two characters at position `i` replaced by `text`.
pub open spec fn splice_placeholder(t: Seq<char>, i: int, text: Seq<char>) -> Seq<char> {
    t.subrange(0, i) + text + t.subrange(i + 2, t.len() as int)
}

/// `t` with its first placeholder of the given kind replaced by `text`, if
/// it has such a placeholder.
pub open spec fn substitute_first(t: Seq<char>, kind: char, text: Seq<char>) -> Option<Seq<char>> {
    match find_placeholder(t, kind, 0) {
        Some(i) => Some(splice_placeholder(t, i, text)),
        None => None,
    }
}

/// What `find_placeholder` finds is the least position of a placeholder at
/// or after `from`; it finds nothing only where there is none.
pub proof fn lemma_find_placeholder(t: Seq<char>, kind: char, from: int)
    requires
        0 <= from,
    ensures
        match find_placeholder(t, kind, from) {
            Some(i) => from <= i && placeholder_at(t, i, kind) && forall|j: int|
                from <= j < i ==> !placeholder_at(t, j, kind),
            None => forall|j: int| from <= j ==> !placeholder_at(t, j, kind),
        },
    decreases t.len() - from,
{
    if from + 1 >= t.len() {
    } else if placeholder_at(t, from, kind) {
    } else {
        lemma_find_placeholder(t, kind, from + 1);
    }
}

/// Replaces the first placeholder of the given kind in `template` by `text`.
/// Exactly one placeholder is replaced: the text before it and the text
/// after it are kept as they are, further placeholders included. Returns
/// `None` when the template holds no placeholder of that kind.
pub fn replace_first_placeholder(template: &str, kind: char, text: &str) -> (res: Option<String>)
    ensures
        res matches Some(r) ==> Some(r@) == substitute_first(template@, kind, text@),
        res is None ==> substitute_first(template@, kind, text@) is None,
        match res {
            Some(r) => exists|i: int|
                placeholder_at(template@, i, kind) && (forall|j: int|
                    0 <= j < i ==> !placeholder_at(template@, j, kind)) && r@
                    == splice_placeholder(template@, i, text@),
            None => forall|j: int| !placeholder_at(template@, j, kind),
        },
{
    let t = to_chars(template);
    if t.len() < 2 {
        proof {
            lemma_find_placeholder(t@, kind, 0);
        }
        return None;
    }
    let mut i: usize = 0;
    while i < t.len() - 1
        invariant
            t@ == template@,
            t.len() >= 2,
            find_placeholder(t@, kind, 0) == find_placeholder(t@, kind, i as int),
        decreases t.len() - i,
    {
        if t[i] == '%' && t[i + 1] == kind {
            let prefix = from_chars(&t, 0, i);
            let suffix = from_chars(&t, i + 2, t.len());
            let r = prefix.concat(text).concat(suffix.as_str());
            proof {
                lemma_find_placeholder(t@, kind, 0);
            }
            return Some(r);
        }
        i += 1;
    }
    proof {
        lemma_find_placeholder(t@, kind, 0);
    }
    None
}

/// The part of `t` from position `from` on, with every placeholder of the
/// given kind replaced by `text`. Placeholders are found from left to right
/// and do not overlap.
pub open spec fn substitute_all(t: Seq<char>, kind: char, text: Seq<char>, from: int) -> Seq<char>
    decreases t.len() - from,
{
    if from < 0 || from >= t.len() {
        Seq::<char>::empty()
    } else if placeholder_at(t, from, kind) {
        text + substitute_all(t, kind, text, from + 2)
    } else {
        seq![t[from]] + substitute_all(t, kind, text, from + 1)
    }
}

/// Replaces every placeholder of the given kind in `template` by `text`.
pub fn replace_placeholders(template: &str, kind: char, text: &str) -> (res: String)
    ensures
        res@ == substitute_all(template@, kind, text@, 0),
{
    let t = to_chars(template);
    let mut res = String::new();
    let mut i: usize = 0;
    proof {
        assert(res@ + substitute_all(t@, kind, text@, 0) =~= substitute_all(t@, kind, text@, 0));
    }
    while i < t.len()
        invariant
            t@ == template@,
            i <= t.len(),
            substitute_all(t@, kind, text@, 0) == res@ + substitute_all(t@, kind, text@, i as int),
        decreases t.len() - i,
    {
        let ghost before = res@;
        if t[i] == '%' && i + 1 < t.len() && t[i + 1] == kind {
            res = res.concat(text);
            proof {
                assert(before + (text@ + substitute_all(t@, kind, text@, i + 2)) =~= res@
                    + substitute_all(t@, kind, text@, i + 2));
            }
            i += 2;
        } else {
            res.push(t[i]);
            proof {
                assert(before + (seq![t@[i as int]] + substitute_all(t@, kind, text@, i + 1))
                    =~= res@ + substitute_all(t@, kind, text@, i + 1));
            }
            i += 1;
        }
    }
    proof {
        assert(res@ + Seq::<char>::empty() =~= res@);
    }
    res
}

} // verus!
