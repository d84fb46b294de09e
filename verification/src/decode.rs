//! A specification-level reading of the serialised listing.
//!
//! The serialiser's contracts pin the response body down to
//! [`list_json`](crate::json::list_json). The functions here read such a body
//! back: a JSON array of objects with the fields `ean` and `name`, each value
//! a JSON string literal with its escapes undone. The theorem at the end says
//! that reading the serialised listing yields exactly the given rows — as
//! many elements as rows, in the same order, every field verbatim — so the
//! body is never malformed and never a partial listing.

use vstd::arithmetic::div_mod::lemma_fundamental_div_mod;
use vstd::prelude::*;
use crate::json::entries_json;
use crate::json::entry_json;
use crate::json::escape_char;
use crate::json::escape_seq;
use crate::json::hex_digit;
use crate::json::list_json;
use crate::model::Ean;

verus! {

/// The character a short escape `\x` stands for, if `x` is one.
pub open spec fn short_unescape(c: char) -> Option<char> {
    if c == '"' {
        Some('"')
    } else if c == '\\' {
        Some('\\')
    } else if c == 'b' {
        Some('\u{8}')
    } else if c == 't' {
        Some('\t')
    } else if c == 'n' {
        Some('\n')
    } else if c == 'f' {
        Some('\u{c}')
    } else if c == 'r' {
        Some('\r')
    } else {
        None
    }
}

/// The code point of a character.
pub open spec fn code_of(c: char) -> int {
    c as u32 as int
}

/// The character with the given code point.
pub open spec fn char_of_code(v: int) -> char {
    choose|c: char| code_of(c) == v
}

/// The value of a lower-case hexadecimal digit; sixteen marks a non-digit.
pub open spec fn hex_val(c: char) -> int {
    if c == '0' {
        0
    } else if c == '1' {
        1
    } else if c == '2' {
        2
    } else if c == '3' {
        3
    } else if c == '4' {
        4
    } else if c == '5' {
        5
    } else if c == '6' {
        6
    } else if c == '7' {
        7
    } else if c == '8' {
        8
    } else if c == '9' {
        9
    } else if c == 'a' {
        10
    } else if c == 'b' {
        11
    } else if c == 'c' {
        12
    } else if c == 'd' {
        13
    } else if c == 'e' {
        14
    } else if c == 'f' {
        15
    } else {
        16
    }
}

/// Reads the body of a JSON string literal, from just after the opening
/// quote up to and over the closing quote. Yields the unescaped content and
/// what follows the closing quote.
pub open spec fn parse_string_body(s: Seq<char>) -> Option<(Seq<char>, Seq<char>)>
    decreases s.len(),
{
    if s.len() == 0 {
        None
    } else if s[0] == '"' {
        Some((Seq::<char>::empty(), s.skip(1)))
    } else if s[0] == '\\' {
        if s.len() < 2 {
            None
        } else {
            match short_unescape(s[1]) {
                Some(c) => match parse_string_body(s.skip(2)) {
                    Some((content, rest)) => Some((seq![c] + content, rest)),
                    None => None,
                },
                None => {
                    if s.len() >= 6 && s[1] == 'u' && s[2] == '0' && s[3] == '0' && hex_val(s[4])
                        < 16 && hex_val(s[5]) < 16 {
                        let u = char_of_code(hex_val(s[4]) * 16 + hex_val(s[5]));
                        match parse_string_body(s.skip(6)) {
                            Some((content, rest)) => Some((seq![u] + content, rest)),
                            None => None,
                        }
                    } else {
                        None
                    }
                },
            }
        }
    } else {
        match parse_string_body(s.skip(1)) {
            Some((content, rest)) => Some((seq![s[0]] + content, rest)),
            None => None,
        }
    }
}

/// The opening of an entry object up to and over the quote that starts the
/// `ean` value.
pub open spec fn ean_key() -> Seq<char> {
    seq!['{', '"', 'e', 'a', 'n', '"', ':', '"']
}

/// The middle of an entry object up to and over the quote that starts the
/// `name` value.
pub open spec fn name_key() -> Seq<char> {
    seq![',', '"', 'n', 'a', 'm', 'e', '"', ':', '"']
}

/// Reads one entry object. Yields the unescaped `ean` and `name` values and
/// what follows the closing brace.
pub open spec fn parse_entry(s: Seq<char>) -> Option<((Seq<char>, Seq<char>), Seq<char>)> {
    if s.len() >= 8 && s.take(8) == ean_key() {
        match parse_string_body(s.skip(8)) {
            Some((ean, r1)) => {
                if r1.len() >= 9 && r1.take(9) == name_key() {
                    match parse_string_body(r1.skip(9)) {
                        Some((name, r2)) => {
                            if r2.len() >= 1 && r2[0] == '}' {
                                Some(((ean, name), r2.skip(1)))
                            } else {
                                None
                            }
                        },
                        None => None,
                    }
                } else {
                    None
                }
            },
            None => None,
        }
    } else {
        None
    }
}

/// Reads a non-empty comma-separated run of entry objects closed by `]`,
/// with nothing after it.
pub open spec fn parse_items(s: Seq<char>) -> Option<Seq<(Seq<char>, Seq<char>)>>
    decreases s.len(),
        via parse_items_decreases
{
    match parse_entry(s) {
        Some((p, rest)) => {
            if rest == seq![']'] {
                Some(seq![p])
            } else if rest.len() >= 1 && rest[0] == ',' {
                match parse_items(rest.skip(1)) {
                    Some(ps) => Some(seq![p] + ps),
                    None => None,
                }
            } else {
                None
            }
        },
        None => None,
    }
}

#[via_fn]
proof fn parse_items_decreases(s: Seq<char>) {
    lemma_parse_entry_shrinks(s);
}

/// Reads a whole listing body: a JSON array of entry objects, with nothing
/// after it.
pub open spec fn parse_list(s: Seq<char>) -> Option<Seq<(Seq<char>, Seq<char>)>> {
    if s.len() >= 1 && s[0] == '[' {
        if s.skip(1) == seq![']'] {
            Some(Seq::<(Seq<char>, Seq<char>)>::empty())
        } else {
            parse_items(s.skip(1))
        }
    } else {
        None
    }
}

/// The rows as bare pairs of field values, in order.
pub open spec fn listing_view(es: Seq<Ean>) -> Seq<(Seq<char>, Seq<char>)> {
    es.map(|i: int, e: Ean| (e.ean@, e.name@))
}

proof fn lemma_parse_string_shrinks(s: Seq<char>)
    ensures
        parse_string_body(s) matches Some((content, rest)) ==> rest.len() < s.len(),
    decreases s.len(),
{
    if s.len() == 0 {
    } else if s[0] == '"' {
    } else if s[0] == '\\' {
        if s.len() >= 2 {
            if short_unescape(s[1]) is Some {
                lemma_parse_string_shrinks(s.skip(2));
            } else if s.len() >= 6 {
                lemma_parse_string_shrinks(s.skip(6));
            }
        }
    } else {
        lemma_parse_string_shrinks(s.skip(1));
    }
}

proof fn lemma_parse_entry_shrinks(s: Seq<char>)
    ensures
        parse_entry(s) matches Some((p, rest)) ==> rest.len() < s.len(),
{
    if s.len() >= 8 && s.take(8) == ean_key() {
        lemma_parse_string_shrinks(s.skip(8));
        if let Some((ean, r1)) = parse_string_body(s.skip(8)) {
            lemma_parse_string_shrinks(r1.skip(9));
        }
    }
}

proof fn lemma_escape_seq_first(x: Seq<char>)
    requires
        x.len() >= 1,
    ensures
        escape_seq(x) == escape_char(x.first()) + escape_seq(x.drop_first()),
    decreases x.len(),
{
    if x.len() == 1 {
        assert(x.drop_last() =~= Seq::<char>::empty());
        assert(x.drop_first() =~= Seq::<char>::empty());
        assert(escape_seq(x) =~= escape_char(x.first()) + escape_seq(x.drop_first()));
    } else {
        let y = x.drop_last();
        lemma_escape_seq_first(y);
        assert(y.first() == x.first());
        assert(x.drop_first().drop_last() =~= y.drop_first());
        assert(x.drop_first().last() == x.last());
        assert(escape_seq(x) =~= escape_char(x.first()) + escape_seq(x.drop_first()));
    }
}

proof fn lemma_hex_digit_inverse(n: int)
    requires
        0 <= n < 16,
    ensures
        hex_val(hex_digit(n)) == n,
{
}

proof fn lemma_parse_escape_step(c: char, t: Seq<char>, x1: Seq<char>, rest: Seq<char>)
    requires
        parse_string_body(t) == Some((x1, rest)),
    ensures
        parse_string_body(escape_char(c) + t) == Some((seq![c] + x1, rest)),
{
    let s = escape_char(c) + t;
    if c == '"' || c == '\\' || c == '\u{8}' || c == '\t' || c == '\n' || c == '\u{c}' || c
        == '\r' {
        assert(s.skip(2) =~= t);
    } else if (c as u32) < 32 {
        let v = c as u32;
        assert(s[1] == 'u' && s[2] == '0' && s[3] == '0');
        lemma_hex_digit_inverse(v as int / 16);
        lemma_hex_digit_inverse(v as int % 16);
        lemma_fundamental_div_mod(v as int, 16);
        assert(hex_val(s[4]) * 16 + hex_val(s[5]) == v);
        let u = char_of_code(hex_val(s[4]) * 16 + hex_val(s[5]));
        assert(code_of(c) == hex_val(s[4]) * 16 + hex_val(s[5]));
        assert(code_of(u) == code_of(c));
        assert(u == c);
        assert(s.skip(6) =~= t);
        assert(seq![u] + x1 =~= seq![c] + x1);
    } else {
        assert(s[0] == c && s[0] != '"' && s[0] != '\\');
        assert(s.skip(1) =~= t);
    }
}

proof fn lemma_parse_escaped_string(x: Seq<char>, rest: Seq<char>)
    ensures
        parse_string_body(escape_seq(x) + seq!['"'] + rest) == Some((x, rest)),
    decreases x.len(),
{
    let s = escape_seq(x) + seq!['"'] + rest;
    if x.len() == 0 {
        assert(escape_seq(x) =~= Seq::<char>::empty());
        assert(s =~= seq!['"'] + rest);
        assert(s[0] == '"');
        assert(s.skip(1) =~= rest);
    } else {
        let c0 = x.first();
        let x1 = x.drop_first();
        lemma_escape_seq_first(x);
        lemma_parse_escaped_string(x1, rest);
        let t = escape_seq(x1) + seq!['"'] + rest;
        assert(s =~= escape_char(c0) + t);
        lemma_parse_escape_step(c0, t, x1, rest);
        assert(seq![c0] + x1 =~= x);
    }
}

proof fn lemma_parse_entry_json(e: Ean, rest: Seq<char>)
    ensures
        parse_entry(entry_json(e) + rest) == Some(((e.ean@, e.name@), rest)),
{
    let s = entry_json(e) + rest;
    let r2 = seq!['}'] + rest;
    let r1 = name_key() + escape_seq(e.name@) + seq!['"'] + r2;
    assert(s.len() >= 8);
    assert(s.take(8) =~= ean_key());
    assert(s.skip(8) =~= escape_seq(e.ean@) + seq!['"'] + r1);
    lemma_parse_escaped_string(e.ean@, r1);
    assert(r1.len() >= 9);
    assert(r1.take(9) =~= name_key());
    assert(r1.skip(9) =~= escape_seq(e.name@) + seq!['"'] + r2);
    lemma_parse_escaped_string(e.name@, r2);
    assert(r2[0] == '}');
    assert(r2.skip(1) =~= rest);
}

proof fn lemma_entries_json_first(es: Seq<Ean>)
    requires
        es.len() >= 2,
    ensures
        entries_json(es) == entry_json(es.first()) + seq![','] + entries_json(es.drop_first()),
    decreases es.len(),
{
    if es.len() == 2 {
        assert(es.drop_last().len() == 1);
        assert(es.drop_first().len() == 1);
        assert(es.drop_last()[0] == es.first());
        assert(es.drop_first()[0] == es.last());
        assert(entries_json(es) == entries_json(es.drop_last()) + seq![','] + entry_json(
            es.last(),
        ));
        assert(entries_json(es.drop_last()) == entry_json(es.drop_last()[0]));
        assert(entries_json(es.drop_first()) == entry_json(es.drop_first()[0]));
        assert(entries_json(es) =~= entry_json(es.first()) + seq![','] + entries_json(
            es.drop_first(),
        ));
    } else {
        let y = es.drop_last();
        let z = es.drop_first();
        lemma_entries_json_first(y);
        assert(y.first() == es.first());
        assert(z.drop_last() =~= y.drop_first());
        assert(z.last() == es.last());
        assert(z.len() >= 2);
        assert(entries_json(es) == entries_json(y) + seq![','] + entry_json(es.last()));
        assert(entries_json(z) == entries_json(z.drop_last()) + seq![','] + entry_json(z.last()));
        assert(entries_json(z.drop_last()) == entries_json(y.drop_first()));
        assert(entries_json(es) =~= entry_json(es.first()) + seq![','] + entries_json(z));
    }
}

proof fn lemma_parse_items_json(es: Seq<Ean>)
    requires
        es.len() >= 1,
    ensures
        parse_items(entries_json(es) + seq![']']) == Some(listing_view(es)),
    decreases es.len(),
{
    let s = entries_json(es) + seq![']'];
    if es.len() == 1 {
        lemma_parse_entry_json(es[0], seq![']']);
        assert(s =~= entry_json(es[0]) + seq![']']);
        assert(seq![(es[0].ean@, es[0].name@)] =~= listing_view(es));
    } else {
        let e0 = es.first();
        let es1 = es.drop_first();
        lemma_entries_json_first(es);
        let tail = entries_json(es1) + seq![']'];
        let rest = seq![','] + tail;
        assert(s =~= entry_json(e0) + rest);
        lemma_parse_entry_json(e0, rest);
        assert(rest.len() >= 2);
        assert(rest != seq![']']);
        assert(rest[0] == ',');
        assert(rest.skip(1) =~= tail);
        lemma_parse_items_json(es1);
        assert(seq![(e0.ean@, e0.name@)] + listing_view(es1) =~= listing_view(es));
    }
}

/// The serialised listing reads back as exactly the given rows: the body is
/// well-formed from the first character to the last, its array has as many
/// elements as there are rows, the elements come in the rows' order, and
/// each carries the `ean` and the `name` of its row verbatim.
pub proof fn lemma_list_json_faithful(es: Seq<Ean>)
    ensures
        parse_list(list_json(es)) == Some(listing_view(es)),
        listing_view(es).len() == es.len(),
        forall|i: int|
            0 <= i < es.len() ==> #[trigger] listing_view(es)[i] == (es[i].ean@, es[i].name@),
{
    let s = list_json(es);
    assert(s[0] == '[');
    if es.len() == 0 {
        assert(entries_json(es) =~= Seq::<char>::empty());
        assert(s.skip(1) =~= seq![']']);
        assert(listing_view(es) =~= Seq::<(Seq<char>, Seq<char>)>::empty());
    } else {
        assert(s.skip(1) =~= entries_json(es) + seq![']']);
        assert(entries_json(es).len() >= 1);
        assert(s.skip(1) != seq![']']);
        lemma_parse_items_json(es);
    }
}

} // verus!
