use vstd::prelude::*;
use crate::model::Ean;

verus! {

// The listing is serialised without any outside serialisation crate, so the
// exact bytes of the response body are pinned down here, character by
// character.

/// Relies on `String::push` of std: appends the given character to the end
/// of this `String`.
pub assume_specification[ String::push ](s: &mut String, ch: char)
    ensures
        final(s)@ == old(s)@.push(ch),
;

/// The hexadecimal digit for a value below sixteen, lower case.
pub open spec fn hex_digit(n: int) -> char {
    if n == 0 {
        '0'
    } else if n == 1 {
        '1'
    } else if n == 2 {
        '2'
    } else if n == 3 {
        '3'
    } else if n == 4 {
        '4'
    } else if n == 5 {
        '5'
    } else if n == 6 {
        '6'
    } else if n == 7 {
        '7'
    } else if n == 8 {
        '8'
    } else if n == 9 {
        '9'
    } else if n == 10 {
        'a'
    } else if n == 11 {
        'b'
    } else if n == 12 {
        'c'
    } else if n == 13 {
        'd'
    } else if n == 14 {
        'e'
    } else {
        'f'
    }
}

fn hex_digit_char(n: u32) -> (r: char)
    requires
        n < 16,
    ensures
        r == hex_digit(n as int),
{
    if n == 0 {
        '0'
    } else if n == 1 {
        '1'
    } else if n == 2 {
        '2'
    } else if n == 3 {
        '3'
    } else if n == 4 {
        '4'
    } else if n == 5 {
        '5'
    } else if n == 6 {
        '6'
    } else if n == 7 {
        '7'
    } else if n == 8 {
        '8'
    } else if n == 9 {
        '9'
    } else if n == 10 {
        'a'
    } else if n == 11 {
        'b'
    } else if n == 12 {
        'c'
    } else if n == 13 {
        'd'
    } else if n == 14 {
        'e'
    } else {
        'f'
    }
}

/// How one character appears inside a JSON string literal: the quote and the
/// backslash are escaped, the named control characters get their short
/// escapes, every other control character a `\u00..` escape, and everything
/// else stands for itself.
pub open spec fn escape_char(c: char) -> Seq<char> {
    if c == '"' {
        seq!['\\', '"']
    } else if c == '\\' {
        seq!['\\', '\\']
    } else if c == '\u{8}' {
        seq!['\\', 'b']
    } else if c == '\t' {
        seq!['\\', 't']
    } else if c == '\n' {
        seq!['\\', 'n']
    } else if c == '\u{c}' {
        seq!['\\', 'f']
    } else if c == '\r' {
        seq!['\\', 'r']
    } else if (c as u32) < 32 {
        seq!['\\', 'u', '0', '0', hex_digit(((c as u32) / 16) as int), hex_digit(
            ((c as u32) % 16) as int,
        )]
    } else {
        seq![c]
    }
}

/// The body of a JSON string literal: each character escaped, in order.
pub open spec fn escape_seq(s: Seq<char>) -> Seq<char>
    decreases s.len(),
{
    if s.len() == 0 {
        Seq::<char>::empty()
    } else {
        escape_seq(s.drop_last()) + escape_char(s.last())
    }
}

/// A JSON string literal: the escaped characters between double quotes.
pub open spec fn json_string(s: Seq<char>) -> Seq<char> {
    seq!['"'] + escape_seq(s) + seq!['"']
}

/// One listing entry as a JSON object with the two fields `ean` and `name`.
pub open spec fn entry_json(e: Ean) -> Seq<char> {
    seq!['{', '"', 'e', 'a', 'n', '"', ':'] + json_string(e.ean@)
        + seq![',', '"', 'n', 'a', 'm', 'e', '"', ':'] + json_string(e.name@) + seq!['}']
}

/// The entries in order, separated by commas.
pub open spec fn entries_json(es: Seq<Ean>) -> Seq<char>
    decreases es.len(),
{
    if es.len() == 0 {
        Seq::<char>::empty()
    } else if es.len() == 1 {
        entry_json(es[0])
    } else {
        entries_json(es.drop_last()) + seq![','] + entry_json(es.last())
    }
}

/// The whole listing as a JSON array of entry objects, in order.
pub open spec fn list_json(es: Seq<Ean>) -> Seq<char> {
    seq!['['] + entries_json(es) + seq![']']
}

/// An empty listing serialises to the two-character array `[]`.
pub proof fn lemma_empty_list_json()
    ensures
        list_json(Seq::<Ean>::empty()) == seq!['[', ']'],
{
    assert(list_json(Seq::<Ean>::empty()) =~= seq!['[', ']']);
}

fn push_escaped(out: &mut String, c: char)
    ensures
        final(out)@ == old(out)@ + escape_char(c),
{
    if c == '"' {
        out.push('\\');
        out.push('"');
    } else if c == '\\' {
        out.push('\\');
        out.push('\\');
    } else if c == '\u{8}' {
        out.push('\\');
        out.push('b');
    } else if c == '\t' {
        out.push('\\');
        out.push('t');
    } else if c == '\n' {
        out.push('\\');
        out.push('n');
    } else if c == '\u{c}' {
        out.push('\\');
        out.push('f');
    } else if c == '\r' {
        out.push('\\');
        out.push('r');
    } else {
        let v = c as u32;
        if v < 32 {
            out.push('\\');
            out.push('u');
            out.push('0');
            out.push('0');
            out.push(hex_digit_char(v / 16));
            out.push(hex_digit_char(v % 16));
        } else {
            out.push(c);
        }
    }
    proof {
        assert(out@ =~= old(out)@ + escape_char(c));
    }
}

fn append_json_string(out: &mut String, s: &str)
    ensures
        final(out)@ == old(out)@ + json_string(s@),
{
    out.push('"');
    let n = s.unicode_len();
    let mut i: usize = 0;
    proof {
        assert(s@.take(0) =~= Seq::<char>::empty());
    }
    while i < n
        invariant
            i <= n,
            n == s@.len(),
            out@ == old(out)@ + seq!['"'] + escape_seq(s@.take(i as int)),
        decreases n - i,
    {
        let c = s.get_char(i);
        push_escaped(out, c);
        proof {
            assert(s@.take(i + 1).drop_last() =~= s@.take(i as int));
            assert(s@.take(i + 1).last() == s@[i as int]);
            assert(out@ =~= old(out)@ + seq!['"'] + escape_seq(s@.take(i + 1)));
        }
        i = i + 1;
    }
    out.push('"');
    proof {
        assert(s@.take(n as int) =~= s@);
        assert(out@ =~= old(out)@ + json_string(s@));
    }
}

fn append_entry(out: &mut String, e: &Ean)
    ensures
        final(out)@ == old(out)@ + entry_json(*e),
{
    out.append("{\"ean\":");
    append_json_string(out, e.ean.as_str());
    out.append(",\"name\":");
    append_json_string(out, e.name.as_str());
    out.append("}");
    proof {
        reveal_strlit("{\"ean\":");
        reveal_strlit(",\"name\":");
        reveal_strlit("}");
        assert(out@ =~= old(out)@ + entry_json(*e));
    }
}

/// Serialises the listing: the entries in their given order, each as an
/// object with the fields `ean` and `name`, inside one JSON array.
pub fn render_list(entries: &Vec<Ean>) -> (r: String)
    ensures
        r@ == list_json(entries@),
{
    let mut out = String::from_str("[");
    proof {
        reveal_strlit("[");
        assert(entries@.take(0) =~= Seq::<Ean>::empty());
        assert(out@ =~= seq!['['] + entries_json(entries@.take(0)));
    }
    let n = entries.len();
    let mut i: usize = 0;
    while i < n
        invariant
            i <= n,
            n == entries@.len(),
            out@ == seq!['['] + entries_json(entries@.take(i as int)),
        decreases n - i,
    {
        if i > 0 {
            out.push(',');
        }
        append_entry(&mut out, &entries[i]);
        proof {
            assert(entries@.take(i + 1).drop_last() =~= entries@.take(i as int));
            assert(entries@.take(i + 1).last() == entries@[i as int]);
            assert(out@ =~= seq!['['] + entries_json(entries@.take(i + 1)));
        }
        i = i + 1;
    }
    out.push(']');
    proof {
        assert(entries@.take(n as int) =~= entries@);
        assert(out@ =~= list_json(entries@));
    }
    out
}

} // verus!
