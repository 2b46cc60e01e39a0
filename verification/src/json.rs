//! Rendering a processing result as a pretty-printed JSON record with the
//! fixed top-level fields `success`, `message` and `data`.

use vstd::prelude::*;
use vstd::string::*;
use crate::numeral::{append_digits, digit_char, digit_val, push_char, spec_digits};
use crate::processor::{ProcessData, ProcessResult};

verus! {

/// The character for a single lower-case hexadecimal digit.
pub open spec fn hex_digit_char(d: nat) -> char {
    if d < 10 {
        digit_char(d)
    } else if d == 10 {
        'a'
    } else if d == 11 {
        'b'
    } else if d == 12 {
        'c'
    } else if d == 13 {
        'd'
    } else if d == 14 {
        'e'
    } else {
        'f'
    }
}

/// How one character appears inside a JSON string literal: quote and
/// backslash get a backslash escape, control characters a `\u00XX` escape,
/// and every other character stands for itself.
pub open spec fn escaped_char(c: char) -> Seq<char> {
    if c == '"' {
        seq!['\\', '"']
    } else if c == '\\' {
        seq!['\\', '\\']
    } else if (c as u32) < 32 {
        seq!['\\', 'u', '0', '0', hex_digit_char((c as u32 / 16) as nat), hex_digit_char(
            (c as u32 % 16) as nat,
        )]
    } else {
        seq![c]
    }
}

/// The body of the JSON string literal that denotes `s`: each character in
/// order, escaped as JSON requires.
pub open spec fn escaped(s: Seq<char>) -> Seq<char>
    decreases s.len(),
{
    if s.len() == 0 {
        Seq::empty()
    } else {
        escaped(s.drop_last()) + escaped_char(s.last())
    }
}

/// The value of a single lower-case hexadecimal digit character; characters
/// that are no such digit read as zero.
pub open spec fn hex_val(c: char) -> nat {
    if c == 'a' {
        10
    } else if c == 'b' {
        11
    } else if c == 'c' {
        12
    } else if c == 'd' {
        13
    } else if c == 'e' {
        14
    } else if c == 'f' {
        15
    } else {
        digit_val(c)
    }
}

/// Reads escaped JSON string-literal text back into the characters it
/// denotes, left to right. The reading is partial: it covers exactly the
/// escapes this module writes, and text they never produce reads as empty.
pub open spec fn unescaped(s: Seq<char>) -> Seq<char>
    decreases s.len(),
{
    if s.len() == 0 {
        Seq::empty()
    } else if s[0] == '\\' {
        if s.len() >= 2 && s[1] == '"' {
            seq!['"'] + unescaped(s.skip(2))
        } else if s.len() >= 2 && s[1] == '\\' {
            seq!['\\'] + unescaped(s.skip(2))
        } else if s.len() >= 6 && s[1] == 'u' && s[2] == '0' && s[3] == '0' {
            seq![(((16 * hex_val(s[4]) + hex_val(s[5])) as u32) as char)] + unescaped(s.skip(6))
        } else {
            Seq::empty()
        }
    } else {
        seq![s[0]] + unescaped(s.skip(1))
    }
}

/// Peels the first character's escape off the front of an escaped text.
proof fn lemma_escaped_first(s: Seq<char>)
    requires
        s.len() > 0,
    ensures
        escaped(s) == escaped_char(s[0]) + escaped(s.skip(1)),
    decreases s.len(),
{
    if s.len() == 1 {
        assert(s.drop_last() =~= Seq::<char>::empty());
        assert(s.skip(1) =~= Seq::<char>::empty());
        assert(escaped(Seq::<char>::empty()) == Seq::<char>::empty());
        assert(escaped(s) =~= escaped_char(s[0]) + escaped(s.skip(1)));
    } else {
        let t = s.drop_last();
        lemma_escaped_first(t);
        assert(t[0] == s[0]);
        assert(s.skip(1).drop_last() =~= t.skip(1));
        assert(s.skip(1).last() == s.last());
        assert(escaped(s) =~= escaped_char(s[0]) + escaped(s.skip(1)));
    }
}

/// Escaping a string for a JSON literal loses nothing: reading the escaped
/// text back yields exactly the original characters.
pub proof fn lemma_escape_round_trip(s: Seq<char>)
    ensures
        unescaped(escaped(s)) == s,
    decreases s.len(),
{
    if s.len() == 0 {
        assert(unescaped(escaped(s)) =~= s);
    } else {
        let c = s[0];
        let rest = s.skip(1);
        lemma_escaped_first(s);
        lemma_escape_round_trip(rest);
        let e = escaped(s);
        if c == '"' {
            assert(e.skip(2) =~= escaped(rest));
            assert(unescaped(e) =~= s);
        } else if c == '\\' {
            assert(e.skip(2) =~= escaped(rest));
            assert(unescaped(e) =~= s);
        } else if (c as u32) < 32 {
            assert(e[4] == hex_digit_char((c as u32 / 16) as nat));
            assert(e[5] == hex_digit_char((c as u32 % 16) as nat));
            assert(e.skip(6) =~= escaped(rest));
            assert(hex_val(e[4]) == c as u32 / 16);
            assert(hex_val(e[5]) == c as u32 % 16);
            assert(((16 * hex_val(e[4]) + hex_val(e[5])) as u32) == c as u32);
            vstd::utf8::char_u32_cast(c, c as u32);
            assert(unescaped(e) =~= s);
        } else {
            assert(e[0] == c);
            assert(e.skip(1) =~= escaped(rest));
            assert(unescaped(e) =~= s);
        }
    }
}

/// The character for the hexadecimal digit `d`.
fn hex_digit_char_exec(d: u32) -> (c: char)
    requires
        d < 16,
    ensures
        c == hex_digit_char(d as nat),
{
    match d {
        0 => '0',
        1 => '1',
        2 => '2',
        3 => '3',
        4 => '4',
        5 => '5',
        6 => '6',
        7 => '7',
        8 => '8',
        9 => '9',
        10 => 'a',
        11 => 'b',
        12 => 'c',
        13 => 'd',
        14 => 'e',
        _ => 'f',
    }
}

/// Appends the body of the JSON string literal denoting `s` to `out`.
fn append_escaped(out: &mut String, s: &str)
    ensures
        final(out)@ == old(out)@ + escaped(s@),
{
    let ghost out0: Seq<char> = out@;
    let len = s.unicode_len();
    let mut i: usize = 0;
    while i < len
        invariant
            i <= len,
            len == s@.len(),
            out@ == out0 + escaped(s@.subrange(0, i as int)),
        decreases len - i,
    {
        let c = s.get_char(i);
        if c == '"' {
            push_char(out, '\\');
            push_char(out, '"');
        } else if c == '\\' {
            push_char(out, '\\');
            push_char(out, '\\');
        } else if (c as u32) < 32 {
            push_char(out, '\\');
            push_char(out, 'u');
            push_char(out, '0');
            push_char(out, '0');
            push_char(out, hex_digit_char_exec(c as u32 / 16));
            push_char(out, hex_digit_char_exec(c as u32 % 16));
        } else {
            push_char(out, c);
        }
        proof {
            let pre = s@.subrange(0, i as int);
            let post = s@.subrange(0, i as int + 1);
            assert(post.drop_last() =~= pre);
            assert(post.last() == s@[i as int]);
            assert(out@ =~= out0 + escaped(post));
        }
        i = i + 1;
    }
    proof {
        assert(s@.subrange(0, len as int) =~= s@);
    }
}

/// The JSON rendering of a boolean.
pub open spec fn spec_bool_text(b: bool) -> Seq<char> {
    if b {
        "true"@
    } else {
        "false"@
    }
}

/// The pretty-printed JSON object for a result's data payload, indented as a
/// member of the top-level record.
pub open spec fn spec_json_data(d: ProcessData) -> Seq<char> {
    "{\n    \"length\": "@ + spec_digits(d.length as nat) + ",\n    \"processed_at\": \""@
        + escaped(d.processed_at@) + "\""@ + ",\n    \"item_number\": "@ + spec_digits(
        d.item_number as nat,
    ) + "\n  }"@
}

/// The pretty-printed JSON record for a whole processing result: the fields
/// `success`, `message` and `data` in that order, with two-space indentation,
/// and `null` for an absent payload.
pub open spec fn spec_json(r: ProcessResult) -> Seq<char> {
    "{\n  \"success\": "@ + spec_bool_text(r.success) + ",\n  \"message\": \""@ + escaped(
        r.message@,
    ) + "\""@ + ",\n  \"data\": "@ + (match r.data {
        Some(d) => spec_json_data(d),
        None => "null"@,
    }) + "\n}"@
}

/// Whether `c` is a decimal digit character.
pub open spec fn is_digit(c: char) -> bool {
    c == '0' || c == '1' || c == '2' || c == '3' || c == '4' || c == '5' || c == '6' || c == '7'
        || c == '8' || c == '9'
}

/// The remainder of `s` after the expected prefix `p`, if `s` starts with it.
pub open spec fn strip_prefix(s: Seq<char>, p: Seq<char>) -> Option<Seq<char>> {
    if p.is_prefix_of(s) {
        Some(s.skip(p.len() as int))
    } else {
        None
    }
}

/// Reads a JSON boolean.
pub open spec fn read_bool(s: Seq<char>) -> Option<(bool, Seq<char>)> {
    match strip_prefix(s, "true"@) {
        Some(t) => Some((true, t)),
        None => match strip_prefix(s, "false"@) {
            Some(t) => Some((false, t)),
            None => None,
        },
    }
}

/// Reads a JSON string body up to its closing quote, undoing the escapes
/// this module writes; yields the content and what follows the quote.
pub open spec fn read_string(s: Seq<char>) -> Option<(Seq<char>, Seq<char>)>
    decreases s.len(),
{
    if s.len() == 0 {
        None
    } else if s[0] == '"' {
        Some((Seq::empty(), s.skip(1)))
    } else if s[0] == '\\' {
        if s.len() >= 2 && s[1] == '"' {
            match read_string(s.skip(2)) {
                Some(ct) => Some((seq!['"'] + ct.0, ct.1)),
                None => None,
            }
        } else if s.len() >= 2 && s[1] == '\\' {
            match read_string(s.skip(2)) {
                Some(ct) => Some((seq!['\\'] + ct.0, ct.1)),
                None => None,
            }
        } else if s.len() >= 6 && s[1] == 'u' && s[2] == '0' && s[3] == '0' {
            match read_string(s.skip(6)) {
                Some(ct) => Some(
                    (seq![(((16 * hex_val(s[4]) + hex_val(s[5])) as u32) as char)] + ct.0, ct.1),
                ),
                None => None,
            }
        } else {
            None
        }
    } else {
        match read_string(s.skip(1)) {
            Some(ct) => Some((seq![s[0]] + ct.0, ct.1)),
            None => None,
        }
    }
}

/// Reads a run of decimal digits onto the number `acc` already read,
/// stopping at the first character that is no digit.
pub open spec fn read_digits(s: Seq<char>, acc: nat) -> (nat, Seq<char>)
    decreases s.len(),
{
    if s.len() > 0 && is_digit(s[0]) {
        read_digits(s.skip(1), acc * 10 + digit_val(s[0]))
    } else {
        (acc, s)
    }
}

/// Reads the data object of a rendered record: its length, timestamp and
/// item number, and what follows the object.
pub open spec fn read_data(s: Seq<char>) -> Option<((nat, Seq<char>, nat), Seq<char>)> {
    match strip_prefix(s, "{\n    \"length\": "@) {
        None => None,
        Some(s1) => match strip_prefix(read_digits(s1, 0).1, ",\n    \"processed_at\": \""@) {
            None => None,
            Some(s2) => match read_string(s2) {
                None => None,
                Some(ct) => match strip_prefix(ct.1, ",\n    \"item_number\": "@) {
                    None => None,
                    Some(s3) => match strip_prefix(read_digits(s3, 0).1, "\n  }"@) {
                        None => None,
                        Some(s4) => Some(
                            ((read_digits(s1, 0).0, ct.0, read_digits(s3, 0).0), s4),
                        ),
                    },
                },
            },
        },
    }
}

/// The fields a rendered record denotes — success, message, and, if the
/// data payload is present, its length, timestamp and item number — read
/// back from the pretty-printed text.
pub open spec fn spec_read_json(s: Seq<char>) -> Option<
    (bool, Seq<char>, Option<(nat, Seq<char>, nat)>),
> {
    match strip_prefix(s, "{\n  \"success\": "@) {
        None => None,
        Some(s0) => match read_bool(s0) {
            None => None,
            Some(bt) => match strip_prefix(bt.1, ",\n  \"message\": \""@) {
                None => None,
                Some(s1) => match read_string(s1) {
                    None => None,
                    Some(mt) => match strip_prefix(mt.1, ",\n  \"data\": "@) {
                        None => None,
                        Some(s2) => match strip_prefix(s2, "null"@) {
                            Some(t) => if t == "\n}"@ {
                                Some((bt.0, mt.0, None))
                            } else {
                                None
                            },
                            None => match read_data(s2) {
                                None => None,
                                Some(dt) => if dt.1 == "\n}"@ {
                                    Some((bt.0, mt.0, Some(dt.0)))
                                } else {
                                    None
                                },
                            },
                        },
                    },
                },
            },
        },
    }
}

/// A text that begins with `p` strips to exactly what follows it.
proof fn lemma_strip_prefix_concat(p: Seq<char>, t: Seq<char>)
    ensures
        strip_prefix(p + t, p) == Some(t),
{
    assert((p + t).subrange(0, p.len() as int) =~= p);
    assert((p + t).skip(p.len() as int) =~= t);
}

/// Reading a boolean rendered by this module yields that boolean and what
/// follows it.
proof fn lemma_read_bool(b: bool, tail: Seq<char>)
    ensures
        read_bool(spec_bool_text(b) + tail) == Some((b, tail)),
{
    reveal_strlit("true");
    reveal_strlit("false");
    if b {
        lemma_strip_prefix_concat("true"@, tail);
    } else {
        lemma_strip_prefix_concat("false"@, tail);
        if "true"@.is_prefix_of("false"@ + tail) {
            assert(("false"@ + tail).subrange(0, 4)[0] == 'f');
            assert(false);
        }
    }
}

/// Reading an escaped text followed by its closing quote yields the
/// original characters and what follows the quote.
proof fn lemma_read_string_escaped(m: Seq<char>, tail: Seq<char>)
    ensures
        read_string(escaped(m) + seq!['"'] + tail) == Some((m, tail)),
    decreases m.len(),
{
    let s = escaped(m) + seq!['"'] + tail;
    if m.len() == 0 {
        assert(s =~= seq!['"'] + tail);
        assert(s[0] == '"');
        assert(s.skip(1) =~= tail);
        assert(Seq::<char>::empty() =~= m);
    } else {
        let c = m[0];
        let rest = m.skip(1);
        lemma_escaped_first(m);
        lemma_read_string_escaped(rest, tail);
        let srest = escaped(rest) + seq!['"'] + tail;
        assert(s =~= escaped_char(c) + srest);
        if c == '"' {
            assert(s.skip(2) =~= srest);
            assert(seq!['"'] + rest =~= m);
        } else if c == '\\' {
            assert(s.skip(2) =~= srest);
            assert(seq!['\\'] + rest =~= m);
        } else if (c as u32) < 32 {
            assert(s[4] == hex_digit_char((c as u32 / 16) as nat));
            assert(s[5] == hex_digit_char((c as u32 % 16) as nat));
            assert(s.skip(6) =~= srest);
            assert(hex_val(s[4]) == c as u32 / 16);
            assert(hex_val(s[5]) == c as u32 % 16);
            assert(((16 * hex_val(s[4]) + hex_val(s[5])) as u32) == c as u32);
            vstd::utf8::char_u32_cast(c, c as u32);
            assert(seq![c] + rest =~= m);
        } else {
            assert(s[0] == c);
            assert(s.skip(1) =~= srest);
            assert(seq![c] + rest =~= m);
        }
    }
}

/// The number a run of digit characters denotes when read left to right
/// onto what was read already.
spec fn val_left(acc: nat, s: Seq<char>) -> nat
    decreases s.len(),
{
    if s.len() == 0 {
        acc
    } else {
        val_left(acc * 10 + digit_val(s[0]), s.skip(1))
    }
}

/// Appending one digit multiplies the value read so far by ten and adds it.
proof fn lemma_val_left_push(acc: nat, s: Seq<char>, d: char)
    ensures
        val_left(acc, s.push(d)) == val_left(acc, s) * 10 + digit_val(d),
    decreases s.len(),
{
    if s.len() == 0 {
        assert(s.push(d)[0] == d);
        assert(s.push(d).skip(1) =~= Seq::<char>::empty());
        assert(val_left(acc * 10 + digit_val(d), Seq::<char>::empty()) == acc * 10 + digit_val(d));
    } else {
        assert(s.push(d)[0] == s[0]);
        assert(s.push(d).skip(1) =~= s.skip(1).push(d));
        lemma_val_left_push(acc * 10 + digit_val(s[0]), s.skip(1), d);
    }
}

/// Every character of a decimal numeral is a digit.
proof fn lemma_spec_digits_are_digits(n: nat)
    ensures
        forall|i: int| 0 <= i < spec_digits(n).len() ==> is_digit(#[trigger] spec_digits(n)[i]),
    decreases n,
{
    if n >= 10 {
        lemma_spec_digits_are_digits(n / 10);
        assert forall|i: int| 0 <= i < spec_digits(n).len() implies is_digit(
            #[trigger] spec_digits(n)[i],
        ) by {
            if i < spec_digits(n / 10).len() {
                assert(spec_digits(n)[i] == spec_digits(n / 10)[i]);
            } else {
                assert(spec_digits(n)[i] == digit_char(n % 10));
            }
        }
    }
}

/// Reading the decimal numeral of `n` from zero yields `n` back.
proof fn lemma_val_left_digits(n: nat)
    ensures
        val_left(0, spec_digits(n)) == n,
    decreases n,
{
    if n < 10 {
        assert(spec_digits(n)[0] == digit_char(n));
        assert(spec_digits(n).skip(1) =~= Seq::<char>::empty());
        assert(digit_val(digit_char(n)) == n);
        assert(val_left(n, Seq::<char>::empty()) == n);
    } else {
        lemma_val_left_digits(n / 10);
        lemma_val_left_push(0, spec_digits(n / 10), digit_char(n % 10));
        assert(digit_val(digit_char(n % 10)) == n % 10);
        assert(n / 10 * 10 + n % 10 == n) by {
            vstd::arithmetic::div_mod::lemma_fundamental_div_mod(n as int, 10);
        }
    }
}

/// Reading digits from a digit run followed by a non-digit consumes exactly
/// the run.
proof fn lemma_read_digits_all(s: Seq<char>, tail: Seq<char>, acc: nat)
    requires
        forall|i: int| 0 <= i < s.len() ==> is_digit(#[trigger] s[i]),
        tail.len() == 0 || !is_digit(tail[0]),
    ensures
        read_digits(s + tail, acc) == (val_left(acc, s), tail),
    decreases s.len(),
{
    if s.len() == 0 {
        assert(s + tail =~= tail);
    } else {
        assert((s + tail)[0] == s[0]);
        assert((s + tail).skip(1) =~= s.skip(1) + tail);
        lemma_read_digits_all(s.skip(1), tail, acc * 10 + digit_val(s[0]));
    }
}

/// Reading digits from a rendered numeral followed by a non-digit yields the
/// rendered number and what follows the numeral.
proof fn lemma_read_digits_numeral(n: nat, tail: Seq<char>)
    requires
        tail.len() > 0,
        !is_digit(tail[0]),
    ensures
        read_digits(spec_digits(n) + tail, 0) == (n, tail),
{
    lemma_spec_digits_are_digits(n);
    lemma_read_digits_all(spec_digits(n), tail, 0);
    lemma_val_left_digits(n);
}

/// Rendering a result as a JSON record loses nothing: the rendered text
/// reads back to exactly the record's fields (a serialize–deserialize
/// identity for this module's rendering and reading).
#[verifier::rlimit(60)]
pub proof fn lemma_json_round_trip(r: ProcessResult)
    ensures
        spec_read_json(spec_json(r)) == Some(
            (
                r.success,
                r.message@,
                match r.data {
                    Some(d) => Some((d.length as nat, d.processed_at@, d.item_number as nat)),
                    None => None::<(nat, Seq<char>, nat)>,
                },
            ),
        ),
{
    let a = "{\n  \"success\": "@;
    let bmsg = ",\n  \"message\": \""@;
    let bdata = ",\n  \"data\": "@;
    let dend = "\n}"@;
    let data_text = match r.data {
        Some(d) => spec_json_data(d),
        None => "null"@,
    };
    let t4 = data_text + dend;
    let t3 = bdata + t4;
    let t2 = escaped(r.message@) + (seq!['"'] + t3);
    let t1 = bmsg + t2;
    let t0 = spec_bool_text(r.success) + t1;
    reveal_strlit("\"");
    assert("\""@ =~= seq!['"']);
    assert(spec_json(r) =~= a + t0);
    lemma_strip_prefix_concat(a, t0);
    lemma_read_bool(r.success, t1);
    lemma_strip_prefix_concat(bmsg, t2);
    lemma_read_string_escaped(r.message@, t3);
    assert(escaped(r.message@) + seq!['"'] + t3 =~= t2);
    lemma_strip_prefix_concat(bdata, t4);
    match r.data {
        None => {
            lemma_strip_prefix_concat("null"@, dend);
        },
        Some(d) => {
            lemma_data_object_not_null(d, dend);
            lemma_read_data(d, dend);
        },
    }
}

/// A rendered data object never reads as `null`: it opens with a brace.
proof fn lemma_data_object_not_null(d: ProcessData, tail: Seq<char>)
    ensures
        strip_prefix(spec_json_data(d) + tail, "null"@) is None,
{
    let s = spec_json_data(d) + tail;
    reveal_strlit("null");
    reveal_strlit("{\n    \"length\": ");
    assert(s[0] == '{');
    if "null"@.is_prefix_of(s) {
        assert(s.subrange(0, 4)[0] == s[0]);
        assert(false);
    }
}

/// Reading a rendered data object yields exactly the payload's fields and
/// what follows the object.
proof fn lemma_read_data(d: ProcessData, tail: Seq<char>)
    ensures
        read_data(spec_json_data(d) + tail) == Some(
            ((d.length as nat, d.processed_at@, d.item_number as nat), tail),
        ),
{
    let a2 = "{\n    \"length\": "@;
    let bts = ",\n    \"processed_at\": \""@;
    let bitem = ",\n    \"item_number\": "@;
    let dend2 = "\n  }"@;
    let u4 = dend2 + tail;
    let u3 = bitem + (spec_digits(d.item_number as nat) + u4);
    let u2 = escaped(d.processed_at@) + (seq!['"'] + u3);
    let u1 = bts + u2;
    let u0 = spec_digits(d.length as nat) + u1;
    reveal_strlit("\"");
    assert("\""@ =~= seq!['"']);
    assert(spec_json_data(d) + tail =~= a2 + u0);
    lemma_strip_prefix_concat(a2, u0);
    reveal_strlit(",\n    \"processed_at\": \"");
    assert(u1[0] == ',');
    assert(!is_digit(','));
    lemma_read_digits_numeral(d.length as nat, u1);
    lemma_strip_prefix_concat(bts, u2);
    lemma_read_string_escaped(d.processed_at@, u3);
    assert(escaped(d.processed_at@) + seq!['"'] + u3 =~= u2);
    lemma_strip_prefix_concat(bitem, spec_digits(d.item_number as nat) + u4);
    reveal_strlit("\n  }");
    assert(u4[0] == '\n');
    assert(!is_digit('\n'));
    lemma_read_digits_numeral(d.item_number as nat, u4);
    lemma_strip_prefix_concat(dend2, tail);
}

/// Renders a processing result as pretty-printed JSON text.
pub fn to_json_pretty(r: &ProcessResult) -> (out: String)
    ensures
        out@ == spec_json(*r),
{
    let mut out = String::new();
    out.append("{\n  \"success\": ");
    if r.success {
        out.append("true");
    } else {
        out.append("false");
    }
    out.append(",\n  \"message\": \"");
    append_escaped(&mut out, r.message.as_str());
    out.append("\"");
    out.append(",\n  \"data\": ");
    match &r.data {
        Some(d) => {
            out.append("{\n    \"length\": ");
            append_digits(&mut out, d.length);
            out.append(",\n    \"processed_at\": \"");
            append_escaped(&mut out, d.processed_at.as_str());
            out.append("\"");
            out.append(",\n    \"item_number\": ");
            append_digits(&mut out, d.item_number);
            out.append("\n  }");
        },
        None => {
            out.append("null");
        },
    }
    out.append("\n}");
    proof {
        assert(out@ =~= spec_json(*r));
    }
    out
}

} // verus!
