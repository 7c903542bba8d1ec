//! The wire form of the envelopes: JSON text. A spec function fixes the one
//! text each JSON value is written as — digits in decimal, strings quoted
//! with `"` , `\` and control characters escaped — and the emitters are
//! proved to write exactly that text.

use vstd::prelude::*;
use vstd::string::StrSliceExecFns;
use crate::envelope::{Request, RequestModel, Response, ResponseModel};
use crate::json::{
    JsonValue, JsonModel, model_of, models_of, member_models_of, lemma_models_of,
    lemma_member_models_of,
};
use crate::codec::{encode_request, encode_response, request_json, response_json};

verus! {

/// The digit character for a value below ten.
pub open spec fn digit_char(d: int) -> char {
    if d == 0 {
        '0'
    } else if d == 1 {
        '1'
    } else if d == 2 {
        '2'
    } else if d == 3 {
        '3'
    } else if d == 4 {
        '4'
    } else if d == 5 {
        '5'
    } else if d == 6 {
        '6'
    } else if d == 7 {
        '7'
    } else if d == 8 {
        '8'
    } else {
        '9'
    }
}

/// The lower-case hex digit character for a value below sixteen.
pub open spec fn hex_char(d: int) -> char {
    if d < 10 {
        digit_char(d)
    } else if d == 10 {
        'a'
    } else if d == 11 {
        'b'
    } else if d == 12 {
        'c'
    } else if d == 13 {
        'd'
    } else if d == 14 {
        'e'
    } else {
        'f'
    }
}

/// The decimal digits of a number, most significant first.
pub open spec fn dec_digits(n: nat) -> Seq<char>
    decreases n,
{
    if n < 10 {
        seq![digit_char(n as int)]
    } else {
        dec_digits(n / 10).push(digit_char((n % 10) as int))
    }
}

/// The decimal text of an integer: a minus sign, when negative, then digits.
pub open spec fn int_text(n: int) -> Seq<char> {
    if n < 0 {
        seq!['-'] + dec_digits((-n) as nat)
    } else {
        dec_digits(n as nat)
    }
}

/// How one character is written inside a JSON string: `"` and `\` behind a
/// backslash, control characters as `\u00..`, every other character as it is.
pub open spec fn escaped_char(c: char) -> Seq<char> {
    if c == '"' {
        seq!['\\', '"']
    } else if c == '\\' {
        seq!['\\', '\\']
    } else if (c as int) < 32 {
        seq!['\\', 'u', '0', '0', hex_char((c as int) / 16), hex_char((c as int) % 16)]
    } else {
        seq![c]
    }
}

/// A string's characters written one after the other, each escaped.
pub open spec fn escaped(s: Seq<char>) -> Seq<char>
    decreases s,
{
    if s.len() == 0 {
        Seq::empty()
    } else {
        escaped_char(s.first()) + escaped(s.drop_first())
    }
}

/// A JSON string: the escaped characters between double quotes.
pub open spec fn string_text(s: Seq<char>) -> Seq<char> {
    seq!['"'] + escaped(s) + seq!['"']
}

/// The one JSON text of a value.
pub open spec fn json_text(m: JsonModel) -> Seq<char>
    decreases m,
{
    match m {
        JsonModel::Null => seq!['n', 'u', 'l', 'l'],
        JsonModel::Bool(b) => if b {
            seq!['t', 'r', 'u', 'e']
        } else {
            seq!['f', 'a', 'l', 's', 'e']
        },
        JsonModel::Int(n) => int_text(n),
        JsonModel::Str(s) => string_text(s),
        JsonModel::Arr(items) => seq!['['] + list_text(items) + seq![']'],
        JsonModel::Obj(members) => seq!['{'] + members_text(members) + seq!['}'],
    }
}

/// The elements of an array, comma-separated.
pub open spec fn list_text(s: Seq<JsonModel>) -> Seq<char>
    decreases s,
{
    if s.len() == 0 {
        Seq::empty()
    } else {
        json_text(s.first()) + more_list_text(s.drop_first())
    }
}

/// The elements after the first, each behind a comma.
pub open spec fn more_list_text(s: Seq<JsonModel>) -> Seq<char>
    decreases s,
{
    if s.len() == 0 {
        Seq::empty()
    } else {
        seq![','] + json_text(s.first()) + more_list_text(s.drop_first())
    }
}

/// The members of an object, comma-separated, each `"key":value`.
pub open spec fn members_text(s: Seq<(Seq<char>, JsonModel)>) -> Seq<char>
    decreases s,
{
    if s.len() == 0 {
        Seq::empty()
    } else {
        member_text(s.first()) + more_members_text(s.drop_first())
    }
}

/// The members after the first, each behind a comma.
pub open spec fn more_members_text(s: Seq<(Seq<char>, JsonModel)>) -> Seq<char>
    decreases s,
{
    if s.len() == 0 {
        Seq::empty()
    } else {
        seq![','] + member_text(s.first()) + more_members_text(s.drop_first())
    }
}

/// One member: its quoted key, a colon, its value.
pub open spec fn member_text(m: (Seq<char>, JsonModel)) -> Seq<char>
    decreases m,
{
    string_text(m.0) + seq![':'] + json_text(m.1)
}

/// The request body of a call: its envelope object as JSON text.
pub open spec fn request_text(req: RequestModel) -> Seq<char> {
    json_text(request_json(req))
}

/// The response body of a call: its envelope object as JSON text.
pub open spec fn response_text(resp: ResponseModel) -> Seq<char> {
    json_text(response_json(resp))
}

/// Relies on String::push: appends the one character at the end.
#[verifier::external_body]
fn push_char(out: &mut String, c: char)
    ensures
        final(out)@ == old(out)@.push(c),
{
    out.push(c);
}

/// The digit character of a value below ten.
fn digit_to_char(d: u64) -> (c: char)
    requires
        d < 10,
    ensures
        c == digit_char(d as int),
{
    match d {
        0 => '0',
        1 => '1',
        2 => '2',
        3 => '3',
        4 => '4',
        5 => '5',
        6 => '6',
        7 => '7',
        8 => '8',
        _ => '9',
    }
}

/// The lower-case hex digit character of a value below sixteen.
fn hex_to_char(d: u32) -> (c: char)
    requires
        d < 16,
    ensures
        c == hex_char(d as int),
{
    match d {
        0 => '0',
        1 => '1',
        2 => '2',
        3 => '3',
        4 => '4',
        5 => '5',
        6 => '6',
        7 => '7',
        8 => '8',
        9 => '9',
        10 => 'a',
        11 => 'b',
        12 => 'c',
        13 => 'd',
        14 => 'e',
        _ => 'f',
    }
}

/// Writes the decimal digits of `n`, most significant first.
fn write_digits(out: &mut String, n: u64)
    ensures
        final(out)@ == old(out)@ + dec_digits(n as nat),
    decreases n,
{
    if n < 10 {
        push_char(out, digit_to_char(n));
        assert(out@ =~= old(out)@ + dec_digits(n as nat));
    } else {
        write_digits(out, n / 10);
        push_char(out, digit_to_char(n % 10));
        assert(out@ =~= old(out)@ + dec_digits(n as nat));
    }
}

/// Writes the decimal text of `n`: a minus sign when negative, then digits.
fn write_int(out: &mut String, n: i64)
    ensures
        final(out)@ == old(out)@ + int_text(n as int),
{
    if n < 0 {
        push_char(out, '-');
        let wide: i128 = -(n as i128);
        let mag: u64 = wide as u64;
        assert(mag as nat == (-(n as int)) as nat);
        write_digits(out, mag);
        assert(out@ =~= old(out)@ + int_text(n as int));
    } else {
        let mag: u64 = n as u64;
        write_digits(out, mag);
    }
}

/// Escaping distributes over adding one character at the end.
proof fn lemma_escaped_snoc(s: Seq<char>, c: char)
    ensures
        escaped(s.push(c)) == escaped(s) + escaped_char(c),
    decreases s,
{
    reveal_with_fuel(escaped, 3);
    if s.len() == 0 {
        assert(s.push(c).first() == c);
        assert(s.push(c).drop_first() =~= Seq::<char>::empty());
        assert(escaped(s.push(c)) =~= escaped(s) + escaped_char(c));
    } else {
        assert(s.push(c).first() == s.first());
        assert(s.push(c).drop_first() =~= s.drop_first().push(c));
        lemma_escaped_snoc(s.drop_first(), c);
        assert(escaped(s.push(c)) == escaped_char(s.first()) + (escaped(s.drop_first())
            + escaped_char(c)));
        assert(escaped(s) == escaped_char(s.first()) + escaped(s.drop_first()));
        assert(escaped(s.push(c)) =~= escaped(s) + escaped_char(c));
    }
}

/// Writes one character as it stands inside a JSON string.
fn write_escaped_char(out: &mut String, c: char)
    ensures
        final(out)@ == old(out)@ + escaped_char(c),
{
    if c == '"' {
        push_char(out, '\\');
        push_char(out, '"');
        assert(out@ =~= old(out)@ + escaped_char(c));
    } else if c == '\\' {
        push_char(out, '\\');
        push_char(out, '\\');
        assert(out@ =~= old(out)@ + escaped_char(c));
    } else {
        let code: u32 = c as u32;
        if code < 32 {
            push_char(out, '\\');
            push_char(out, 'u');
            push_char(out, '0');
            push_char(out, '0');
            push_char(out, hex_to_char(code / 16));
            push_char(out, hex_to_char(code % 16));
            assert(out@ =~= old(out)@ + escaped_char(c));
        } else {
            push_char(out, c);
            assert(out@ =~= old(out)@ + escaped_char(c));
        }
    }
}

/// Writes a quoted JSON string: `"`, the escaped characters, `"`.
fn write_string_text(out: &mut String, s: &str)
    ensures
        final(out)@ == old(out)@ + string_text(s@),
{
    push_char(out, '"');
    let n = s.unicode_len();
    let mut i: usize = 0;
    while i < n
        invariant
            n == s@.len(),
            i <= n,
            out@ == old(out)@ + seq!['"'] + escaped(s@.subrange(0, i as int)),
        decreases n - i,
    {
        let c = s.get_char(i);
        write_escaped_char(out, c);
        proof {
            assert(s@.subrange(0, i as int + 1) =~= s@.subrange(0, i as int).push(s@[i as int]));
            lemma_escaped_snoc(s@.subrange(0, i as int), s@[i as int]);
            assert(out@ =~= old(out)@ + seq!['"'] + escaped(s@.subrange(0, i as int + 1)));
        }
        i += 1;
    }
    proof {
        assert(s@.subrange(0, n as int) =~= s@);
    }
    push_char(out, '"');
    assert(out@ =~= old(out)@ + string_text(s@));
}

/// The comma-separated tail grows by a comma and one element's text.
proof fn lemma_more_list_snoc(s: Seq<JsonModel>, m: JsonModel)
    ensures
        more_list_text(s.push(m)) == more_list_text(s) + seq![','] + json_text(m),
    decreases s,
{
    reveal_with_fuel(more_list_text, 3);
    if s.len() == 0 {
        assert(s.push(m).first() == m);
        assert(s.push(m).drop_first() =~= Seq::<JsonModel>::empty());
        assert(more_list_text(s.push(m)) =~= more_list_text(s) + seq![','] + json_text(m));
    } else {
        assert(s.push(m).first() == s.first());
        assert(s.push(m).drop_first() =~= s.drop_first().push(m));
        lemma_more_list_snoc(s.drop_first(), m);
        assert(more_list_text(s.push(m)) == seq![','] + json_text(s.first()) + (more_list_text(
            s.drop_first(),
        ) + seq![','] + json_text(m)));
        assert(more_list_text(s) == seq![','] + json_text(s.first()) + more_list_text(
            s.drop_first(),
        ));
        assert(more_list_text(s.push(m)) =~= more_list_text(s) + seq![','] + json_text(m));
    }
}

/// The comma-separated member tail grows by a comma and one member's text.
proof fn lemma_more_members_snoc(s: Seq<(Seq<char>, JsonModel)>, m: (Seq<char>, JsonModel))
    ensures
        more_members_text(s.push(m)) == more_members_text(s) + seq![','] + member_text(m),
    decreases s,
{
    reveal_with_fuel(more_members_text, 3);
    if s.len() == 0 {
        assert(s.push(m).first() == m);
        assert(s.push(m).drop_first() =~= Seq::<(Seq<char>, JsonModel)>::empty());
        assert(more_members_text(s.push(m)) =~= more_members_text(s) + seq![','] + member_text(m));
    } else {
        assert(s.push(m).first() == s.first());
        assert(s.push(m).drop_first() =~= s.drop_first().push(m));
        lemma_more_members_snoc(s.drop_first(), m);
        assert(more_members_text(s.push(m)) == seq![','] + member_text(s.first()) + (
        more_members_text(s.drop_first()) + seq![','] + member_text(m)));
        assert(more_members_text(s) == seq![','] + member_text(s.first()) + more_members_text(
            s.drop_first(),
        ));
        assert(more_members_text(s.push(m)) =~= more_members_text(s) + seq![','] + member_text(m));
    }
}

/// Writes the one JSON text of a value.
#[verifier::loop_isolation(false)]
#[verifier::rlimit(60)]
pub fn write_json(out: &mut String, v: &JsonValue)
    ensures
        final(out)@ == old(out)@ + json_text(v@),
    decreases *v,
{
    match v {
        JsonValue::Null => {
            push_char(out, 'n');
            push_char(out, 'u');
            push_char(out, 'l');
            push_char(out, 'l');
            assert(out@ =~= old(out)@ + json_text(v@));
        },
        JsonValue::Bool(b) => {
            if *b {
                push_char(out, 't');
                push_char(out, 'r');
                push_char(out, 'u');
                push_char(out, 'e');
            } else {
                push_char(out, 'f');
                push_char(out, 'a');
                push_char(out, 'l');
                push_char(out, 's');
                push_char(out, 'e');
            }
            assert(out@ =~= old(out)@ + json_text(v@));
        },
        JsonValue::Int(n) => {
            write_int(out, *n);
        },
        JsonValue::Str(s) => {
            write_string_text(out, s.as_str());
        },
        JsonValue::Arr(items) => {
            push_char(out, '[');
            proof {
                lemma_models_of(items@);
            }
            let ghost ms = models_of(items@);
            let mut i: usize = 0;
            while i < items.len()
                invariant
                    ms == models_of(items@),
                    ms.len() == items@.len(),
                    forall|j: int| 0 <= j < items@.len() ==> ms[j] == model_of(#[trigger] items@[j]),
                    i <= items.len(),
                    out@ == old(out)@ + seq!['['] + (if i == 0 {
                        Seq::<char>::empty()
                    } else {
                        json_text(ms[0]) + more_list_text(ms.subrange(1, i as int))
                    }),
                decreases items.len() - i,
            {
                if i > 0 {
                    push_char(out, ',');
                }
                write_json(out, &items[i]);
                proof {
                    if i == 0 {
                        assert(ms.subrange(1, 1) =~= Seq::<JsonModel>::empty());
                        assert(out@ =~= old(out)@ + seq!['['] + (json_text(ms[0])
                            + more_list_text(ms.subrange(1, 1))));
                    } else {
                        assert(ms.subrange(1, i as int + 1) =~= ms.subrange(1, i as int).push(
                            ms[i as int],
                        ));
                        lemma_more_list_snoc(ms.subrange(1, i as int), ms[i as int]);
                        assert(out@ =~= old(out)@ + seq!['['] + (json_text(ms[0])
                            + more_list_text(ms.subrange(1, i as int + 1))));
                    }
                }
                i += 1;
            }
            push_char(out, ']');
            proof {
                if items.len() == 0 {
                    assert(out@ =~= old(out)@ + json_text(v@));
                } else {
                    assert(ms.subrange(1, ms.len() as int) =~= ms.drop_first());
                    assert(list_text(ms) == json_text(ms[0]) + more_list_text(ms.drop_first()));
                    assert(out@ =~= old(out)@ + json_text(v@));
                }
            }
        },
        JsonValue::Obj(members) => {
            push_char(out, '{');
            proof {
                lemma_member_models_of(members@);
            }
            let ghost ms = member_models_of(members@);
            let mut i: usize = 0;
            while i < members.len()
                invariant
                    ms == member_models_of(members@),
                    ms.len() == members@.len(),
                    forall|j: int|
                        0 <= j < members@.len() ==> ms[j] == ((#[trigger] members@[j]).key@,
                        model_of(members@[j].value)),
                    i <= members.len(),
                    out@ == old(out)@ + seq!['{'] + (if i == 0 {
                        Seq::<char>::empty()
                    } else {
                        member_text(ms[0]) + more_members_text(ms.subrange(1, i as int))
                    }),
                decreases members.len() - i,
            {
                if i > 0 {
                    push_char(out, ',');
                }
                write_string_text(out, members[i].key.as_str());
                push_char(out, ':');
                write_json(out, &members[i].value);
                proof {
                    if i == 0 {
                        assert(ms.subrange(1, 1) =~= Seq::<(Seq<char>, JsonModel)>::empty());
                        assert(out@ =~= old(out)@ + seq!['{'] + (member_text(ms[0])
                            + more_members_text(ms.subrange(1, 1))));
                    } else {
                        assert(ms.subrange(1, i as int + 1) =~= ms.subrange(1, i as int).push(
                            ms[i as int],
                        ));
                        lemma_more_members_snoc(ms.subrange(1, i as int), ms[i as int]);
                        assert(out@ =~= old(out)@ + seq!['{'] + (member_text(ms[0])
                            + more_members_text(ms.subrange(1, i as int + 1))));
                    }
                }
                i += 1;
            }
            push_char(out, '}');
            proof {
                if members.len() == 0 {
                    assert(out@ =~= old(out)@ + json_text(v@));
                } else {
                    assert(ms.subrange(1, ms.len() as int) =~= ms.drop_first());
                    assert(members_text(ms) == member_text(ms[0]) + more_members_text(
                        ms.drop_first(),
                    ));
                    assert(out@ =~= old(out)@ + json_text(v@));
                }
            }
        },
    }
}

/// The JSON text of a value, in a string of its own.
pub fn json_to_text(v: &JsonValue) -> (r: String)
    ensures
        r@ == json_text(v@),
{
    let mut out = String::new();
    write_json(&mut out, v);
    out
}

/// The request body of a call envelope: its object as JSON text.
pub fn request_to_text(req: &Request) -> (r: String)
    ensures
        r@ == request_text(req@),
{
    let v = encode_request(req);
    json_to_text(&v)
}

/// The response body of a response envelope: its object as JSON text.
pub fn response_to_text(resp: &Response) -> (r: String)
    ensures
        r@ == response_text(resp@),
{
    let v = encode_response(resp);
    json_to_text(&v)
}

} // verus!
