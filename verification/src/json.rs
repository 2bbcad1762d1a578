//! The crate's own model of a JSON document.
//!
//! Protocol logic works on [`JsonValue`], a tree of plain values whose
//! numbers keep their wire literal. Rendering a value to text is verified
//! down to the character ([`json_text`]); reading bytes into the model is
//! the one trusted step, resting on serde_json.

use crate::decimal::string_eq_lit;
use vstd::prelude::*;

verus! {

broadcast use vstd::std_specs::vec::group_vec_axioms;

/// A JSON value as the protocol logic sees it. Numbers keep their wire
/// literal, so no precision is lost and no float is involved.
#[derive(Debug)]
pub enum JsonValue {
    /// `null`
    Null,
    /// `true` or `false`
    Bool(bool),
    /// A number, as its literal text, e.g. `12`, `-3`, `0.8`.
    Num(String),
    /// A string.
    Str(String),
    /// An array.
    Arr(Vec<JsonValue>),
    /// An object: fields in order of appearance.
    Obj(Vec<(String, JsonValue)>),
}

/// The escaped body of a JSON string: quote, backslash and control
/// characters become escape sequences.
pub open spec fn escaped(s: Seq<char>) -> Seq<char>
    decreases s.len(),
{
    if s.len() == 0 {
        seq![]
    } else {
        escaped_char(s[0]) + escaped(s.drop_first())
    }
}

/// The escape sequence of one character inside a JSON string.
pub open spec fn escaped_char(c: char) -> Seq<char> {
    if c == '"' {
        seq!['\\', '"']
    } else if c == '\\' {
        seq!['\\', '\\']
    } else if c == '\n' {
        seq!['\\', 'n']
    } else if c == '\r' {
        seq!['\\', 'r']
    } else if c == '\t' {
        seq!['\\', 't']
    } else if (c as nat) < 32 {
        seq!['\\', 'u', '0', '0', crate::decimal::dec_digit((c as nat) / 16), hex_digit(
            (c as nat) % 16,
        )]
    } else {
        seq![c]
    }
}

/// The character for one hexadecimal digit below 16.
pub open spec fn hex_digit(d: nat) -> char {
    if d < 10 {
        crate::decimal::dec_digit(d)
    } else if d == 10 { 'a' }
    else if d == 11 { 'b' }
    else if d == 12 { 'c' }
    else if d == 13 { 'd' }
    else if d == 14 { 'e' }
    else { 'f' }
}

/// The text of a JSON string literal, quotes included.
pub open spec fn string_text(s: Seq<char>) -> Seq<char> {
    seq!['"'] + escaped(s) + seq!['"']
}

/// The exact text a JSON value renders to: no spaces, object fields in
/// their stored order.
pub open spec fn json_text(v: JsonValue) -> Seq<char>
    decreases v,
{
    match v {
        JsonValue::Null => "null"@,
        JsonValue::Bool(b) => if b {
            "true"@
        } else {
            "false"@
        },
        JsonValue::Num(s) => s@,
        JsonValue::Str(s) => string_text(s@),
        JsonValue::Arr(a) => seq!['['] + items_text(a@) + seq![']'],
        JsonValue::Obj(o) => seq!['{'] + fields_text(o@) + seq!['}'],
    }
}

/// The comma-separated rendering of array items.
pub open spec fn items_text(elems: Seq<JsonValue>) -> Seq<char>
    decreases elems,
{
    if elems.len() == 0 {
        seq![]
    } else if elems.len() == 1 {
        json_text(elems[0])
    } else {
        json_text(elems[0]) + seq![','] + items_text(elems.drop_first())
    }
}

/// The comma-separated rendering of object fields, each a quoted key,
/// a colon and the value.
pub open spec fn fields_text(fields: Seq<(String, JsonValue)>) -> Seq<char>
    decreases fields,
{
    if fields.len() == 0 {
        seq![]
    } else {
        let head = string_text(fields[0].0@) + seq![':'] + json_text(fields[0].1);
        if fields.len() == 1 {
            head
        } else {
            head + seq![','] + fields_text(fields.drop_first())
        }
    }
}

/// Appending one item extends the comma-separated rendering by one entry.
proof fn lemma_items_text_push(elems: Seq<JsonValue>, x: JsonValue)
    ensures
        items_text(elems.push(x)) == if elems.len() == 0 {
            json_text(x)
        } else {
            items_text(elems) + seq![','] + json_text(x)
        },
    decreases elems.len(),
{
    let p = elems.push(x);
    if elems.len() == 0 {
        assert(p.len() == 1);
        assert(p[0] == x);
    } else {
        assert(p[0] == elems[0]);
        assert(p.drop_first() =~= elems.drop_first().push(x));
        lemma_items_text_push(elems.drop_first(), x);
        if elems.len() == 1 {
            assert(items_text(p) =~= items_text(elems) + seq![','] + json_text(x));
        } else {
            assert(items_text(p) =~= items_text(elems) + seq![','] + json_text(x));
        }
    }
}

/// Appending one field extends the rendering of an object body by one entry.
proof fn lemma_fields_text_push(fields: Seq<(String, JsonValue)>, k: String, x: JsonValue)
    ensures
        fields_text(fields.push((k, x))) == if fields.len() == 0 {
            string_text(k@) + seq![':'] + json_text(x)
        } else {
            fields_text(fields) + seq![','] + string_text(k@) + seq![':'] + json_text(x)
        },
    decreases fields.len(),
{
    let p = fields.push((k, x));
    if fields.len() == 0 {
        assert(p.len() == 1);
        assert(p[0] == (k, x));
        assert(fields_text(p) =~= string_text(k@) + seq![':'] + json_text(x));
    } else {
        assert(p[0] == fields[0]);
        assert(p.drop_first() =~= fields.drop_first().push((k, x)));
        lemma_fields_text_push(fields.drop_first(), k, x);
        assert(fields_text(p) =~= fields_text(fields) + seq![','] + string_text(k@) + seq![':']
            + json_text(x));
    }
}

/// Extending a string extends its escaped body.
proof fn lemma_escaped_push(s: Seq<char>, c: char)
    ensures
        escaped(s.push(c)) == escaped(s) + escaped_char(c),
    decreases s.len(),
{
    let p = s.push(c);
    if s.len() == 0 {
        assert(p.drop_first() =~= Seq::<char>::empty());
        assert(escaped(p) == escaped_char(c) + escaped(Seq::<char>::empty()));
        assert(escaped_char(c) + Seq::<char>::empty() =~= Seq::<char>::empty() + escaped_char(c));
        assert(escaped(p) =~= escaped(s) + escaped_char(c));
    } else {
        assert(p[0] == s[0]);
        assert(p.drop_first() =~= s.drop_first().push(c));
        lemma_escaped_push(s.drop_first(), c);
        assert(escaped(p) == escaped_char(s[0]) + (escaped(s.drop_first()) + escaped_char(c)));
        assert(escaped(s) + escaped_char(c) == (escaped_char(s[0]) + escaped(s.drop_first()))
            + escaped_char(c));
        assert(escaped_char(s[0]) + (escaped(s.drop_first()) + escaped_char(c)) =~= (escaped_char(
        s[0]) + escaped(s.drop_first())) + escaped_char(c));
    }
}

/// Append one character's escape sequence to `out`, for a character
/// that needs one.
fn push_escaped_char(c: char, out: &mut String)
    requires
        c == '"' || c == '\\' || (c as nat) < 32,
    ensures
        final(out)@ == old(out)@ + escaped_char(c),
{
    let code = c as u32;
    if c == '"' {
        out.append("\\\"");
        proof {
            reveal_strlit("\\\"");
            assert(final(out)@ =~= old(out)@ + escaped_char(c));
        }
    } else if c == '\\' {
        out.append("\\\\");
        proof {
            reveal_strlit("\\\\");
            assert(final(out)@ =~= old(out)@ + escaped_char(c));
        }
    } else if c == '\n' {
        out.append("\\n");
        proof {
            reveal_strlit("\\n");
            assert(final(out)@ =~= old(out)@ + escaped_char(c));
        }
    } else if c == '\r' {
        out.append("\\r");
        proof {
            reveal_strlit("\\r");
            assert(final(out)@ =~= old(out)@ + escaped_char(c));
        }
    } else if c == '\t' {
        out.append("\\t");
        proof {
            reveal_strlit("\\t");
            assert(final(out)@ =~= old(out)@ + escaped_char(c));
        }
    } else {
        out.append("\\u00");
        out.append(crate::decimal::digit_lit(((code / 16) as u64)));
        out.append(hex_digit_lit((code % 16) as u64));
        proof {
            reveal_strlit("\\u00");
            assert(final(out)@ =~= old(out)@ + escaped_char(c));
        }
    }
}

fn hex_digit_lit(d: u64) -> (r: &'static str)
    requires
        d < 16,
    ensures
        r@ == seq![hex_digit(d as nat)],
{
    if d < 10 {
        crate::decimal::digit_lit(d)
    } else {
        let r: &'static str = match d {
            10 => "a",
            11 => "b",
            12 => "c",
            13 => "d",
            14 => "e",
            _ => "f",
        };
        proof {
            reveal_strlit("a");
            reveal_strlit("b");
            reveal_strlit("c");
            reveal_strlit("d");
            reveal_strlit("e");
            reveal_strlit("f");
            assert(r@ =~= seq![hex_digit(d as nat)]);
        }
        r
    }
}

/// Append a JSON string literal, quotes and escapes included.
fn push_json_string(s: &str, out: &mut String)
    ensures
        final(out)@ == old(out)@ + string_text(s@),
{
    out.append("\"");
    let n = s.unicode_len();
    let mut i: usize = 0;
    while i < n
        invariant
            i <= n,
            n == s@.len(),
            out@ == old(out)@ + "\""@ + escaped(s@.take(i as int)),
        decreases n - i,
    {
        let c = s.get_char(i);
        if c == '"' || c == '\\' || (c as u32) < 32 {
            push_escaped_char(c, out);
        } else {
            out.append(s.substring_char(i, i + 1));
            proof {
                assert(s@.subrange(i as int, i + 1) =~= seq![c]);
                assert(escaped_char(c) == seq![c]);
            }
        }
        proof {
            lemma_escaped_push(s@.take(i as int), c);
            assert(s@.take(i as int).push(c) =~= s@.take(i + 1));
        }
        i += 1;
    }
    out.append("\"");
    proof {
        reveal_strlit("\"");
        assert(s@.take(n as int) =~= s@);
        assert(final(out)@ =~= old(out)@ + string_text(s@));
    }
}

impl JsonValue {
    /// Append this value's exact rendering to `out`.
    #[verifier::loop_isolation(false)]
    #[verifier::rlimit(60)]
    pub fn write(&self, out: &mut String)
        ensures
            final(out)@ == old(out)@ + json_text(*self),
        decreases *self,
    {
        match self {
            JsonValue::Null => {
                out.append("null");
            },
            JsonValue::Bool(b) => {
                out.append(if *b { "true" } else { "false" });
            },
            JsonValue::Num(s) => {
                out.append(s.as_str());
            },
            JsonValue::Str(s) => {
                push_json_string(s.as_str(), out);
            },
            JsonValue::Arr(a) => {
                out.append("[");
                let mut i: usize = 0;
                while i < a.len()
                    invariant
                        i <= a@.len(),
                        out@ == old(out)@ + "["@ + items_text(a@.take(i as int)),
                    decreases a@.len() - i,
                {
                    if i > 0 {
                        out.append(",");
                    }
                    proof {
                        assert(decreases_to!(*self => (*self)->Arr_0));
                        assert(decreases_to!(a@ => a@[i as int]));
                    }
                    a[i].write(out);
                    proof {
                        reveal_strlit(",");
                        lemma_items_text_push(a@.take(i as int), a@[i as int]);
                        assert(a@.take(i as int).push(a@[i as int]) =~= a@.take(i + 1));
                        assert(out@ =~= old(out)@ + "["@ + items_text(a@.take(i + 1)));
                    }
                    i += 1;
                }
                out.append("]");
                proof {
                    reveal_strlit("[");
                    reveal_strlit("]");
                    assert(a@.take(a@.len() as int) =~= a@);
                    assert(final(out)@ =~= old(out)@ + json_text(*self));
                }
            },
            JsonValue::Obj(o) => {
                out.append("{");
                let mut i: usize = 0;
                while i < o.len()
                    invariant
                        i <= o@.len(),
                        out@ == old(out)@ + "{"@ + fields_text(o@.take(i as int)),
                    decreases o@.len() - i,
                {
                    if i > 0 {
                        out.append(",");
                    }
                    push_json_string(o[i].0.as_str(), out);
                    out.append(":");
                    proof {
                        assert(decreases_to!(*self => (*self)->Obj_0));
                        assert(decreases_to!(o@ => o@[i as int]));
                        assert(decreases_to!(o@[i as int] => o@[i as int].1));
                    }
                    o[i].1.write(out);
                    proof {
                        reveal_strlit(",");
                        reveal_strlit(":");
                        lemma_fields_text_push(
                            o@.take(i as int),
                            o@[i as int].0,
                            o@[i as int].1,
                        );
                        assert(o@.take(i as int).push((o@[i as int].0, o@[i as int].1)) =~= o@
                            .take(i + 1));
                        assert(out@ =~= old(out)@ + "{"@ + fields_text(o@.take(i + 1)));
                    }
                    i += 1;
                }
                out.append("}");
                proof {
                    reveal_strlit("{");
                    reveal_strlit("}");
                    assert(o@.take(o@.len() as int) =~= o@);
                    assert(final(out)@ =~= old(out)@ + json_text(*self));
                }
            },
        }
    }

    /// This value's exact rendering as a fresh string.
    pub fn to_text(&self) -> (r: String)
        ensures
            r@ == json_text(*self),
    {
        let mut out = String::new();
        self.write(&mut out);
        proof {
            assert(out@ =~= json_text(*self));
        }
        out
    }
}

/// The value of the first field with the given key, if any.
pub open spec fn lookup_field(fields: Seq<(String, JsonValue)>, key: Seq<char>) -> Option<
    JsonValue,
>
    decreases fields,
{
    if fields.len() == 0 {
        None
    } else if fields[0].0@ == key {
        Some(fields[0].1)
    } else {
        lookup_field(fields.drop_first(), key)
    }
}

/// The field a key names in an object; `None` on any other value.
pub open spec fn json_get(v: JsonValue, key: Seq<char>) -> Option<JsonValue> {
    match v {
        JsonValue::Obj(o) => lookup_field(o@, key),
        _ => None,
    }
}

/// Whether a character is a decimal digit.
pub open spec fn is_digit(c: char) -> bool {
    '0' <= c <= '9'
}

/// The value of one digit character.
pub open spec fn digit_val(c: char) -> nat {
    ((c as nat) - 48) as nat
}

/// Whether a text is one or more decimal digits.
pub open spec fn all_digits(s: Seq<char>) -> bool {
    s.len() >= 1 && forall|i: int| 0 <= i < s.len() ==> is_digit(s[i])
}

/// The number a digit text stands for.
pub open spec fn dec_value(s: Seq<char>) -> nat
    decreases s.len(),
{
    if s.len() == 0 {
        0
    } else {
        dec_value(s.drop_last()) * 10 + digit_val(s.last())
    }
}

/// Ten to the `n`.
pub open spec fn pow10(n: nat) -> nat
    decreases n,
{
    if n == 0 {
        1
    } else {
        10 * pow10((n - 1) as nat)
    }
}

/// A digit text of length `n` stands for a number below ten to the `n`.
pub proof fn lemma_dec_value_bound(s: Seq<char>)
    requires
        forall|i: int| 0 <= i < s.len() ==> is_digit(s[i]),
    ensures
        dec_value(s) < pow10(s.len()),
    decreases s.len(),
{
    if s.len() > 0 {
        lemma_dec_value_bound(s.drop_last());
        assert(digit_val(s.last()) <= 9);
    }
}

/// The number a `u64` integer literal of at most nineteen digits stands
/// for; longer or non-digit texts are refused.
pub open spec fn u64_of_digits(s: Seq<char>) -> Option<u64> {
    if all_digits(s) && s.len() <= 19 {
        Some(dec_value(s) as u64)
    } else {
        None
    }
}

/// The number a signed integer literal stands for: an optional minus
/// sign, then at most eighteen digits.
pub open spec fn i64_of_literal(s: Seq<char>) -> Option<i64> {
    if s.len() >= 1 && s[0] == '-' {
        let body = s.drop_first();
        if all_digits(body) && body.len() <= 18 {
            Some((-(dec_value(body) as int)) as i64)
        } else {
            None
        }
    } else if all_digits(s) && s.len() <= 18 {
        Some(dec_value(s) as i64)
    } else {
        None
    }
}

proof fn lemma_pow10_le(a: nat, b: nat)
    requires
        a <= b,
    ensures
        pow10(a) <= pow10(b),
    decreases b,
{
    if a < b {
        lemma_pow10_le(a, (b - 1) as nat);
        assert(pow10(b) == 10 * pow10((b - 1) as nat));
    }
}

proof fn lemma_pow10_19()
    ensures
        pow10(19) == 10000000000000000000,
        pow10(18) == 1000000000000000000,
        pow10(7) == 10000000,
{
    reveal_with_fuel(pow10, 20);
}

/// Read an unsigned decimal number of at most `max_len` digits.
#[verifier::loop_isolation(false)]
fn parse_digits(s: &str, max_len: usize) -> (r: Option<u64>)
    requires
        max_len <= 19,
    ensures
        r == if all_digits(s@) && s@.len() <= max_len {
            Some(dec_value(s@) as u64)
        } else {
            None::<u64>
        },
{
    let n = s.unicode_len();
    if n == 0 || n > max_len {
        return None;
    }
    let mut acc: u64 = 0;
    let mut i: usize = 0;
    proof {
        lemma_pow10_19();
    }
    while i < n
        invariant
            i <= n,
            forall|j: int| 0 <= j < i ==> is_digit(s@[j]),
            acc == dec_value(s@.take(i as int)),
            acc < pow10(i as nat),
        decreases n - i,
    {
        let c = s.get_char(i);
        if c < '0' || c > '9' {
            return None;
        }
        let d: u64 = (c as u32 - 48) as u64;
        proof {
            lemma_pow10_le((i + 1) as nat, 19);
            assert(acc * 10 + d < pow10((i + 1) as nat)) by {
                assert(pow10((i + 1) as nat) == 10 * pow10(i as nat));
                assert(acc * 10 + 9 < 10 * pow10(i as nat));
            };
        }
        acc = acc * 10 + d;
        proof {
            assert(s@.take(i + 1).drop_last() =~= s@.take(i as int));
            assert(s@.take(i + 1).last() == s@[i as int]);
        }
        i += 1;
    }
    proof {
        assert(s@.take(n as int) =~= s@);
    }
    Some(acc)
}

impl JsonValue {
    /// The field a key names, when this is an object that has it.
    #[verifier::loop_isolation(false)]
    pub fn get<'a>(&'a self, key: &str) -> (r: Option<&'a JsonValue>)
        ensures
            match r {
                Some(x) => json_get(*self, key@) == Some(*x),
                None => json_get(*self, key@) is None,
            },
    {
        match self {
            JsonValue::Obj(fields) => {
                proof {
                    assert(fields@.skip(0) =~= fields@);
                }
                let mut i: usize = 0;
                while i < fields.len()
                    invariant
                        i <= fields@.len(),
                        lookup_field(fields@, key@) == lookup_field(
                            fields@.skip(i as int),
                            key@,
                        ),
                    decreases fields@.len() - i,
                {
                    proof {
                        assert(fields@.skip(i as int)[0] == fields@[i as int]);
                        assert(fields@.skip(i as int).drop_first() =~= fields@.skip(i + 1));
                    }
                    if string_eq_lit(&fields[i].0, key) {
                        proof {
                            assert(lookup_field(fields@.skip(i as int), key@) == Some(
                                fields@[i as int].1,
                            ));
                        }
                        return Some(&fields[i].1);
                    }
                    i += 1;
                }
                proof {
                    assert(fields@.skip(fields@.len() as int) =~= Seq::<(
                        String,
                        JsonValue,
                    )>::empty());
                }
                None
            },
            _ => None,
        }
    }

    /// The number this value holds, when it is an unsigned integer
    /// literal of at most nineteen digits.
    pub fn as_u64(&self) -> (r: Option<u64>)
        ensures
            r == match *self {
                JsonValue::Num(s) => u64_of_digits(s@),
                _ => None::<u64>,
            },
    {
        match self {
            JsonValue::Num(s) => parse_digits(s.as_str(), 19),
            _ => None,
        }
    }

    /// The number this value holds, when it is an integer literal of at
    /// most eighteen digits, besides an optional minus sign.
    pub fn as_i64(&self) -> (r: Option<i64>)
        ensures
            r == match *self {
                JsonValue::Num(s) => i64_of_literal(s@),
                _ => None::<i64>,
            },
    {
        match self {
            JsonValue::Num(s) => {
                let str0 = s.as_str();
                let n = str0.unicode_len();
                if n >= 1 && str0.get_char(0) == '-' {
                    let body = str0.substring_char(1, n);
                    proof {
                        assert(body@ =~= str0@.drop_first());
                    }
                    match parse_digits(body, 18) {
                        Some(v) => {
                            proof {
                                lemma_dec_value_bound(body@);
                                lemma_pow10_le(body@.len() as nat, 18);
                                lemma_pow10_19();
                                assert(v < 1000000000000000000);
                            }
                            Some(-(v as i64))
                        },
                        None => None,
                    }
                } else {
                    proof {
                        if n == 0 {
                            assert(!all_digits(str0@));
                        }
                    }
                    match parse_digits(str0, 18) {
                        Some(v) => {
                            proof {
                                lemma_dec_value_bound(str0@);
                                lemma_pow10_le(str0@.len() as nat, 18);
                                lemma_pow10_19();
                                assert(v < 1000000000000000000);
                            }
                            Some(v as i64)
                        },
                        None => None,
                    }
                }
            },
            _ => None,
        }
    }

    /// The truth value this value holds, when it is a boolean.
    pub fn as_bool(&self) -> (r: Option<bool>)
        ensures
            r == match *self {
                JsonValue::Bool(b) => Some(b),
                _ => None::<bool>,
            },
    {
        match self {
            JsonValue::Bool(b) => Some(*b),
            _ => None,
        }
    }

    /// The text this value holds, when it is a string.
    pub fn as_string<'a>(&'a self) -> (r: Option<&'a String>)
        ensures
            match r {
                Some(s) => *self matches JsonValue::Str(x) && x == *s,
                None => !(*self matches JsonValue::Str(_)),
            },
    {
        match self {
            JsonValue::Str(s) => Some(s),
            _ => None,
        }
    }

    /// The items this value holds, when it is an array.
    pub fn as_array<'a>(&'a self) -> (r: Option<&'a Vec<JsonValue>>)
        ensures
            match r {
                Some(a) => *self matches JsonValue::Arr(x) && x == *a,
                None => !(*self matches JsonValue::Arr(_)),
            },
    {
        match self {
            JsonValue::Arr(a) => Some(a),
            _ => None,
        }
    }

    /// The opacity in micro-units this value's decimal literal stands
    /// for, sign included. Fractional digits beyond the sixth are
    /// dropped; exponent forms and over-long integer parts are refused.
    pub fn as_opacity_micro(&self) -> (r: Option<i64>)
        ensures
            r == match *self {
                JsonValue::Num(s) => micro_of_literal(s@),
                _ => None::<i64>,
            },
    {
        match self {
            JsonValue::Num(s) => {
                let str0 = s.as_str();
                let n = str0.unicode_len();
                if n >= 1 && str0.get_char(0) == '-' {
                    let body = str0.substring_char(1, n);
                    proof {
                        assert(body@ =~= str0@.drop_first());
                    }
                    proof {
                        lemma_micro_of_unsigned_bound(body@);
                    }
                    match micro_of_unsigned_text(body) {
                        Some(v) => Some(-v),
                        None => None,
                    }
                } else {
                    micro_of_unsigned_text(str0)
                }
            },
            _ => None,
        }
    }
}

/// The index of the first decimal point of a text, if any.
pub open spec fn find_dot(s: Seq<char>) -> Option<int>
    decreases s.len(),
{
    if s.len() == 0 {
        None
    } else if s[0] == '.' {
        Some(0int)
    } else {
        match find_dot(s.drop_first()) {
            Some(k) => Some(k + 1),
            None => None,
        }
    }
}

proof fn lemma_find_dot_at(s: Seq<char>, k: int)
    requires
        0 <= k < s.len(),
        s[k] == '.',
        forall|j: int| 0 <= j < k ==> s[j] != '.',
    ensures
        find_dot(s) == Some(k),
    decreases k,
{
    if k > 0 {
        lemma_find_dot_at(s.drop_first(), k - 1);
    }
}

proof fn lemma_find_dot_none(s: Seq<char>)
    requires
        forall|j: int| 0 <= j < s.len() ==> s[j] != '.',
    ensures
        find_dot(s) is None,
    decreases s.len(),
{
    if s.len() > 0 {
        lemma_find_dot_none(s.drop_first());
    }
}

/// The number of micro-units the fractional digits stand for: the first
/// six digits, scaled when fewer are given.
pub open spec fn frac_micro(fp: Seq<char>) -> nat {
    if fp.len() >= 6 {
        dec_value(fp.take(6))
    } else {
        dec_value(fp) * pow10((6 - fp.len()) as nat)
    }
}

/// The number of micro-units an unsigned decimal literal stands for:
/// up to seven integer digits, an optional point and fraction.
pub open spec fn micro_of_unsigned(s: Seq<char>) -> Option<int> {
    match find_dot(s) {
        None => if all_digits(s) && s.len() <= 7 {
            Some(dec_value(s) * 1000000 as int)
        } else {
            None
        },
        Some(k) => {
            let ip = s.take(k);
            let fp = s.skip(k + 1);
            if all_digits(ip) && ip.len() <= 7 && all_digits(fp) {
                Some(dec_value(ip) * 1000000 + frac_micro(fp) as int)
            } else {
                None
            }
        },
    }
}

/// The number of micro-units a signed decimal literal stands for.
pub open spec fn micro_of_literal(s: Seq<char>) -> Option<i64> {
    if s.len() >= 1 && s[0] == '-' {
        match micro_of_unsigned(s.drop_first()) {
            Some(v) => Some((-v) as i64),
            None => None,
        }
    } else {
        match micro_of_unsigned(s) {
            Some(v) => Some(v as i64),
            None => None,
        }
    }
}

proof fn lemma_micro_of_unsigned_bound(s: Seq<char>)
    ensures
        match micro_of_unsigned(s) {
            Some(v) => 0 <= v < 10000000000000,
            None => true,
        },
{
    lemma_pow10_small();
    match find_dot(s) {
        None => {
            if all_digits(s) && s.len() <= 7 {
                lemma_dec_value_bound(s);
                lemma_pow10_le(s.len(), 7);
            }
        },
        Some(k) => {
            let ip = s.take(k);
            let fp = s.skip(k + 1);
            if all_digits(ip) && ip.len() <= 7 && all_digits(fp) {
                lemma_dec_value_bound(ip);
                lemma_pow10_le(ip.len(), 7);
                if fp.len() >= 6 {
                    lemma_dec_value_bound(fp.take(6));
                } else {
                    lemma_dec_value_bound(fp);
                    lemma_pow10_le((6 - fp.len()) as nat, 6);
                    assert(dec_value(fp) * pow10((6 - fp.len()) as nat) < pow10(fp.len()) * pow10(
                        (6 - fp.len()) as nat,
                    )) by (nonlinear_arith)
                        requires
                            dec_value(fp) < pow10(fp.len()),
                            pow10((6 - fp.len()) as nat) >= 1,
                    ;
                    lemma_pow10_mul(fp.len(), (6 - fp.len()) as nat);
                }
            }
        },
    }
}

proof fn lemma_pow10_mul(a: nat, b: nat)
    ensures
        pow10(a) * pow10(b) == pow10(a + b),
    decreases a,
{
    if a > 0 {
        let a1 = (a - 1) as nat;
        lemma_pow10_mul(a1, b);
        assert(pow10(a1) * pow10(b) == pow10(a1 + b));
        assert(pow10(a) == 10 * pow10(a1));
        assert(pow10(a + b) == 10 * pow10((a + b - 1) as nat));
        assert((a + b - 1) as nat == a1 + b);
        assert(pow10(a) * pow10(b) == 10 * (pow10(a1) * pow10(b))) by (nonlinear_arith)
            requires
                pow10(a) == 10 * pow10(a1),
        ;
        assert(pow10(a) * pow10(b) == 10 * pow10(a1 + b));
        assert(pow10(a) * pow10(b) == pow10(a + b));
    } else {
        assert(pow10(a) == 1);
        assert(a + b == b);
        assert(pow10(a) * pow10(b) == pow10(a + b));
    }
}

proof fn lemma_pow10_small()
    ensures
        pow10(0) == 1,
        pow10(1) == 10,
        pow10(2) == 100,
        pow10(3) == 1000,
        pow10(4) == 10000,
        pow10(5) == 100000,
        pow10(6) == 1000000,
        pow10(7) == 10000000,
{
    reveal_with_fuel(pow10, 8);
}

/// Read an unsigned decimal literal as micro-units.
#[verifier::loop_isolation(false)]
fn micro_of_unsigned_text(s: &str) -> (r: Option<i64>)
    ensures
        r == match micro_of_unsigned(s@) {
            Some(v) => Some(v as i64),
            None => None::<i64>,
        },
        r matches Some(v) ==> 0 <= v < 10000000000000,
{
    proof {
        lemma_micro_of_unsigned_bound(s@);
        lemma_pow10_small();
    }
    let n = s.unicode_len();
    let mut dot: Option<usize> = None;
    let mut i: usize = 0;
    while i < n
        invariant
            i <= n,
            n == s@.len(),
            match dot {
                Some(k) => k < i && s@[k as int] == '.' && (forall|j: int|
                    0 <= j < k ==> s@[j] != '.'),
                None => forall|j: int| 0 <= j < i ==> s@[j] != '.',
            },
        decreases n - i,
    {
        if s.get_char(i) == '.' && dot.is_none() {
            dot = Some(i);
        }
        i += 1;
    }
    match dot {
        None => {
            proof {
                lemma_find_dot_none(s@);
            }
            match parse_digits(s, 7) {
                Some(v) => Some((v as i64) * 1000000),
                None => None,
            }
        },
        Some(k) => {
            proof {
                lemma_find_dot_at(s@, k as int);
            }
            let ip = s.substring_char(0, k);
            let fp = s.substring_char(k + 1, n);
            proof {
                assert(ip@ =~= s@.take(k as int));
                assert(fp@ =~= s@.skip(k + 1));
            }
            let ip_val = match parse_digits(ip, 7) {
                Some(v) => v,
                None => {
                    return None;
                },
            };
            let fn_len = fp.unicode_len();
            let mut j: usize = 0;
            while j < fn_len
                invariant
                    j <= fn_len,
                    fn_len == fp@.len(),
                    forall|t: int| 0 <= t < j ==> is_digit(fp@[t]),
                decreases fn_len - j,
            {
                let c = fp.get_char(j);
                if c < '0' || c > '9' {
                    return None;
                }
                j += 1;
            }
            if fn_len == 0 {
                return None;
            }
            let frac: u64 = if fn_len >= 6 {
                let head = fp.substring_char(0, 6);
                proof {
                    assert(head@ =~= fp@.take(6));
                }
                match parse_digits(head, 6) {
                    Some(v) => v,
                    None => {
                        proof {
                            assert(all_digits(fp@.take(6)));
                        }
                        return None;
                    },
                }
            } else {
                let digits = match parse_digits(fp, 6) {
                    Some(v) => v,
                    None => {
                        return None;
                    },
                };
                let scale: u64 = match fn_len {
                    1 => 100000,
                    2 => 10000,
                    3 => 1000,
                    4 => 100,
                    _ => 10,
                };
                proof {
                    assert(scale == pow10((6 - fp@.len()) as nat));
                    lemma_dec_value_bound(fp@);
                    lemma_pow10_le(fp@.len(), 5);
                    lemma_pow10_mul(fp@.len(), (6 - fp@.len()) as nat);
                    assert(digits * scale < 1000000) by (nonlinear_arith)
                        requires
                            digits < pow10(fp@.len() as nat),
                            scale == pow10((6 - fp@.len()) as nat),
                            fp@.len() >= 1,
                            pow10(fp@.len() as nat) * pow10((6 - fp@.len()) as nat) == 1000000,
                    ;
                }
                digits * scale
            };
            proof {
                lemma_dec_value_bound(ip@);
                lemma_pow10_le(ip@.len(), 7);
            }
            Some((ip_val as i64) * 1000000 + (frac as i64))
        },
    }
}


impl JsonValue {
    /// A copy of this value that holds the same document.
    #[verifier::loop_isolation(false)]
    pub fn duplicate(&self) -> (r: JsonValue)
        ensures
            same_json(r, *self),
        decreases *self,
    {
        match self {
            JsonValue::Null => JsonValue::Null,
            JsonValue::Bool(b) => JsonValue::Bool(*b),
            JsonValue::Num(s) => JsonValue::Num(s.clone()),
            JsonValue::Str(s) => JsonValue::Str(s.clone()),
            JsonValue::Arr(a) => {
                let mut items: Vec<JsonValue> = Vec::new();
                let mut i: usize = 0;
                while i < a.len()
                    invariant
                        i <= a@.len(),
                        items@.len() == i,
                        forall|j: int| 0 <= j < i ==> same_json(#[trigger] items@[j], a@[j]),
                    decreases a@.len() - i,
                {
                    proof {
                        assert(decreases_to!(*self => (*self)->Arr_0));
                        assert(decreases_to!(a@ => a@[i as int]));
                    }
                    items.push(a[i].duplicate());
                    i += 1;
                }
                JsonValue::Arr(items)
            },
            JsonValue::Obj(o) => {
                let mut fields: Vec<(String, JsonValue)> = Vec::new();
                let mut i: usize = 0;
                while i < o.len()
                    invariant
                        i <= o@.len(),
                        fields@.len() == i,
                        forall|j: int| 0 <= j < i ==> (#[trigger] fields@[j]).0@ == o@[j].0@
                            && same_json(fields@[j].1, o@[j].1),
                    decreases o@.len() - i,
                {
                    proof {
                        assert(decreases_to!(*self => (*self)->Obj_0));
                        assert(decreases_to!(o@ => o@[i as int]));
                        assert(decreases_to!(o@[i as int] => o@[i as int].1));
                    }
                    fields.push((o[i].0.clone(), o[i].1.duplicate()));
                    i += 1;
                }
                JsonValue::Obj(fields)
            },
        }
    }
}


/// The JSON document a byte sequence holds, in the crate's model, or
/// nothing when the bytes are not one valid document. Which it is is a
/// function of the bytes alone.
pub uninterp spec fn json_of(bytes: Seq<u8>) -> Option<JsonValue>;

/// The text that one parsed serde_json node renders to.
pub uninterp spec fn value_text(v: serde_json::Value) -> Seq<char>;

#[verifier::external_type_specification]
#[verifier::external_body]
pub struct ExSerdeValue(serde_json::Value);

/// Relies on serde_json::Value's public variants: rebuilds one parsed
/// node, and the nodes under it, in the crate's own model. Numbers keep
/// their literal (serde_json's arbitrary-precision form), object fields
/// their order (its order-preserving map).
#[verifier::external_body]
fn value_to_model(v: &serde_json::Value) -> (r: JsonValue)
    ensures
        json_text(r) == value_text(*v),
{
    match v {
        serde_json::Value::Null => JsonValue::Null,
        serde_json::Value::Bool(b) => JsonValue::Bool(*b),
        serde_json::Value::Number(n) => JsonValue::Num(n.as_str().to_owned()),
        serde_json::Value::String(s) => JsonValue::Str(s.clone()),
        serde_json::Value::Array(a) => JsonValue::Arr(a.iter().map(value_to_model).collect()),
        serde_json::Value::Object(o) => JsonValue::Obj(
            o.iter().map(|(k, x)| (k.clone(), value_to_model(x))).collect(),
        ),
    }
}

/// Relies on serde_json::from_slice: whether a byte sequence is one
/// valid JSON document, and which, is a function of the bytes alone.
#[verifier::external_body]
pub fn parse_json(data: &[u8]) -> (r: Option<JsonValue>)
    ensures
        r == json_of(data@),
{
    serde_json::from_slice::<serde_json::Value>(data).ok().map(|v| value_to_model(&v))
}

/// Whether two JSON values hold the same document: equal variants, equal
/// texts and numbers, items and fields equal in order.
pub open spec fn same_json(a: JsonValue, b: JsonValue) -> bool
    decreases a,
{
    match (a, b) {
        (JsonValue::Null, JsonValue::Null) => true,
        (JsonValue::Bool(x), JsonValue::Bool(y)) => x == y,
        (JsonValue::Num(x), JsonValue::Num(y)) => x@ == y@,
        (JsonValue::Str(x), JsonValue::Str(y)) => x@ == y@,
        (JsonValue::Arr(x), JsonValue::Arr(y)) => x@.len() == y@.len() && (forall|i: int|
            0 <= i < x@.len() ==> same_json(#[trigger] x@[i], y@[i])),
        (JsonValue::Obj(x), JsonValue::Obj(y)) => x@.len() == y@.len() && (forall|i: int|
            0 <= i < x@.len() ==> (#[trigger] x@[i]).0@ == y@[i].0@ && same_json(x@[i].1, y@[i].1)),
        _ => false,
    }
}

/// Every value holds the same document as itself.
pub proof fn lemma_same_json_reflexive(a: JsonValue)
    ensures
        same_json(a, a),
    decreases a,
{
    match a {
        JsonValue::Arr(x) => {
            assert forall|i: int| 0 <= i < x@.len() implies same_json(#[trigger] x@[i], x@[i]) by {
                lemma_same_json_reflexive(x@[i]);
            };
        },
        JsonValue::Obj(x) => {
            assert forall|i: int| 0 <= i < x@.len() implies (#[trigger] x@[i]).0@ == x@[i].0@
                && same_json(x@[i].1, x@[i].1) by {
                lemma_same_json_reflexive(x@[i].1);
            };
        },
        _ => {},
    }
}

/// Values that hold the same document render to the same text.
pub proof fn lemma_same_json_text(a: JsonValue, b: JsonValue)
    requires
        same_json(a, b),
    ensures
        json_text(a) == json_text(b),
    decreases a,
{
    match (a, b) {
        (JsonValue::Arr(x), JsonValue::Arr(y)) => {
            lemma_same_items_text(x@, y@);
        },
        (JsonValue::Obj(x), JsonValue::Obj(y)) => {
            lemma_same_fields_text(x@, y@);
        },
        _ => {},
    }
}

proof fn lemma_same_items_text(x: Seq<JsonValue>, y: Seq<JsonValue>)
    requires
        x.len() == y.len(),
        forall|i: int| 0 <= i < x.len() ==> same_json(#[trigger] x[i], y[i]),
    ensures
        items_text(x) == items_text(y),
    decreases x,
{
    if x.len() > 0 {
        lemma_same_json_text(x[0], y[0]);
        if x.len() > 1 {
            assert(forall|i: int|
                0 <= i < x.drop_first().len() ==> same_json(
                    #[trigger] x.drop_first()[i],
                    y.drop_first()[i],
                ));
            lemma_same_items_text(x.drop_first(), y.drop_first());
        }
    }
}

proof fn lemma_same_fields_text(x: Seq<(String, JsonValue)>, y: Seq<(String, JsonValue)>)
    requires
        x.len() == y.len(),
        forall|i: int| 0 <= i < x.len() ==> (#[trigger] x[i]).0@ == y[i].0@ && same_json(
            x[i].1,
            y[i].1,
        ),
    ensures
        fields_text(x) == fields_text(y),
    decreases x,
{
    if x.len() > 0 {
        lemma_same_json_text(x[0].1, y[0].1);
        if x.len() > 1 {
            assert(forall|i: int|
                0 <= i < x.drop_first().len() ==> (#[trigger] x.drop_first()[i]).0@
                    == y.drop_first()[i].0@ && same_json(x.drop_first()[i].1, y.drop_first()[i].1));
            lemma_same_fields_text(x.drop_first(), y.drop_first());
        }
    }
}

} // verus!
