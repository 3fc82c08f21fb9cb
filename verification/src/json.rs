//! The JSON documents the wire protocol exchanges: a document tree, its
//! mathematical model, field lookup, and a serializer with an exact
//! character-level specification.
//!
//! Numbers are kept as their literal text: the protocol core never computes
//! with them, it only validates and forwards them.

use vstd::prelude::*;

verus! {

/// Mathematical model of a JSON document.
pub enum JsonModel {
    Null,
    Bool(bool),
    Num(Seq<char>),
    Str(Seq<char>),
    Arr(Seq<JsonModel>),
    Obj(Seq<(Seq<char>, JsonModel)>),
}

/// A JSON document. Object members keep their textual order; a duplicated
/// key is kept too, and lookup returns the last occurrence.
pub enum JsonValue {
    Null,
    Bool(bool),
    Num(String),
    Str(String),
    Arr(Vec<JsonValue>),
    Obj(Vec<(String, JsonValue)>),
}

/// The model of a document tree.
pub open spec fn value_model(v: JsonValue) -> JsonModel
    decreases v,
{
    match v {
        JsonValue::Null => JsonModel::Null,
        JsonValue::Bool(b) => JsonModel::Bool(b),
        JsonValue::Num(s) => JsonModel::Num(s@),
        JsonValue::Str(s) => JsonModel::Str(s@),
        JsonValue::Arr(items) => JsonModel::Arr(values_model(items@)),
        JsonValue::Obj(pairs) => JsonModel::Obj(members_model(pairs@)),
    }
}

/// The models of the elements of an array, in order.
pub open spec fn values_model(items: Seq<JsonValue>) -> Seq<JsonModel>
    decreases items,
{
    if items.len() == 0 {
        Seq::empty()
    } else {
        values_model(items.drop_last()).push(value_model(items.last()))
    }
}

/// The models of the members of an object, in order.
pub open spec fn members_model(pairs: Seq<(String, JsonValue)>) -> Seq<(Seq<char>, JsonModel)>
    decreases pairs,
{
    if pairs.len() == 0 {
        Seq::empty()
    } else {
        members_model(pairs.drop_last()).push(
            (pairs.last().0@, value_model(pairs.last().1)),
        )
    }
}

impl View for JsonValue {
    type V = JsonModel;

    open spec fn view(&self) -> JsonModel {
        value_model(*self)
    }
}

/// An array's model has one element per item, the item's model.
pub proof fn lemma_values_model_index(items: Seq<JsonValue>)
    ensures
        values_model(items).len() == items.len(),
        forall|i: int|
            0 <= i < items.len() ==> values_model(items)[i] == value_model(#[trigger] items[i]),
    decreases items.len(),
{
    if items.len() > 0 {
        lemma_values_model_index(items.drop_last());
        assert forall|i: int| 0 <= i < items.len() implies values_model(items)[i] == value_model(
            #[trigger] items[i],
        ) by {
            if i < items.len() - 1 {
                assert(items.drop_last()[i] == items[i]);
            }
        }
    }
}

/// An object's model has one member per member, key and value modelled.
pub proof fn lemma_members_model_index(pairs: Seq<(String, JsonValue)>)
    ensures
        members_model(pairs).len() == pairs.len(),
        forall|i: int|
            0 <= i < pairs.len() ==> members_model(pairs)[i] == (
                (#[trigger] pairs[i]).0@,
                value_model(pairs[i].1),
            ),
    decreases pairs.len(),
{
    if pairs.len() > 0 {
        lemma_members_model_index(pairs.drop_last());
        assert forall|i: int| 0 <= i < pairs.len() implies members_model(pairs)[i] == (
            (#[trigger] pairs[i]).0@,
            value_model(pairs[i].1),
        ) by {
            if i < pairs.len() - 1 {
                assert(pairs.drop_last()[i] == pairs[i]);
            }
        }
    }
}

/// The last member of `pairs` named `key`, if any: a later duplicate of a
/// key shadows an earlier one, as it does in the reference JSON libraries.
pub open spec fn spec_member_lookup(
    pairs: Seq<(Seq<char>, JsonModel)>,
    key: Seq<char>,
) -> Option<JsonModel>
    decreases pairs.len(),
{
    if pairs.len() == 0 {
        Option::None
    } else if pairs.last().0 == key {
        Option::Some(pairs.last().1)
    } else {
        spec_member_lookup(pairs.drop_last(), key)
    }
}

/// Field lookup on a document: the last member named `key` of an object,
/// nothing on any other kind of document.
pub open spec fn spec_get(v: JsonModel, key: Seq<char>) -> Option<JsonModel> {
    match v {
        JsonModel::Obj(pairs) => spec_member_lookup(pairs, key),
        _ => Option::None,
    }
}

impl JsonValue {
    /// Look a field up by key; `None` unless `self` is an object with that key.
    pub fn get<'a>(&'a self, key: &String) -> (r: Option<&'a JsonValue>)
        ensures
            match r {
                Option::Some(f) => spec_get(self@, key@) == Option::Some(f@),
                Option::None => spec_get(self@, key@) is None,
            },
    {
        match self {
            JsonValue::Obj(pairs) => {
                let ghost all = members_model(pairs@);
                proof {
                    lemma_members_model_index(pairs@);
                    assert(all.take(pairs@.len() as int) =~= all);
                }
                let mut i = pairs.len();
                while i > 0
                    invariant
                        i <= pairs.len(),
                        all == members_model(pairs@),
                        all.len() == pairs@.len(),
                        forall|j: int|
                            0 <= j < pairs@.len() ==> all[j] == (
                                (#[trigger] pairs@[j]).0@,
                                value_model(pairs@[j].1),
                            ),
                        spec_get(self@, key@) == spec_member_lookup(all.take(i as int), key@),
                    decreases i,
                {
                    i = i - 1;
                    proof {
                        assert(all.take(i as int + 1).drop_last() =~= all.take(i as int));
                        assert(all.take(i as int + 1).last() == all[i as int]);
                    }
                    if pairs[i].0 == *key {
                        return Option::Some(&pairs[i].1);
                    }
                }
                proof {
                    assert(all.take(0) =~= Seq::<(Seq<char>, JsonModel)>::empty());
                }
                Option::None
            },
            _ => Option::None,
        }
    }

    /// Serialize this document, appending nothing but `spec_ser(self@)`.
    pub fn to_json_string(&self) -> (r: String)
        ensures
            r@ == spec_ser(self@),
    {
        let mut out = String::new();
        write_json(&mut out, self);
        proof {
            assert(Seq::<char>::empty() + spec_ser(self@) =~= spec_ser(self@));
        }
        out
    }

    /// The string a text field holds; `None` unless `self` is a string.
    pub fn as_str<'a>(&'a self) -> (r: Option<&'a String>)
        ensures
            match r {
                Option::Some(s) => self@ == JsonModel::Str(s@),
                Option::None => !(self@ is Str),
            },
    {
        match self {
            JsonValue::Str(s) => Option::Some(s),
            _ => Option::None,
        }
    }
}

/// Relies on String::push: appends one character at the end of the string.
#[verifier::external_body]
pub(crate) fn push_char(s: &mut String, c: char)
    ensures
        final(s)@ == old(s)@.push(c),
{
    s.push(c);
}

/// The character for one digit value below sixteen, lower case.
pub open spec fn spec_hex_digit(n: int) -> char {
    if n < 10 {
        ((48 + n) as u8) as char
    } else {
        ((87 + n) as u8) as char
    }
}

/// How one character is written inside a JSON string: quote, backslash and
/// the named control characters get a two-character escape, any other
/// control character a `\u00..` escape, and everything else stands as it is.
pub open spec fn spec_escape_char(c: char) -> Seq<char> {
    if c == '"' {
        seq!['\\', '"']
    } else if c == '\\' {
        seq!['\\', '\\']
    } else if c == '\u{8}' {
        seq!['\\', 'b']
    } else if c == '\u{c}' {
        seq!['\\', 'f']
    } else if c == '\n' {
        seq!['\\', 'n']
    } else if c == '\r' {
        seq!['\\', 'r']
    } else if c == '\t' {
        seq!['\\', 't']
    } else if (c as u32) < 0x20 {
        seq!['\\', 'u', '0', '0', spec_hex_digit(c as u32 as int / 16), spec_hex_digit(
            c as u32 as int % 16,
        )]
    } else {
        seq![c]
    }
}

/// A string's characters, each escaped as `spec_escape_char` says.
pub open spec fn spec_escape_string(s: Seq<char>) -> Seq<char>
    decreases s.len(),
{
    if s.len() == 0 {
        Seq::empty()
    } else {
        spec_escape_string(s.drop_last()) + spec_escape_char(s.last())
    }
}

/// The serialized text of a document: no whitespace, members and elements
/// in order, separated by commas; strings quoted and escaped; numbers as
/// their literal text.
pub open spec fn spec_ser(v: JsonModel) -> Seq<char>
    decreases v,
{
    match v {
        JsonModel::Null => "null"@,
        JsonModel::Bool(b) => if b {
            "true"@
        } else {
            "false"@
        },
        JsonModel::Num(raw) => raw,
        JsonModel::Str(s) => seq!['"'] + spec_escape_string(s) + seq!['"'],
        JsonModel::Arr(items) => seq!['['] + spec_ser_items(items) + seq![']'],
        JsonModel::Obj(pairs) => seq!['{'] + spec_ser_members(pairs) + seq!['}'],
    }
}

/// The serialized elements of an array, comma-separated.
pub open spec fn spec_ser_items(items: Seq<JsonModel>) -> Seq<char>
    decreases items,
{
    if items.len() == 0 {
        Seq::empty()
    } else if items.len() == 1 {
        spec_ser(items.last())
    } else {
        spec_ser_items(items.drop_last()) + seq![','] + spec_ser(items.last())
    }
}

/// The serialized members of an object, `"key":value`, comma-separated.
pub open spec fn spec_ser_members(pairs: Seq<(Seq<char>, JsonModel)>) -> Seq<char>
    decreases pairs,
{
    if pairs.len() == 0 {
        Seq::empty()
    } else {
        let one = seq!['"'] + spec_escape_string(pairs.last().0) + seq!['"', ':'] + spec_ser(
            pairs.last().1,
        );
        if pairs.len() == 1 {
            one
        } else {
            spec_ser_members(pairs.drop_last()) + seq![','] + one
        }
    }
}

/// Append the escaped characters of `s` to `out`.
fn write_escaped(out: &mut String, s: &String)
    ensures
        final(out)@ == old(out)@ + spec_escape_string(s@),
{
    let st = s.as_str();
    let n = st.unicode_len();
    let mut i: usize = 0;
    proof {
        assert(s@.take(0) =~= Seq::<char>::empty());
        assert(old(out)@ + Seq::<char>::empty() =~= old(out)@);
    }
    while i < n
        invariant
            i <= n,
            n == s@.len(),
            st@ == s@,
            out@ == old(out)@ + spec_escape_string(s@.take(i as int)),
        decreases n - i,
    {
        let c = st.get_char(i);
        proof {
            assert(s@.take(i as int + 1).drop_last() =~= s@.take(i as int));
            assert(s@.take(i as int + 1).last() == s@[i as int]);
        }
        if c == '"' {
            push_char(out, '\\');
            push_char(out, '"');
        } else if c == '\\' {
            push_char(out, '\\');
            push_char(out, '\\');
        } else if c == '\u{8}' {
            push_char(out, '\\');
            push_char(out, 'b');
        } else if c == '\u{c}' {
            push_char(out, '\\');
            push_char(out, 'f');
        } else if c == '\n' {
            push_char(out, '\\');
            push_char(out, 'n');
        } else if c == '\r' {
            push_char(out, '\\');
            push_char(out, 'r');
        } else if c == '\t' {
            push_char(out, '\\');
            push_char(out, 't');
        } else if (c as u32) < 0x20 {
            let code = c as u32;
            push_char(out, '\\');
            push_char(out, 'u');
            push_char(out, '0');
            push_char(out, '0');
            push_char(out, hex_digit((code / 16) as u8));
            push_char(out, hex_digit((code % 16) as u8));
        } else {
            push_char(out, c);
        }
        proof {
            assert(out@ =~= old(out)@ + spec_escape_string(s@.take(i as int + 1)));
        }
        i = i + 1;
    }
    proof {
        assert(s@.take(n as int) =~= s@);
    }
}

/// The character for one digit value below sixteen, lower case.
fn hex_digit(n: u8) -> (c: char)
    requires
        n < 16,
    ensures
        c == spec_hex_digit(n as int),
{
    if n < 10 {
        (48 + n) as char
    } else {
        (87 + n) as char
    }
}

/// Append the serialized text of `v` to `out`.
pub fn write_json(out: &mut String, v: &JsonValue)
    ensures
        final(out)@ == old(out)@ + spec_ser(v@),
    decreases *v,
{
    match v {
        JsonValue::Null => {
            out.append("null");
        },
        JsonValue::Bool(b) => {
            if *b {
                out.append("true");
            } else {
                out.append("false");
            }
        },
        JsonValue::Num(raw) => {
            out.append(raw.as_str());
        },
        JsonValue::Str(s) => {
            push_char(out, '"');
            write_escaped(out, s);
            push_char(out, '"');
            proof {
                assert(out@ =~= old(out)@ + spec_ser(v@));
            }
        },
        JsonValue::Arr(items) => {
            push_char(out, '[');
            write_items(out, items);
            push_char(out, ']');
            proof {
                assert(out@ =~= old(out)@ + spec_ser(v@));
            }
        },
        JsonValue::Obj(pairs) => {
            push_char(out, '{');
            write_members(out, pairs);
            push_char(out, '}');
            proof {
                assert(out@ =~= old(out)@ + spec_ser(v@));
            }
        },
    }
}

/// Append the comma-separated elements of an array to `out`.
fn write_items(out: &mut String, items: &Vec<JsonValue>)
    ensures
        final(out)@ == old(out)@ + spec_ser_items(values_model(items@)),
    decreases *items,
{
    let ghost m = values_model(items@);
    proof {
        lemma_values_model_index(items@);
        assert(m.take(0) =~= Seq::<JsonModel>::empty());
        assert(old(out)@ + Seq::<char>::empty() =~= old(out)@);
    }
    let n = items.len();
    let mut i: usize = 0;
    while i < n
        invariant
            i <= n,
            n == items@.len(),
            m == values_model(items@),
            m.len() == n,
            forall|j: int| 0 <= j < n ==> m[j] == value_model(#[trigger] items@[j]),
            out@ == old(out)@ + spec_ser_items(m.take(i as int)),
        decreases n - i,
    {
        proof {
            assert(m.take(i as int + 1).drop_last() =~= m.take(i as int));
            assert(m.take(i as int + 1).last() == m[i as int]);
        }
        if i > 0 {
            push_char(out, ',');
        }
        proof {
            assert(decreases_to!(*items => items@));
            assert(decreases_to!(items@ => items@[i as int]));
        }
        write_json(out, &items[i]);
        proof {
            assert(out@ =~= old(out)@ + spec_ser_items(m.take(i as int + 1)));
        }
        i = i + 1;
    }
    proof {
        assert(m.take(n as int) =~= m);
    }
}

/// Append the comma-separated members of an object to `out`.
fn write_members(out: &mut String, pairs: &Vec<(String, JsonValue)>)
    ensures
        final(out)@ == old(out)@ + spec_ser_members(members_model(pairs@)),
    decreases *pairs,
{
    let ghost m = members_model(pairs@);
    proof {
        lemma_members_model_index(pairs@);
        assert(m.take(0) =~= Seq::<(Seq<char>, JsonModel)>::empty());
        assert(old(out)@ + Seq::<char>::empty() =~= old(out)@);
    }
    let n = pairs.len();
    let mut i: usize = 0;
    while i < n
        invariant
            i <= n,
            n == pairs@.len(),
            m == members_model(pairs@),
            m.len() == n,
            forall|j: int|
                0 <= j < n ==> m[j] == ((#[trigger] pairs@[j]).0@, value_model(pairs@[j].1)),
            out@ == old(out)@ + spec_ser_members(m.take(i as int)),
        decreases n - i,
    {
        proof {
            assert(m.take(i as int + 1).drop_last() =~= m.take(i as int));
            assert(m.take(i as int + 1).last() == m[i as int]);
        }
        if i > 0 {
            push_char(out, ',');
        }
        push_char(out, '"');
        write_escaped(out, &pairs[i].0);
        push_char(out, '"');
        push_char(out, ':');
        proof {
            assert(decreases_to!(*pairs => pairs@));
            assert(decreases_to!(pairs@ => pairs@[i as int]));
        }
        write_json(out, &pairs[i].1);
        proof {
            assert(out@ =~= old(out)@ + spec_ser_members(m.take(i as int + 1)));
        }
        i = i + 1;
    }
    proof {
        assert(m.take(n as int) =~= m);
    }
}

/// The decimal text of a natural number, most significant digit first.
pub open spec fn spec_dec(n: nat) -> Seq<char>
    decreases n,
{
    if n < 10 {
        seq![spec_hex_digit(n as int)]
    } else {
        spec_dec(n / 10).push(spec_hex_digit((n % 10) as int))
    }
}

/// Append the decimal text of `n` to `out`.
fn push_u64(out: &mut String, n: u64)
    ensures
        final(out)@ == old(out)@ + spec_dec(n as nat),
    decreases n,
{
    if n < 10 {
        push_char(out, hex_digit(n as u8));
    } else {
        push_u64(out, n / 10);
        push_char(out, hex_digit((n % 10) as u8));
    }
}

/// The decimal text of `n`.
pub fn u64_string(n: u64) -> (r: String)
    ensures
        r@ == spec_dec(n as nat),
{
    let mut out = String::new();
    push_u64(&mut out, n);
    proof {
        assert(Seq::<char>::empty() + spec_dec(n as nat) =~= spec_dec(n as nat));
    }
    out
}

} // verus!
