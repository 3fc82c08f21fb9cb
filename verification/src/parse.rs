//! The JSON reader for the wire protocol: a recursive-descent grammar stated
//! over character sequences, and an executable parser proved to return
//! exactly what the grammar derives.
//!
//! The grammar bounds the depth of a derivation with a recursion budget of
//! twice the text length and a margin, and the parser runs on the same
//! budget, so the two agree on every text.

use vstd::prelude::*;

use crate::json::JsonModel;
use crate::json::JsonValue;
use crate::json::members_model;
use crate::json::value_model;
use crate::json::values_model;
use crate::json::push_char;

verus! {

/// Texts longer than this are rejected outright.
pub const MAX_JSON_LEN: usize = 0x100_0000;

/// The recursion budget the grammar gets for a text of `n` characters.
pub open spec fn spec_json_fuel(n: nat) -> nat {
    2 * n + 16
}

/// JSON insignificant whitespace.
pub open spec fn spec_is_ws(c: char) -> bool {
    c == ' ' || c == '\t' || c == '\n' || c == '\r'
}

/// An ASCII decimal digit.
pub open spec fn spec_is_digit(c: char) -> bool {
    48 <= (c as u32) <= 57
}

/// The first position at or after `i` that does not hold whitespace.
pub open spec fn spec_skip_ws(s: Seq<char>, i: int) -> int
    decreases s.len() - i,
{
    if 0 <= i < s.len() && spec_is_ws(s[i]) {
        spec_skip_ws(s, i + 1)
    } else {
        i
    }
}

/// The value of one hexadecimal digit, upper or lower case.
pub open spec fn spec_hex_val(c: char) -> Option<u32> {
    let v = c as u32;
    if 48 <= v <= 57 {
        Option::Some((v - 48) as u32)
    } else if 97 <= v <= 102 {
        Option::Some((v - 87) as u32)
    } else if 65 <= v <= 70 {
        Option::Some((v - 55) as u32)
    } else {
        Option::None
    }
}

/// The value of the four hexadecimal digits at `i`, if they are there.
pub open spec fn spec_hex4(s: Seq<char>, i: int) -> Option<u32> {
    if i + 4 <= s.len() {
        match (spec_hex_val(s[i]), spec_hex_val(s[i + 1]), spec_hex_val(s[i + 2]), spec_hex_val(
            s[i + 3],
        )) {
            (Option::Some(a), Option::Some(b), Option::Some(c), Option::Some(d)) => Option::Some(
                (((a * 16 + b) * 16 + c) * 16 + d) as u32,
            ),
            _ => Option::None,
        }
    } else {
        Option::None
    }
}

/// String contents from `i` (just inside the opening quote) to the closing
/// quote: the decoded characters so far are in `acc`. Unescaped control
/// characters and malformed or lone-surrogate escapes derive nothing.
pub open spec fn spec_parse_string(s: Seq<char>, i: int, acc: Seq<char>) -> Option<
    (Seq<char>, int),
>
    decreases s.len() - i, 1int,
{
    if i < 0 || i >= s.len() {
        Option::None
    } else {
        let c = s[i];
        if c == '"' {
            Option::Some((acc, i + 1))
        } else if c == '\\' {
            spec_parse_escape(s, i + 1, acc)
        } else if (c as u32) < 0x20 {
            Option::None
        } else {
            spec_parse_string(s, i + 1, acc.push(c))
        }
    }
}

/// One escape, `i` standing just after the backslash. A `\u` escape of a
/// high surrogate must be followed by a `\u` escape of a low surrogate; the
/// pair decodes to one supplementary character.
pub open spec fn spec_parse_escape(s: Seq<char>, i: int, acc: Seq<char>) -> Option<
    (Seq<char>, int),
>
    decreases s.len() - i, 0int,
{
    if i < 0 || i >= s.len() {
        Option::None
    } else {
        let c = s[i];
        if c == '"' {
            spec_parse_string(s, i + 1, acc.push('"'))
        } else if c == '\\' {
            spec_parse_string(s, i + 1, acc.push('\\'))
        } else if c == '/' {
            spec_parse_string(s, i + 1, acc.push('/'))
        } else if c == 'b' {
            spec_parse_string(s, i + 1, acc.push('\u{8}'))
        } else if c == 'f' {
            spec_parse_string(s, i + 1, acc.push('\u{c}'))
        } else if c == 'n' {
            spec_parse_string(s, i + 1, acc.push('\n'))
        } else if c == 'r' {
            spec_parse_string(s, i + 1, acc.push('\r'))
        } else if c == 't' {
            spec_parse_string(s, i + 1, acc.push('\t'))
        } else if c == 'u' {
            match spec_hex4(s, i + 1) {
                Option::Some(hi) => if 0xD800 <= hi < 0xDC00 {
                    if i + 7 + 4 <= s.len() && s[i + 5] == '\\' && s[i + 6] == 'u' {
                        match spec_hex4(s, i + 7) {
                            Option::Some(lo) => if 0xDC00 <= lo < 0xE000 {
                                let code = 0x10000 + (hi - 0xD800) * 0x400 + (lo - 0xDC00);
                                spec_parse_string(s, i + 11, acc.push(code as u32 as char))
                            } else {
                                Option::None
                            },
                            Option::None => Option::None,
                        }
                    } else {
                        Option::None
                    }
                } else if 0xDC00 <= hi < 0xE000 {
                    Option::None
                } else {
                    spec_parse_string(s, i + 5, acc.push(hi as char))
                },
                Option::None => Option::None,
            }
        } else {
            Option::None
        }
    }
}

/// The end of the run of digits starting at `i`.
pub open spec fn spec_digits_end(s: Seq<char>, i: int) -> int
    decreases s.len() - i,
{
    if 0 <= i < s.len() && spec_is_digit(s[i]) {
        spec_digits_end(s, i + 1)
    } else {
        i
    }
}

/// The end of the fraction part standing at `j`, if it is well formed;
/// `j` itself when there is none.
pub open spec fn spec_frac_end(s: Seq<char>, j: int) -> Option<int> {
    if 0 <= j < s.len() && s[j] == '.' {
        let d = spec_digits_end(s, j + 1);
        if d > j + 1 {
            Option::Some(d)
        } else {
            Option::None
        }
    } else {
        Option::Some(j)
    }
}

/// The end of the exponent part standing at `j`, if it is well formed;
/// `j` itself when there is none.
pub open spec fn spec_exp_end(s: Seq<char>, j: int) -> Option<int> {
    if 0 <= j < s.len() && (s[j] == 'e' || s[j] == 'E') {
        let k = if j + 1 < s.len() && (s[j + 1] == '+' || s[j + 1] == '-') {
            j + 2
        } else {
            j + 1
        };
        let d = spec_digits_end(s, k);
        if d > k {
            Option::Some(d)
        } else {
            Option::None
        }
    } else {
        Option::Some(j)
    }
}

/// The end of the number starting at `i`: an optional minus sign, an
/// integer part without leading zeroes, then fraction and exponent.
pub open spec fn spec_number_end(s: Seq<char>, i: int) -> Option<int> {
    let j1 = if 0 <= i < s.len() && s[i] == '-' {
        i + 1
    } else {
        i
    };
    if j1 < s.len() && spec_is_digit(s[j1]) {
        let j2 = if s[j1] == '0' {
            j1 + 1
        } else {
            spec_digits_end(s, j1)
        };
        match spec_frac_end(s, j2) {
            Option::Some(j3) => spec_exp_end(s, j3),
            Option::None => Option::None,
        }
    } else {
        Option::None
    }
}

/// A value standing at `i` (no leading whitespace), and the position just
/// after it.
pub open spec fn spec_parse_value(s: Seq<char>, i: int, fuel: nat) -> Option<(JsonModel, int)>
    decreases fuel,
{
    if fuel == 0 || i < 0 || i >= s.len() {
        Option::None
    } else {
        let c = s[i];
        if c == '{' {
            let j = spec_skip_ws(s, i + 1);
            if j < s.len() && s[j] == '}' {
                Option::Some((JsonModel::Obj(Seq::empty()), j + 1))
            } else {
                match spec_parse_members(s, i + 1, (fuel - 1) as nat) {
                    Option::Some((pairs, k)) => Option::Some((JsonModel::Obj(pairs), k)),
                    Option::None => Option::None,
                }
            }
        } else if c == '[' {
            let j = spec_skip_ws(s, i + 1);
            if j < s.len() && s[j] == ']' {
                Option::Some((JsonModel::Arr(Seq::empty()), j + 1))
            } else {
                match spec_parse_items(s, i + 1, (fuel - 1) as nat) {
                    Option::Some((items, k)) => Option::Some((JsonModel::Arr(items), k)),
                    Option::None => Option::None,
                }
            }
        } else if c == '"' {
            match spec_parse_string(s, i + 1, Seq::empty()) {
                Option::Some((t, j)) => Option::Some((JsonModel::Str(t), j)),
                Option::None => Option::None,
            }
        } else if c == 't' {
            if i + 4 <= s.len() && s[i + 1] == 'r' && s[i + 2] == 'u' && s[i + 3] == 'e' {
                Option::Some((JsonModel::Bool(true), i + 4))
            } else {
                Option::None
            }
        } else if c == 'f' {
            if i + 5 <= s.len() && s[i + 1] == 'a' && s[i + 2] == 'l' && s[i + 3] == 's' && s[i + 4]
                == 'e' {
                Option::Some((JsonModel::Bool(false), i + 5))
            } else {
                Option::None
            }
        } else if c == 'n' {
            if i + 4 <= s.len() && s[i + 1] == 'u' && s[i + 2] == 'l' && s[i + 3] == 'l' {
                Option::Some((JsonModel::Null, i + 4))
            } else {
                Option::None
            }
        } else if c == '-' || spec_is_digit(c) {
            match spec_number_end(s, i) {
                Option::Some(e) => Option::Some((JsonModel::Num(s.subrange(i, e)), e)),
                Option::None => Option::None,
            }
        } else {
            Option::None
        }
    }
}

/// The members of an object from `i` (just after `{` or a comma) through
/// the closing brace, and the position just after that brace.
pub open spec fn spec_parse_members(s: Seq<char>, i: int, fuel: nat) -> Option<
    (Seq<(Seq<char>, JsonModel)>, int),
>
    decreases fuel,
{
    if fuel == 0 {
        Option::None
    } else {
        let j = spec_skip_ws(s, i);
        if j < s.len() && s[j] == '"' {
            match spec_parse_string(s, j + 1, Seq::empty()) {
                Option::Some((key, k)) => {
                    let k2 = spec_skip_ws(s, k);
                    if k2 < s.len() && s[k2] == ':' {
                        let k3 = spec_skip_ws(s, k2 + 1);
                        match spec_parse_value(s, k3, (fuel - 1) as nat) {
                            Option::Some((val, m)) => {
                                let m2 = spec_skip_ws(s, m);
                                if m2 < s.len() && s[m2] == ',' {
                                    match spec_parse_members(s, m2 + 1, (fuel - 1) as nat) {
                                        Option::Some((rest, e)) => Option::Some(
                                            (seq![(key, val)] + rest, e),
                                        ),
                                        Option::None => Option::None,
                                    }
                                } else if m2 < s.len() && s[m2] == '}' {
                                    Option::Some((seq![(key, val)], m2 + 1))
                                } else {
                                    Option::None
                                }
                            },
                            Option::None => Option::None,
                        }
                    } else {
                        Option::None
                    }
                },
                Option::None => Option::None,
            }
        } else {
            Option::None
        }
    }
}

/// The elements of an array from `i` (just after `[` or a comma) through
/// the closing bracket, and the position just after that bracket.
pub open spec fn spec_parse_items(s: Seq<char>, i: int, fuel: nat) -> Option<
    (Seq<JsonModel>, int),
>
    decreases fuel,
{
    if fuel == 0 {
        Option::None
    } else {
        let j = spec_skip_ws(s, i);
        match spec_parse_value(s, j, (fuel - 1) as nat) {
            Option::Some((val, m)) => {
                let m2 = spec_skip_ws(s, m);
                if m2 < s.len() && s[m2] == ',' {
                    match spec_parse_items(s, m2 + 1, (fuel - 1) as nat) {
                        Option::Some((rest, e)) => Option::Some((seq![val] + rest, e)),
                        Option::None => Option::None,
                    }
                } else if m2 < s.len() && s[m2] == ']' {
                    Option::Some((seq![val], m2 + 1))
                } else {
                    Option::None
                }
            },
            Option::None => Option::None,
        }
    }
}

/// What a text parses to: one value, surrounded by nothing but whitespace.
/// Texts over `MAX_JSON_LEN` characters derive nothing.
pub open spec fn spec_parse_json(s: Seq<char>) -> Option<JsonModel> {
    if s.len() > MAX_JSON_LEN {
        Option::None
    } else {
        let i = spec_skip_ws(s, 0);
        match spec_parse_value(s, i, spec_json_fuel(s.len())) {
            Option::Some((v, j)) => if spec_skip_ws(s, j) == s.len() {
                Option::Some(v)
            } else {
                Option::None
            },
            Option::None => Option::None,
        }
    }
}

/// Relies on char::from_u32: a character for every Unicode scalar value,
/// nothing for surrogates and out-of-range codes.
#[verifier::external_body]
fn char_from_u32(v: u32) -> (r: Option<char>)
    ensures
        r == (if v < 0xD800 || (0xE000 <= v && v <= 0x10FFFF) {
            Option::Some(v as char)
        } else {
            Option::None
        }),
{
    char::from_u32(v)
}

/// The model of a concatenation is the concatenation of the models.
pub proof fn lemma_members_model_concat(a: Seq<(String, JsonValue)>, b: Seq<(String, JsonValue)>)
    ensures
        members_model(a + b) == members_model(a) + members_model(b),
    decreases b.len(),
{
    if b.len() == 0 {
        assert(a + b =~= a);
        assert(members_model(a) + members_model(b) =~= members_model(a));
    } else {
        lemma_members_model_concat(a, b.drop_last());
        assert((a + b).drop_last() =~= a + b.drop_last());
        assert((a + b).last() == b.last());
        assert(members_model(a) + members_model(b.drop_last()).push(
            (b.last().0@, value_model(b.last().1)),
        ) =~= members_model(a) + members_model(b.drop_last()) + seq![
            (b.last().0@, value_model(b.last().1)),
        ]);
        assert(members_model(a + b) =~= members_model(a) + members_model(b));
    }
}

/// The model of a concatenation is the concatenation of the models.
pub proof fn lemma_values_model_concat(a: Seq<JsonValue>, b: Seq<JsonValue>)
    ensures
        values_model(a + b) == values_model(a) + values_model(b),
    decreases b.len(),
{
    if b.len() == 0 {
        assert(a + b =~= a);
        assert(values_model(a) + values_model(b) =~= values_model(a));
    } else {
        lemma_values_model_concat(a, b.drop_last());
        assert((a + b).drop_last() =~= a + b.drop_last());
        assert((a + b).last() == b.last());
        assert(values_model(a + b) =~= values_model(a) + values_model(b));
    }
}

/// Move past whitespace.
fn skip_ws(s: &str, n: usize, i: usize) -> (r: usize)
    requires
        n == s@.len(),
        i <= n,
    ensures
        r == spec_skip_ws(s@, i as int),
        i <= r <= n,
{
    let mut j = i;
    loop
        invariant
            i <= j <= n,
            n == s@.len(),
            spec_skip_ws(s@, i as int) == spec_skip_ws(s@, j as int),
        ensures
            i <= j <= n,
            spec_skip_ws(s@, i as int) == j,
        decreases n - j,
    {
        if j >= n {
            break;
        }
        let c = s.get_char(j);
        if !(c == ' ' || c == '\t' || c == '\n' || c == '\r') {
            break;
        }
        j = j + 1;
    }
    j
}

/// The value of one hexadecimal digit.
fn hex_val(c: char) -> (r: Option<u32>)
    ensures
        r == spec_hex_val(c),
{
    let v = c as u32;
    if 48 <= v && v <= 57 {
        Option::Some(v - 48)
    } else if 97 <= v && v <= 102 {
        Option::Some(v - 87)
    } else if 65 <= v && v <= 70 {
        Option::Some(v - 55)
    } else {
        Option::None
    }
}

/// The value of the four hexadecimal digits at `i`.
fn hex4(s: &str, n: usize, i: usize) -> (r: Option<u32>)
    requires
        n == s@.len(),
    ensures
        r == spec_hex4(s@, i as int),
{
    if i < n && n - i >= 4 {
        let a = hex_val(s.get_char(i));
        let b = hex_val(s.get_char(i + 1));
        let c = hex_val(s.get_char(i + 2));
        let d = hex_val(s.get_char(i + 3));
        match (a, b, c, d) {
            (Option::Some(a), Option::Some(b), Option::Some(c), Option::Some(d)) => Option::Some(
                ((a * 16 + b) * 16 + c) * 16 + d,
            ),
            _ => Option::None,
        }
    } else {
        Option::None
    }
}

/// Read string contents from `i` to the closing quote, appending the
/// decoded characters to `acc`.
#[verifier::rlimit(50)]
fn parse_string_chars(s: &str, n: usize, i: usize, acc: &mut String) -> (r: Option<usize>)
    requires
        n == s@.len(),
        n <= MAX_JSON_LEN,
        i <= n,
    ensures
        match r {
            Option::Some(j) => {
                &&& spec_parse_string(s@, i as int, old(acc)@) matches Option::Some(p)
                &&& p.0 == final(acc)@
                &&& p.1 == j
                &&& i <= j <= n
            },
            Option::None => spec_parse_string(s@, i as int, old(acc)@) is None,
        },
{
    let mut j = i;
    loop
        invariant
            i <= j <= n,
            n == s@.len(),
            n <= MAX_JSON_LEN,
            spec_parse_string(s@, i as int, old(acc)@) == spec_parse_string(s@, j as int, acc@),
        decreases n - j,
    {
        proof {
            reveal_with_fuel(spec_parse_string, 2);
            reveal_with_fuel(spec_parse_escape, 2);
        }
        if j >= n {
            return Option::None;
        }
        let c = s.get_char(j);
        if c == '"' {
            return Option::Some(j + 1);
        } else if c == '\\' {
            if j + 1 >= n {
                return Option::None;
            }
            let e = s.get_char(j + 1);
            if e == '"' {
                push_char(acc, '"');
                j = j + 2;
            } else if e == '\\' {
                push_char(acc, '\\');
                j = j + 2;
            } else if e == '/' {
                push_char(acc, '/');
                j = j + 2;
            } else if e == 'b' {
                push_char(acc, '\u{8}');
                j = j + 2;
            } else if e == 'f' {
                push_char(acc, '\u{c}');
                j = j + 2;
            } else if e == 'n' {
                push_char(acc, '\n');
                j = j + 2;
            } else if e == 'r' {
                push_char(acc, '\r');
                j = j + 2;
            } else if e == 't' {
                push_char(acc, '\t');
                j = j + 2;
            } else if e == 'u' {
                match hex4(s, n, j + 2) {
                    Option::Some(hi) => {
                        if 0xD800 <= hi && hi < 0xDC00 {
                            if j + 8 < n && n - (j + 8) >= 4 && s.get_char(j + 6) == '\\'
                                && s.get_char(j + 7) == 'u' {
                                match hex4(s, n, j + 8) {
                                    Option::Some(lo) => {
                                        if 0xDC00 <= lo && lo < 0xE000 {
                                            let code = 0x10000 + (hi - 0xD800) * 0x400 + (lo
                                                - 0xDC00);
                                            match char_from_u32(code) {
                                                Option::Some(ch) => {
                                                    push_char(acc, ch);
                                                    j = j + 12;
                                                },
                                                Option::None => {
                                                    return Option::None;
                                                },
                                            }
                                        } else {
                                            return Option::None;
                                        }
                                    },
                                    Option::None => {
                                        return Option::None;
                                    },
                                }
                            } else {
                                return Option::None;
                            }
                        } else if 0xDC00 <= hi && hi < 0xE000 {
                            return Option::None;
                        } else {
                            match char_from_u32(hi) {
                                Option::Some(ch) => {
                                    push_char(acc, ch);
                                    j = j + 6;
                                },
                                Option::None => {
                                    return Option::None;
                                },
                            }
                        }
                    },
                    Option::None => {
                        return Option::None;
                    },
                }
            } else {
                return Option::None;
            }
        } else if (c as u32) < 0x20 {
            return Option::None;
        } else {
            push_char(acc, c);
            j = j + 1;
        }
    }
}

/// The end of the run of digits starting at `i`.
fn digits_end(s: &str, n: usize, i: usize) -> (r: usize)
    requires
        n == s@.len(),
        i <= n,
    ensures
        r == spec_digits_end(s@, i as int),
        i <= r <= n,
{
    let mut j = i;
    loop
        invariant
            i <= j <= n,
            n == s@.len(),
            spec_digits_end(s@, i as int) == spec_digits_end(s@, j as int),
        ensures
            i <= j <= n,
            spec_digits_end(s@, i as int) == j,
        decreases n - j,
    {
        if j >= n {
            break;
        }
        let c = s.get_char(j);
        if !('0' <= c && c <= '9') {
            break;
        }
        j = j + 1;
    }
    j
}

/// The end of the number starting at `i`.
fn number_end(s: &str, n: usize, i: usize) -> (r: Option<usize>)
    requires
        n == s@.len(),
        i <= n,
    ensures
        match r {
            Option::Some(e) => spec_number_end(s@, i as int) == Option::Some(e as int) && i <= e
                <= n,
            Option::None => spec_number_end(s@, i as int) is None,
        },
{
    let j1 = if i < n && s.get_char(i) == '-' {
        i + 1
    } else {
        i
    };
    if j1 < n {
        let c = s.get_char(j1);
        if '0' <= c && c <= '9' {
            let j2 = if c == '0' {
                j1 + 1
            } else {
                digits_end(s, n, j1)
            };
            // fraction
            let j3 = if j2 < n && s.get_char(j2) == '.' {
                let d = digits_end(s, n, j2 + 1);
                if d > j2 + 1 {
                    d
                } else {
                    return Option::None;
                }
            } else {
                j2
            };
            assert(spec_frac_end(s@, j2 as int) == Option::Some(j3 as int));
            // exponent
            let j4 = if j3 < n {
                let e = s.get_char(j3);
                if e == 'e' || e == 'E' {
                    let k = if j3 + 1 < n {
                        let g = s.get_char(j3 + 1);
                        if g == '+' || g == '-' {
                            j3 + 2
                        } else {
                            j3 + 1
                        }
                    } else {
                        j3 + 1
                    };
                    let d = digits_end(s, n, k);
                    if d > k {
                        d
                    } else {
                        return Option::None;
                    }
                } else {
                    j3
                }
            } else {
                j3
            };
            assert(spec_exp_end(s@, j3 as int) == Option::Some(j4 as int));
            Option::Some(j4)
        } else {
            Option::None
        }
    } else {
        Option::None
    }
}

/// A value standing at `i`, and the position just after it.
fn parse_value(s: &str, n: usize, i: usize, fuel: u64) -> (r: Option<(JsonValue, usize)>)
    requires
        n == s@.len(),
        n <= MAX_JSON_LEN,
        i <= n,
    ensures
        match r {
            Option::Some(p) => {
                &&& spec_parse_value(s@, i as int, fuel as nat) matches Option::Some(q)
                &&& q.0 == p.0@
                &&& q.1 == p.1 as int
                &&& p.1 <= n
            },
            Option::None => spec_parse_value(s@, i as int, fuel as nat) is None,
        },
    decreases fuel,
{
    if fuel == 0 || i >= n {
        return Option::None;
    }
    let c = s.get_char(i);
    if c == '{' {
        let j = skip_ws(s, n, i + 1);
        if j < n && s.get_char(j) == '}' {
            proof {
                assert(members_model(Seq::<(String, JsonValue)>::empty())
                    =~= Seq::<(Seq<char>, JsonModel)>::empty());
            }
            Option::Some((JsonValue::Obj(Vec::new()), j + 1))
        } else {
            match parse_members(s, n, i + 1, fuel - 1) {
                Option::Some((pairs, k)) => Option::Some((JsonValue::Obj(pairs), k)),
                Option::None => Option::None,
            }
        }
    } else if c == '[' {
        let j = skip_ws(s, n, i + 1);
        if j < n && s.get_char(j) == ']' {
            proof {
                assert(values_model(Seq::<JsonValue>::empty()) =~= Seq::<JsonModel>::empty());
            }
            Option::Some((JsonValue::Arr(Vec::new()), j + 1))
        } else {
            match parse_items(s, n, i + 1, fuel - 1) {
                Option::Some((items, k)) => Option::Some((JsonValue::Arr(items), k)),
                Option::None => Option::None,
            }
        }
    } else if c == '"' {
        let mut acc = String::new();
        match parse_string_chars(s, n, i + 1, &mut acc) {
            Option::Some(j) => Option::Some((JsonValue::Str(acc), j)),
            Option::None => Option::None,
        }
    } else if c == 't' {
        if n - i >= 4 && s.get_char(i + 1) == 'r' && s.get_char(i + 2) == 'u' && s.get_char(i + 3)
            == 'e' {
            Option::Some((JsonValue::Bool(true), i + 4))
        } else {
            Option::None
        }
    } else if c == 'f' {
        if n - i >= 5 && s.get_char(i + 1) == 'a' && s.get_char(i + 2) == 'l' && s.get_char(i + 3)
            == 's' && s.get_char(i + 4) == 'e' {
            Option::Some((JsonValue::Bool(false), i + 5))
        } else {
            Option::None
        }
    } else if c == 'n' {
        if n - i >= 4 && s.get_char(i + 1) == 'u' && s.get_char(i + 2) == 'l' && s.get_char(i + 3)
            == 'l' {
            Option::Some((JsonValue::Null, i + 4))
        } else {
            Option::None
        }
    } else if c == '-' || ('0' <= c && c <= '9') {
        match number_end(s, n, i) {
            Option::Some(e) => {
                let raw = String::from_str(s.substring_char(i, e));
                Option::Some((JsonValue::Num(raw), e))
            },
            Option::None => Option::None,
        }
    } else {
        Option::None
    }
}

/// The members of an object from `i` through the closing brace.
fn parse_members(s: &str, n: usize, i: usize, fuel: u64) -> (r: Option<
    (Vec<(String, JsonValue)>, usize),
>)
    requires
        n == s@.len(),
        n <= MAX_JSON_LEN,
        i <= n,
    ensures
        match r {
            Option::Some(p) => {
                &&& spec_parse_members(s@, i as int, fuel as nat) matches Option::Some(q)
                &&& q.0 == members_model(p.0@)
                &&& q.1 == p.1 as int
                &&& p.1 <= n
            },
            Option::None => spec_parse_members(s@, i as int, fuel as nat) is None,
        },
    decreases fuel,
{
    if fuel == 0 {
        return Option::None;
    }
    let j = skip_ws(s, n, i);
    if j < n && s.get_char(j) == '"' {
        let mut key = String::new();
        match parse_string_chars(s, n, j + 1, &mut key) {
            Option::Some(k) => {
                let k2 = skip_ws(s, n, k);
                if k2 < n && s.get_char(k2) == ':' {
                    let k3 = skip_ws(s, n, k2 + 1);
                    match parse_value(s, n, k3, fuel - 1) {
                        Option::Some((val, m)) => {
                            let m2 = skip_ws(s, n, m);
                            if m2 < n && s.get_char(m2) == ',' {
                                match parse_members(s, n, m2 + 1, fuel - 1) {
                                    Option::Some((rest, e)) => {
                                        let ghost gpair = (key, val);
                                        let ghost grest = rest@;
                                        let mut out: Vec<(String, JsonValue)> = Vec::new();
                                        out.push((key, val));
                                        let mut rest = rest;
                                        out.append(&mut rest);
                                        proof {
                                            let one = Seq::<(String, JsonValue)>::empty().push(
                                                gpair,
                                            );
                                            assert(out@ =~= one + grest);
                                            lemma_members_model_concat(one, grest);
                                            assert(one.drop_last()
                                                =~= Seq::<(String, JsonValue)>::empty());
                                            assert(one.last() == gpair);
                                            reveal_with_fuel(members_model, 2);
                                            assert(members_model(one)
                                                =~= seq![(gpair.0@, value_model(gpair.1))]);
                                            assert(members_model(out@)
                                                =~= seq![(gpair.0@, value_model(gpair.1))]
                                                + members_model(grest));
                                        }
                                        Option::Some((out, e))
                                    },
                                    Option::None => Option::None,
                                }
                            } else if m2 < n && s.get_char(m2) == '}' {
                                let ghost gpair = (key, val);
                                let mut out: Vec<(String, JsonValue)> = Vec::new();
                                out.push((key, val));
                                proof {
                                    assert(out@.drop_last()
                                        =~= Seq::<(String, JsonValue)>::empty());
                                    assert(out@.last() == gpair);
                                    reveal_with_fuel(members_model, 2);
                                    assert(members_model(out@)
                                        =~= seq![(gpair.0@, value_model(gpair.1))]);
                                }
                                Option::Some((out, m2 + 1))
                            } else {
                                Option::None
                            }
                        },
                        Option::None => Option::None,
                    }
                } else {
                    Option::None
                }
            },
            Option::None => Option::None,
        }
    } else {
        Option::None
    }
}

/// The elements of an array from `i` through the closing bracket.
fn parse_items(s: &str, n: usize, i: usize, fuel: u64) -> (r: Option<(Vec<JsonValue>, usize)>)
    requires
        n == s@.len(),
        n <= MAX_JSON_LEN,
        i <= n,
    ensures
        match r {
            Option::Some(p) => {
                &&& spec_parse_items(s@, i as int, fuel as nat) matches Option::Some(q)
                &&& q.0 == values_model(p.0@)
                &&& q.1 == p.1 as int
                &&& p.1 <= n
            },
            Option::None => spec_parse_items(s@, i as int, fuel as nat) is None,
        },
    decreases fuel,
{
    if fuel == 0 {
        return Option::None;
    }
    let j = skip_ws(s, n, i);
    match parse_value(s, n, j, fuel - 1) {
        Option::Some((val, m)) => {
            let m2 = skip_ws(s, n, m);
            if m2 < n && s.get_char(m2) == ',' {
                match parse_items(s, n, m2 + 1, fuel - 1) {
                    Option::Some((rest, e)) => {
                        let ghost gval = val;
                        let ghost grest = rest@;
                        let mut out: Vec<JsonValue> = Vec::new();
                        out.push(val);
                        let mut rest = rest;
                        out.append(&mut rest);
                        proof {
                            let one = Seq::<JsonValue>::empty().push(gval);
                            assert(out@ =~= one + grest);
                            lemma_values_model_concat(one, grest);
                            assert(one.drop_last() =~= Seq::<JsonValue>::empty());
                            assert(one.last() == gval);
                            reveal_with_fuel(values_model, 2);
                            assert(values_model(one) =~= seq![value_model(gval)]);
                            assert(values_model(out@) =~= seq![value_model(gval)]
                                + values_model(grest));
                        }
                        Option::Some((out, e))
                    },
                    Option::None => Option::None,
                }
            } else if m2 < n && s.get_char(m2) == ']' {
                let ghost gval = val;
                let mut out: Vec<JsonValue> = Vec::new();
                out.push(val);
                proof {
                    assert(out@.drop_last() =~= Seq::<JsonValue>::empty());
                    assert(out@.last() == gval);
                    reveal_with_fuel(values_model, 2);
                    assert(values_model(out@) =~= seq![value_model(gval)]);
                }
                Option::Some((out, m2 + 1))
            } else {
                Option::None
            }
        },
        Option::None => Option::None,
    }
}

/// Parse a whole text: one JSON value surrounded by nothing but whitespace.
pub fn parse_json(s: &str) -> (r: Option<JsonValue>)
    ensures
        match r {
            Option::Some(v) => spec_parse_json(s@) == Option::Some(v@),
            Option::None => spec_parse_json(s@) is None,
        },
{
    let n = s.unicode_len();
    if n > MAX_JSON_LEN {
        return Option::None;
    }
    let i = skip_ws(s, n, 0);
    let fuel: u64 = 2 * (n as u64) + 16;
    assert(fuel as nat == spec_json_fuel(s@.len()));
    match parse_value(s, n, i, fuel) {
        Option::Some((v, j)) => {
            let e = skip_ws(s, n, j);
            if e == n {
                Option::Some(v)
            } else {
                Option::None
            }
        },
        Option::None => Option::None,
    }
}

} // verus!
