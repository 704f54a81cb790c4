//! Example JSON bodies: scalar values and one level of named members, and
//! their rendering as JSON text. The text is pinned exactly: decimal integers,
//! `null`, `true`/`false`, and quoted strings in which only quotes and
//! backslashes are escaped.

use vstd::prelude::*;
use vstd::string::*;

verus! {

/// The decimal digit character for `d` (under 10).
pub open spec fn digit_char(d: nat) -> char {
    if d == 0 {
        '0'
    } else if d == 1 {
        '1'
    } else if d == 2 {
        '2'
    } else if d == 3 {
        '3'
    } else if d == 4 {
        '4'
    } else if d == 5 {
        '5'
    } else if d == 6 {
        '6'
    } else if d == 7 {
        '7'
    } else if d == 8 {
        '8'
    } else {
        '9'
    }
}

/// The decimal digits of `n`, most significant first.
pub open spec fn spec_digits(n: nat) -> Seq<char>
    decreases n,
{
    if n < 10 {
        seq![digit_char(n)]
    } else {
        spec_digits(n / 10).push(digit_char(n % 10))
    }
}

/// The decimal text of an integer: digits, a minus sign ahead of a negative.
pub open spec fn spec_int_text(i: int) -> Seq<char> {
    if i >= 0 {
        spec_digits(i as nat)
    } else {
        seq!['-'] + spec_digits((-i) as nat)
    }
}

/// The character for one digit.
fn digit_str(d: u64) -> (r: &'static str)
    requires
        d < 10,
    ensures
        r@ == seq![digit_char(d as nat)],
{
    proof {
        reveal_strlit("0");
        reveal_strlit("1");
        reveal_strlit("2");
        reveal_strlit("3");
        reveal_strlit("4");
        reveal_strlit("5");
        reveal_strlit("6");
        reveal_strlit("7");
        reveal_strlit("8");
        reveal_strlit("9");
    }
    if d == 0 {
        let r = "0";
        proof {
            assert(r@ =~= seq![digit_char(d as nat)]);
        }
        r
    } else if d == 1 {
        let r = "1";
        proof {
            assert(r@ =~= seq![digit_char(d as nat)]);
        }
        r
    } else if d == 2 {
        let r = "2";
        proof {
            assert(r@ =~= seq![digit_char(d as nat)]);
        }
        r
    } else if d == 3 {
        let r = "3";
        proof {
            assert(r@ =~= seq![digit_char(d as nat)]);
        }
        r
    } else if d == 4 {
        let r = "4";
        proof {
            assert(r@ =~= seq![digit_char(d as nat)]);
        }
        r
    } else if d == 5 {
        let r = "5";
        proof {
            assert(r@ =~= seq![digit_char(d as nat)]);
        }
        r
    } else if d == 6 {
        let r = "6";
        proof {
            assert(r@ =~= seq![digit_char(d as nat)]);
        }
        r
    } else if d == 7 {
        let r = "7";
        proof {
            assert(r@ =~= seq![digit_char(d as nat)]);
        }
        r
    } else if d == 8 {
        let r = "8";
        proof {
            assert(r@ =~= seq![digit_char(d as nat)]);
        }
        r
    } else {
        let r = "9";
        proof {
            assert(r@ =~= seq![digit_char(d as nat)]);
        }
        r
    }
}

/// The decimal text of an unsigned integer.
pub fn u64_to_string(n: u64) -> (r: String)
    ensures
        r@ == spec_digits(n as nat),
    decreases n,
{
    if n < 10 {
        String::from_str(digit_str(n))
    } else {
        let mut s = u64_to_string(n / 10);
        s.append(digit_str(n % 10));
        proof {
            assert(s@ =~= spec_digits((n / 10) as nat).push(digit_char((n % 10) as nat)));
        }
        s
    }
}

/// The decimal text of a signed integer.
pub fn i64_to_string(n: i64) -> (r: String)
    ensures
        r@ == spec_int_text(n as int),
{
    if n >= 0 {
        u64_to_string(n as u64)
    } else {
        let wide: i128 = n as i128;
        let mag: u64 = (-wide) as u64;
        let digits = u64_to_string(mag);
        let mut s = String::from_str("-");
        s.append(digits.as_str());
        proof {
            reveal_strlit("-");
            assert(s@ =~= seq!['-'] + spec_digits((-(n as int)) as nat));
        }
        s
    }
}

/// How one character appears inside a JSON string: quotes and backslashes
/// escaped, everything else verbatim.
pub open spec fn esc_char(c: char) -> Seq<char> {
    if c == '"' {
        seq!['\\', '"']
    } else if c == '\\' {
        seq!['\\', '\\']
    } else {
        seq![c]
    }
}

/// A text with its quotes and backslashes escaped.
pub open spec fn spec_escape(s: Seq<char>) -> Seq<char>
    decreases s.len(),
{
    if s.len() == 0 {
        Seq::empty()
    } else {
        spec_escape(s.drop_last()) + esc_char(s.last())
    }
}

/// Escape a text for use inside a JSON string.
pub fn json_escape(s: &String) -> (r: String)
    ensures
        r@ == spec_escape(s@),
{
    let n = s.as_str().unicode_len();
    let mut r = String::new();
    let mut i: usize = 0;
    while i < n
        invariant
            i <= n,
            n == s@.len(),
            r@ == spec_escape(s@.subrange(0, i as int)),
        decreases n - i,
    {
        let c = s.as_str().get_char(i);
        if c == '"' {
            r.append("\\\"");
        } else if c == '\\' {
            r.append("\\\\");
        } else {
            r.append(s.as_str().substring_char(i, i + 1));
        }
        proof {
            reveal_strlit("\\\"");
            reveal_strlit("\\\\");
            assert(s@.subrange(0, (i + 1) as int).drop_last() =~= s@.subrange(0, i as int));
            assert(s@.subrange(0, (i + 1) as int).last() == s@[i as int]);
            if c != '"' && c != '\\' {
                assert(s@.subrange(i as int, (i + 1) as int) =~= seq![s@[i as int]]);
            }
            assert(r@ =~= spec_escape(s@.subrange(0, (i + 1) as int)));
        }
        i += 1;
    }
    proof {
        assert(s@.subrange(0, n as int) =~= s@);
    }
    r
}

/// One scalar example value.
#[verifier::ext_equal]
pub enum JsonValue {
    Null,
    Bool(bool),
    Int(i64),
    Str(String),
}

/// The JSON text of a scalar value.
pub open spec fn spec_value_text(v: JsonValue) -> Seq<char> {
    match v {
        JsonValue::Null => "null"@,
        JsonValue::Bool(b) => if b {
            "true"@
        } else {
            "false"@
        },
        JsonValue::Int(i) => spec_int_text(i as int),
        JsonValue::Str(s) => seq!['"'] + spec_escape(s@) + seq!['"'],
    }
}

/// A text quoted as a JSON string.
pub open spec fn spec_quoted(s: Seq<char>) -> Seq<char> {
    seq!['"'] + spec_escape(s) + seq!['"']
}

/// Quote a text as a JSON string.
pub fn quoted_text(s: &String) -> (r: String)
    ensures
        r@ == spec_quoted(s@),
{
    let mut r = String::from_str("\"");
    r.append(json_escape(s).as_str());
    r.append("\"");
    proof {
        reveal_strlit("\"");
        assert(r@ =~= seq!['"'] + spec_escape(s@) + seq!['"']);
    }
    r
}

/// Render one scalar value as JSON text.
pub fn value_text(v: &JsonValue) -> (r: String)
    ensures
        r@ == spec_value_text(*v),
{
    match v {
        JsonValue::Null => String::from_str("null"),
        JsonValue::Bool(b) => if *b {
            String::from_str("true")
        } else {
            String::from_str("false")
        },
        JsonValue::Int(i) => i64_to_string(*i),
        JsonValue::Str(s) => quoted_text(s),
    }
}

/// A pattern for one scalar value: a literal, anything of the example's type,
/// or a regular expression with a string example.
#[verifier::ext_equal]
pub enum JsonScalarPattern {
    /// Matches exactly this value.
    Value(JsonValue),
    /// Matches any value of the example's type.
    Like(JsonValue),
    /// Matches a string by regular expression; the expression, then the
    /// example.
    Term(String, String),
}

/// The example text one scalar pattern stands for.
pub open spec fn spec_scalar_example_text(p: JsonScalarPattern) -> Seq<char> {
    match p {
        JsonScalarPattern::Value(v) => spec_value_text(v),
        JsonScalarPattern::Like(v) => spec_value_text(v),
        JsonScalarPattern::Term(_, e) => spec_quoted(e@),
    }
}

/// Render the example value one scalar pattern stands for.
pub fn scalar_example_text(p: &JsonScalarPattern) -> (r: String)
    ensures
        r@ == spec_scalar_example_text(*p),
{
    match p {
        JsonScalarPattern::Value(v) => value_text(v),
        JsonScalarPattern::Like(v) => value_text(v),
        JsonScalarPattern::Term(_, e) => quoted_text(e),
    }
}

/// A pattern for a JSON body: one scalar, or an object of named members each
/// holding a scalar pattern. The model stops at one level of members — no
/// nested objects or arrays inside a pattern.
#[verifier::ext_equal]
pub enum JsonPattern {
    Scalar(JsonScalarPattern),
    Object(Vec<(String, JsonScalarPattern)>),
}

/// The text of one object member: the quoted name, a colon, the example.
pub open spec fn spec_member_text(m: (String, JsonScalarPattern)) -> Seq<char> {
    spec_quoted(m.0@) + seq![':'] + spec_scalar_example_text(m.1)
}

/// The text of an object's members, comma-separated.
pub open spec fn spec_members_text(ms: Seq<(String, JsonScalarPattern)>) -> Seq<char>
    decreases ms.len(),
{
    if ms.len() == 0 {
        Seq::empty()
    } else if ms.len() == 1 {
        spec_member_text(ms[0])
    } else {
        spec_members_text(ms.drop_last()) + seq![','] + spec_member_text(ms.last())
    }
}

/// The example text a body pattern stands for.
pub open spec fn spec_pattern_text(p: JsonPattern) -> Seq<char> {
    match p {
        JsonPattern::Scalar(sp) => spec_scalar_example_text(sp),
        JsonPattern::Object(ms) => seq!['{'] + spec_members_text(ms@) + seq!['}'],
    }
}

/// Render one object member.
fn member_text(name: &String, p: &JsonScalarPattern) -> (r: String)
    ensures
        r@ == spec_quoted(name@) + seq![':'] + spec_scalar_example_text(*p),
{
    let mut r = quoted_text(name);
    r.append(":");
    r.append(scalar_example_text(p).as_str());
    proof {
        reveal_strlit(":");
        assert(r@ =~= spec_quoted(name@) + seq![':'] + spec_scalar_example_text(*p));
    }
    r
}

/// Render the example body a pattern stands for.
pub fn render_pattern(p: &JsonPattern) -> (r: String)
    ensures
        r@ == spec_pattern_text(*p),
{
    match p {
        JsonPattern::Scalar(sp) => scalar_example_text(sp),
        JsonPattern::Object(ms) => {
            let mut r = String::from_str("{");
            proof {
                reveal_strlit("{");
                assert(r@ =~= seq!['{'] + spec_members_text(ms@.subrange(0, 0)));
            }
            let n = ms.len();
            let mut i: usize = 0;
            while i < n
                invariant
                    i <= n,
                    n == ms@.len(),
                    r@ == seq!['{'] + spec_members_text(ms@.subrange(0, i as int)),
                decreases n - i,
            {
                if i > 0 {
                    r.append(",");
                }
                let m = member_text(&ms[i].0, &ms[i].1);
                r.append(m.as_str());
                proof {
                    reveal_strlit(",");
                    assert(ms@.subrange(0, (i + 1) as int).drop_last() =~= ms@.subrange(
                        0,
                        i as int,
                    ));
                    assert(ms@.subrange(0, (i + 1) as int).last() == ms@[i as int]);
                    assert(r@ =~= seq!['{'] + spec_members_text(ms@.subrange(0, (i + 1) as int)));
                }
                i += 1;
            }
            r.append("}");
            proof {
                reveal_strlit("}");
                assert(ms@.subrange(0, n as int) =~= ms@);
                assert(r@ =~= seq!['{'] + spec_members_text(ms@) + seq!['}']);
            }
            r
        },
    }
}

} // verus!
