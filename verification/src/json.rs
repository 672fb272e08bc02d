//! JSON body rendering: the library frames the body text itself; string
//! escaping is serde_json's work, named and trusted.

use vstd::prelude::*;
use vstd::string::*;
use crate::strutil::{push_char, i64_to_string, spec_idec};
use crate::value::{ParamValue, ScalarValue, ArgValue};

verus! {

/// The JSON string literal (quoted and escaped) that serde_json renders a
/// piece of text as; a function of the characters alone.
pub uninterp spec fn json_quoted_of(s: Seq<char>) -> Seq<char>;

/// Relies on serde_json::to_string on a string slice: it renders the text
/// as a JSON string literal, quoted and escaped, and depends on the
/// characters alone. Serializing a string slice cannot fail.
#[verifier::external_body]
pub fn json_quote(s: &str) -> (r: String)
    ensures
        r@ == json_quoted_of(s@),
{
    match serde_json::to_string(s) {
        Ok(t) => t,
        Err(_) => String::new(),
    }
}

/// The JSON text of one scalar: a quoted string, a decimal integer, or a
/// boolean literal.
pub open spec fn spec_json_scalar(v: ScalarValue) -> Seq<char> {
    match v {
        ScalarValue::Text(s) => json_quoted_of(s@),
        ScalarValue::Integer(i) => spec_idec(i as int),
        ScalarValue::Boolean(b) => if b {
            "true"@
        } else {
            "false"@
        },
    }
}

/// The JSON text of one object field: quoted name, colon, scalar value.
pub open spec fn spec_json_field(f: (String, ScalarValue)) -> Seq<char> {
    json_quoted_of(f.0@) + seq![':'] + spec_json_scalar(f.1)
}

/// The comma-joined JSON text of an object's fields, in field order.
pub open spec fn spec_json_fields(fs: Seq<(String, ScalarValue)>) -> Seq<char>
    decreases fs.len(),
{
    if fs.len() == 0 {
        Seq::empty()
    } else if fs.len() == 1 {
        spec_json_field(fs[0])
    } else {
        spec_json_fields(fs.drop_last()) + seq![','] + spec_json_field(fs.last())
    }
}

/// The JSON text of one value: a scalar, or an object in braces.
pub open spec fn spec_json_value(v: ArgValue) -> Seq<char> {
    match v {
        ArgValue::Scalar(sv) => spec_json_scalar(sv),
        ArgValue::Object(fs) => seq!['{'] + spec_json_fields(fs@) + seq!['}'],
    }
}

/// The comma-joined JSON text of an array's elements, in order.
pub open spec fn spec_json_items(vs: Seq<ArgValue>) -> Seq<char>
    decreases vs.len(),
{
    if vs.len() == 0 {
        Seq::empty()
    } else if vs.len() == 1 {
        spec_json_value(vs[0])
    } else {
        spec_json_items(vs.drop_last()) + seq![','] + spec_json_value(vs.last())
    }
}

/// The JSON body text of one parameter value: the value itself for Single,
/// the value or `null` for Optional, an array for Many.
pub open spec fn spec_json_param(v: ParamValue) -> Seq<char> {
    match v {
        ParamValue::Single(val) => spec_json_value(val),
        ParamValue::Optional(Some(val)) => spec_json_value(val),
        ParamValue::Optional(None) => "null"@,
        ParamValue::Many(vals) => seq!['['] + spec_json_items(vals@) + seq![']'],
    }
}

fn render_scalar(out: &mut String, v: &ScalarValue)
    ensures
        final(out)@ == old(out)@ + spec_json_scalar(*v),
{
    match v {
        ScalarValue::Text(s) => {
            let q = json_quote(s.as_str());
            out.append(q.as_str());
        },
        ScalarValue::Integer(i) => {
            let d = i64_to_string(*i);
            out.append(d.as_str());
        },
        ScalarValue::Boolean(b) => {
            if *b {
                out.append("true");
            } else {
                out.append("false");
            }
        },
    }
}

#[verifier::loop_isolation(false)]
fn render_object(out: &mut String, fs: &Vec<(String, ScalarValue)>)
    ensures
        final(out)@ == old(out)@ + seq!['{'] + spec_json_fields(fs@) + seq!['}'],
{
    push_char(out, '{');
    let mut i: usize = 0;
    proof {
        assert(fs@.take(0) =~= Seq::<(String, ScalarValue)>::empty());
        assert(out@ =~= old(out)@ + seq!['{'] + spec_json_fields(fs@.take(0)));
    }
    while i < fs.len()
        invariant
            i <= fs@.len(),
            out@ == old(out)@ + seq!['{'] + spec_json_fields(fs@.take(i as int)),
        decreases fs@.len() - i,
    {
        if i > 0 {
            push_char(out, ',');
        }
        let q = json_quote(fs[i].0.as_str());
        out.append(q.as_str());
        push_char(out, ':');
        render_scalar(out, &fs[i].1);
        proof {
            assert(fs@.take(i + 1 as int).drop_last() =~= fs@.take(i as int));
            assert(fs@.take(i + 1 as int).last() == fs@[i as int]);
            if i == 0 {
                assert(fs@.take(1)[0] == fs@[0]);
                assert(out@ =~= old(out)@ + seq!['{'] + spec_json_fields(fs@.take(1)));
            } else {
                assert(out@ =~= old(out)@ + seq!['{'] + spec_json_fields(fs@.take(i + 1 as int)));
            }
        }
        i = i + 1;
    }
    proof {
        assert(fs@.take(fs@.len() as int) =~= fs@);
    }
    push_char(out, '}');
    proof {
        assert(out@ =~= old(out)@ + seq!['{'] + spec_json_fields(fs@) + seq!['}']);
    }
}

fn render_value(out: &mut String, v: &ArgValue)
    ensures
        final(out)@ == old(out)@ + spec_json_value(*v),
{
    match v {
        ArgValue::Scalar(sv) => {
            render_scalar(out, sv);
        },
        ArgValue::Object(fs) => {
            render_object(out, fs);
        },
    }
}

/// Renders a parameter value as a JSON request body: objects in braces
/// with quoted, escaped names and scalar fields; Optional absence as
/// `null`; Many as an array.
#[verifier::loop_isolation(false)]
pub fn render_json_param(v: &ParamValue) -> (r: String)
    ensures
        r@ == spec_json_param(*v),
{
    let mut out = String::new();
    match v {
        ParamValue::Single(val) => {
            render_value(&mut out, val);
        },
        ParamValue::Optional(Some(val)) => {
            render_value(&mut out, val);
        },
        ParamValue::Optional(None) => {
            out.append("null");
        },
        ParamValue::Many(vals) => {
            push_char(&mut out, '[');
            let mut i: usize = 0;
            proof {
                assert(vals@.take(0) =~= Seq::<ArgValue>::empty());
                assert(out@ =~= seq!['['] + spec_json_items(vals@.take(0)));
            }
            while i < vals.len()
                invariant
                    i <= vals@.len(),
                    out@ == seq!['['] + spec_json_items(vals@.take(i as int)),
                decreases vals@.len() - i,
            {
                if i > 0 {
                    push_char(&mut out, ',');
                }
                render_value(&mut out, &vals[i]);
                proof {
                    assert(vals@.take(i + 1 as int).drop_last() =~= vals@.take(i as int));
                    assert(vals@.take(i + 1 as int).last() == vals@[i as int]);
                    if i == 0 {
                        assert(vals@.take(1)[0] == vals@[0]);
                        assert(out@ =~= seq!['['] + spec_json_items(vals@.take(1)));
                    } else {
                        assert(out@ =~= seq!['['] + spec_json_items(vals@.take(i + 1 as int)));
                    }
                }
                i = i + 1;
            }
            proof {
                assert(vals@.take(vals@.len() as int) =~= vals@);
            }
            push_char(&mut out, ']');
        },
    }
    proof {
        assert(Seq::<char>::empty() + spec_json_param(*v) =~= spec_json_param(*v));
    }
    out
}

} // verus!
