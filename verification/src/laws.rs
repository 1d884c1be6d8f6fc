//! The laws the encoding and decoding obey, proved once and for all inputs:
//! an encoded request parses back to the value it came from, and the wire
//! keys of the per-category flags map to their fields exactly.

use vstd::prelude::*;

use crate::json::{
    escape_char, escape_seq, hex_digit, hex_val, is_ws, needs_escape, spec_parse_string_at,
    spec_parse_string_body, spec_skip_ws,
};
use crate::moderation::{
    spec_parse_param, spec_parse_param_members, spec_parse_param_text, spec_ser_bool,
    spec_ser_categories, spec_ser_param, spec_ser_string, spec_set_category, Categories,
    ModerationParamV,
};

verus! {

/// Skipping whitespace at a non-whitespace position stays put.
pub proof fn lemma_skip_ws_at(t: Seq<char>, i: int)
    requires
        0 <= i,
        i >= t.len() || !is_ws(t[i]),
    ensures
        spec_skip_ws(t, i) == i,
{
}

/// Escaping a text without quotes, backslashes or control characters leaves
/// it unchanged.
pub proof fn lemma_escape_noop(s: Seq<char>)
    requires
        forall|k: int| 0 <= k < s.len() ==> !needs_escape(#[trigger] s[k]),
    ensures
        escape_seq(s) == s,
    decreases s.len(),
{
    if s.len() == 0 {
        assert(escape_seq(s) =~= s);
    } else {
        assert(!needs_escape(s[0]));
        lemma_escape_noop(s.skip(1));
        assert(escape_char(s[0]) =~= seq![s[0]]);
        assert(escape_seq(s) =~= s);
    }
}

/// Reading back the hexadecimal digit of a value below 16 gives the value.
proof fn lemma_hex_digit_val(d: int)
    requires
        0 <= d < 16,
    ensures
        hex_val(hex_digit(d)) == d,
{
}

/// Parsing a string body that holds the escaped form of `s` followed by the
/// closing quote yields exactly `s` appended to what was read so far, ending
/// just past the quote.
pub proof fn lemma_parse_string_body_escaped(t: Seq<char>, i: int, s: Seq<char>, acc: Seq<char>)
    requires
        0 <= i,
        i + escape_seq(s).len() + 1 <= t.len(),
        t.subrange(i, i + escape_seq(s).len() + 1) == escape_seq(s) + seq!['"'],
    ensures
        spec_parse_string_body(t, i, acc) == Some(
            (acc + s, i + escape_seq(s).len() + 1),
        ),
    decreases s.len(),
{
    let sub = t.subrange(i, i + escape_seq(s).len() + 1);
    if s.len() == 0 {
        assert(escape_seq(s) =~= Seq::<char>::empty());
        assert(t[i] == sub[0]);
        assert(sub[0] == '"');
        assert(acc + s =~= acc);
    } else {
        let c = s[0];
        let rest = s.skip(1);
        let e = escape_char(c);
        let erest = escape_seq(rest);
        assert(escape_seq(s) == e + erest);
        let el = e.len() as int;
        // the tail holds the escape of the rest followed by the quote
        assert(t.subrange(i + el, i + el + erest.len() + 1) =~= erest + seq!['"']) by {
            assert forall|k: int| 0 <= k < erest.len() + 1 implies t.subrange(
                i + el,
                i + el + erest.len() + 1,
            )[k] == (erest + seq!['"'])[k] by {
                assert(t[i + el + k] == (escape_seq(s) + seq!['"'])[el + k]);
                assert((escape_seq(s) + seq!['"'])[el + k] == (erest + seq!['"'])[k]);
            }
        }
        if c == '"' || c == '\\' || c == '\n' || c == '\r' || c == '\t' {
            // two-character escape
            assert(el == 2);
            assert(t[i] == sub[0] && sub[0] == e[0]);
            assert(t[i + 1] == sub[1] && sub[1] == e[1]);
            assert(t[i] == '\\');
            lemma_parse_string_body_escaped(t, i + 2, rest, acc.push(c));
            assert(acc.push(c) + rest =~= acc + s);
        } else if (c as u32) < 0x20 {
            // \u00XX escape
            assert(el == 6);
            assert(t[i] == sub[0] && sub[0] == e[0]);
            assert(t[i + 1] == sub[1] && sub[1] == e[1]);
            assert(t[i + 2] == sub[2] && sub[2] == e[2]);
            assert(t[i + 3] == sub[3] && sub[3] == e[3]);
            assert(t[i + 4] == sub[4] && sub[4] == e[4]);
            assert(t[i + 5] == sub[5] && sub[5] == e[5]);
            assert(t[i] == '\\' && t[i + 1] == 'u' && t[i + 2] == '0' && t[i + 3] == '0');
            let hi = (c as u32) as int / 16;
            let lo = (c as u32) as int % 16;
            assert(t[i + 4] == hex_digit(hi) && t[i + 5] == hex_digit(lo));
            lemma_hex_digit_val(hi);
            lemma_hex_digit_val(lo);
            assert(hex_val('0') == 0);
            let v = hex_val(t[i + 2]) * 4096 + hex_val(t[i + 3]) * 256 + hex_val(t[i + 4]) * 16
                + hex_val(t[i + 5]);
            assert(v == hi * 16 + lo);
            assert(v == c as u32) by {
                vstd::arithmetic::div_mod::lemma_fundamental_div_mod((c as u32) as int, 16);
            }
            assert(v < 0xD800);
            vstd::utf8::char_u32_cast(c, c as u32);
            assert(((v as u32) as char) == c);
            lemma_parse_string_body_escaped(t, i + 6, rest, acc.push(c));
            assert(acc.push(c) + rest =~= acc + s);
        } else {
            // the character stands for itself
            assert(e =~= seq![c]);
            assert(el == 1);
            assert(t[i] == sub[0] && sub[0] == e[0]);
            assert(t[i] == c);
            assert(t[i] != '"' && t[i] != '\\' && (t[i] as u32) >= 0x20);
            lemma_parse_string_body_escaped(t, i + 1, rest, acc.push(c));
            assert(acc.push(c) + rest =~= acc + s);
        }
    }
}

/// Parsing a complete encoded string yields the text it encodes.
pub proof fn lemma_parse_ser_string(t: Seq<char>, i: int, s: Seq<char>)
    requires
        0 <= i,
        i + spec_ser_string(s).len() <= t.len(),
        t.subrange(i, i + spec_ser_string(s).len()) == spec_ser_string(s),
    ensures
        spec_parse_string_at(t, i) == Some((s, i + spec_ser_string(s).len())),
{
    let n = spec_ser_string(s).len() as int;
    let sub = t.subrange(i, i + n);
    assert(t[i] == sub[0]);
    assert(sub[0] == '"');
    assert(t.subrange(i + 1, i + n) =~= escape_seq(s) + seq!['"']) by {
        assert forall|k: int| 0 <= k < n - 1 implies t.subrange(i + 1, i + n)[k] == (escape_seq(s)
            + seq!['"'])[k] by {
            assert(t[i + 1 + k] == sub[1 + k]);
            assert(sub[1 + k] == spec_ser_string(s)[1 + k]);
        }
    }
    lemma_parse_string_body_escaped(t, i + 1, s, Seq::<char>::empty());
    assert(Seq::<char>::empty() + s =~= s);
}

/// The characters of the two member keys need no escaping.
proof fn lemma_keys_plain()
    ensures
        escape_seq("input"@) == "input"@,
        escape_seq("model"@) == "model"@,
        "input"@.len() == 5,
        "model"@.len() == 5,
        "input"@ != "model"@,
{
    reveal_strlit("input");
    reveal_strlit("model");
    assert forall|k: int| 0 <= k < "input"@.len() implies !needs_escape(#[trigger] "input"@[k]) by {
        if k == 0 {
            assert(!needs_escape('i'));
        } else if k == 1 {
            assert(!needs_escape('n'));
        } else if k == 2 {
            assert(!needs_escape('p'));
        } else if k == 3 {
            assert(!needs_escape('u'));
        } else {
            assert(!needs_escape('t'));
        }
    }
    lemma_escape_noop("input"@);
    assert forall|k: int| 0 <= k < "model"@.len() implies !needs_escape(#[trigger] "model"@[k]) by {
        if k == 0 {
            assert(!needs_escape('m'));
        } else if k == 1 {
            assert(!needs_escape('o'));
        } else if k == 2 {
            assert(!needs_escape('d'));
        } else if k == 3 {
            assert(!needs_escape('e'));
        } else {
            assert(!needs_escape('l'));
        }
    }
    lemma_escape_noop("model"@);
    assert("input"@[0] != "model"@[0]);
}

/// An encoded request without a model parses back to its value.
proof fn lemma_param_round_trip_no_model(p: ModerationParamV)
    requires
        p.model is None,
    ensures
        spec_parse_param_text(spec_ser_param(p)) == Some(p),
{
    reveal(spec_parse_param);
    reveal_strlit("{\"input\":");
    reveal_strlit("}");
    reveal_strlit("input");
    reveal_strlit("model");
    lemma_keys_plain();
    let a = "{\"input\":"@;
    let sv = spec_ser_string(p.input);
    let n = sv.len() as int;
    let z = "}"@;
    let t = spec_ser_param(p);
    assert(t == a + sv + z);
    assert(a.len() == 9 && z.len() == 1);
    assert(t.len() == 10 + n);
    assert(n >= 2);
    assert(t[0] == '{' && t[1] == '"' && t[2] == 'i' && t[3] == 'n' && t[4] == 'p' && t[5] == 'u'
        && t[6] == 't' && t[7] == '"' && t[8] == ':');
    // the key
    let ks = spec_ser_string("input"@);
    assert(ks.len() == 7);
    assert(t.subrange(1, 8) =~= ks) by {
        assert(ks[0] == '"' && ks[6] == '"');
        assert(ks[1] == "input"@[0] && ks[2] == "input"@[1] && ks[3] == "input"@[2] && ks[4]
            == "input"@[3] && ks[5] == "input"@[4]);
        assert forall|k: int| 0 <= k < 7 implies t.subrange(1, 8)[k] == ks[k] by {
            assert(t.subrange(1, 8)[k] == t[1 + k]);
            if k == 0 {
                assert(t[1] == ks[0]);
            } else if k == 1 {
                assert(t[2] == ks[1]);
            } else if k == 2 {
                assert(t[3] == ks[2]);
            } else if k == 3 {
                assert(t[4] == ks[3]);
            } else if k == 4 {
                assert(t[5] == ks[4]);
            } else if k == 5 {
                assert(t[6] == ks[5]);
            } else {
                assert(t[7] == ks[6]);
            }
        }
    }
    lemma_parse_ser_string(t, 1, "input"@);
    // the value
    assert(t[9] == sv[0] && sv[0] == '"');
    assert(t.subrange(9, 9 + n) =~= sv);
    lemma_parse_ser_string(t, 9, p.input);
    // walk the object
    lemma_skip_ws_at(t, 0);
    lemma_skip_ws_at(t, 1);
    lemma_skip_ws_at(t, 8);
    lemma_skip_ws_at(t, 9);
    assert(t[9 + n] == z[0] && z[0] == '}');
    lemma_skip_ws_at(t, 9 + n);
    lemma_skip_ws_at(t, 10 + n);
    assert(spec_parse_param_members(t, 1, None, None) == Some(
        ((None::<Seq<char>>, Some(p.input)), 10 + n),
    ));
    assert(spec_parse_param(t, 0) == Some((ModerationParamV { model: None, input: p.input }, 10 + n)));
    assert(ModerationParamV { model: None, input: p.input } == p);
}

/// An encoded request with a model parses back to its value.
#[verifier::rlimit(100)]
proof fn lemma_param_round_trip_model(p: ModerationParamV, m: Seq<char>)
    requires
        p.model == Some(m),
    ensures
        spec_parse_param_text(spec_ser_param(p)) == Some(p),
{
    reveal(spec_parse_param);
    reveal_strlit("{\"model\":");
    reveal_strlit(",\"input\":");
    reveal_strlit("}");
    reveal_strlit("input");
    reveal_strlit("model");
    lemma_keys_plain();
    let b = "{\"model\":"@;
    let d = ",\"input\":"@;
    let z = "}"@;
    let sm = spec_ser_string(m);
    let si = spec_ser_string(p.input);
    let nm = sm.len() as int;
    let ni = si.len() as int;
    let t = spec_ser_param(p);
    assert(t == b + sm + d + si + z);
    assert(b.len() == 9 && d.len() == 9 && z.len() == 1);
    assert(t.len() == 19 + nm + ni);
    assert(nm >= 2 && ni >= 2);
    assert(t[0] == '{' && t[1] == '"' && t[2] == 'm' && t[3] == 'o' && t[4] == 'd' && t[5] == 'e'
        && t[6] == 'l' && t[7] == '"' && t[8] == ':');
    // first key
    let km = spec_ser_string("model"@);
    assert(km.len() == 7);
    assert(t.subrange(1, 8) =~= km) by {
        assert(km[0] == '"' && km[6] == '"');
        assert(km[1] == "model"@[0] && km[2] == "model"@[1] && km[3] == "model"@[2] && km[4]
            == "model"@[3] && km[5] == "model"@[4]);
        assert forall|k: int| 0 <= k < 7 implies t.subrange(1, 8)[k] == km[k] by {
            assert(t.subrange(1, 8)[k] == t[1 + k]);
            if k == 0 {
                assert(t[1] == km[0]);
            } else if k == 1 {
                assert(t[2] == km[1]);
            } else if k == 2 {
                assert(t[3] == km[2]);
            } else if k == 3 {
                assert(t[4] == km[3]);
            } else if k == 4 {
                assert(t[5] == km[4]);
            } else if k == 5 {
                assert(t[6] == km[5]);
            } else {
                assert(t[7] == km[6]);
            }
        }
    }
    lemma_parse_ser_string(t, 1, "model"@);
    // first value
    assert(t[9] == sm[0] && sm[0] == '"');
    assert(t.subrange(9, 9 + nm) =~= sm);
    lemma_parse_ser_string(t, 9, m);
    // separator and second key
    assert(t[9 + nm] == d[0] && d[0] == ',');
    assert(t[10 + nm] == d[1] && t[11 + nm] == d[2] && t[12 + nm] == d[3] && t[13 + nm] == d[4]
        && t[14 + nm] == d[5] && t[15 + nm] == d[6] && t[16 + nm] == d[7] && t[17 + nm] == d[8]);
    assert(d[1] == '"' && d[2] == 'i' && d[3] == 'n' && d[4] == 'p' && d[5] == 'u' && d[6] == 't'
        && d[7] == '"' && d[8] == ':');
    let ki = spec_ser_string("input"@);
    assert(ki.len() == 7);
    assert(t.subrange(10 + nm, 17 + nm) =~= ki) by {
        assert(ki[0] == '"' && ki[6] == '"');
        assert(ki[1] == "input"@[0] && ki[2] == "input"@[1] && ki[3] == "input"@[2] && ki[4]
            == "input"@[3] && ki[5] == "input"@[4]);
        assert forall|k: int| 0 <= k < 7 implies t.subrange(10 + nm, 17 + nm)[k] == ki[k] by {
            assert(t.subrange(10 + nm, 17 + nm)[k] == t[10 + nm + k]);
            if k == 0 {
                assert(t[10 + nm] == ki[0]);
            } else if k == 1 {
                assert(t[11 + nm] == ki[1]);
            } else if k == 2 {
                assert(t[12 + nm] == ki[2]);
            } else if k == 3 {
                assert(t[13 + nm] == ki[3]);
            } else if k == 4 {
                assert(t[14 + nm] == ki[4]);
            } else if k == 5 {
                assert(t[15 + nm] == ki[5]);
            } else {
                assert(t[16 + nm] == ki[6]);
            }
        }
    }
    lemma_parse_ser_string(t, 10 + nm, "input"@);
    // second value
    assert(t[18 + nm] == si[0] && si[0] == '"');
    assert(t.subrange(18 + nm, 18 + nm + ni) =~= si);
    lemma_parse_ser_string(t, 18 + nm, p.input);
    // closing brace
    assert(t[18 + nm + ni] == z[0] && z[0] == '}');
    // walk the object
    lemma_skip_ws_at(t, 0);
    lemma_skip_ws_at(t, 1);
    lemma_skip_ws_at(t, 8);
    lemma_skip_ws_at(t, 9);
    lemma_skip_ws_at(t, 9 + nm);
    lemma_skip_ws_at(t, 10 + nm);
    lemma_skip_ws_at(t, 17 + nm);
    lemma_skip_ws_at(t, 18 + nm);
    lemma_skip_ws_at(t, 18 + nm + ni);
    lemma_skip_ws_at(t, 19 + nm + ni);
    assert(spec_parse_param_members(t, 10 + nm, Some(m), None) == Some(
        ((Some(m), Some(p.input)), 19 + nm + ni),
    ));
    assert(spec_parse_param_members(t, 1, None, None) == Some(
        ((Some(m), Some(p.input)), 19 + nm + ni),
    ));
    assert(spec_parse_param(t, 0) == Some(
        (ModerationParamV { model: Some(m), input: p.input }, 19 + nm + ni),
    ));
    assert(ModerationParamV { model: Some(m), input: p.input } == p);
}

/// Round trip of the request parameters: the encoded text, read back as the
/// server reads it, gives the parameters unchanged — in particular `input`
/// survives the trip for every value, escaping included — and when `model`
/// is unset the text is exactly the one-member object, so no `model` key and
/// no `null` stands in it.
pub proof fn lemma_param_round_trip(p: ModerationParamV)
    ensures
        spec_parse_param_text(spec_ser_param(p)) == Some(p),
        p.model is None ==> spec_ser_param(p) == "{\"input\":"@ + spec_ser_string(p.input) + "}"@,
{
    match p.model {
        None => lemma_param_round_trip_no_model(p),
        Some(m) => lemma_param_round_trip_model(p, m),
    }
}

/// The wire keys of the per-category flags map to their fields exactly, in
/// both directions: decoding routes `"hate"` and `"hate/threatening"` to the
/// two distinct fields, each leaving the other untouched, and encoding
/// writes each field under its own wire key, `hate_threatening` under the
/// key holding the slash.
pub proof fn lemma_wire_key_mapping(c: Categories, b: bool)
    ensures
        spec_set_category(c, "hate"@, b) == Some(Categories { hate: b, ..c }),
        spec_set_category(c, "hate/threatening"@, b) == Some(
            Categories { hate_threatening: b, ..c },
        ),
        "hate"@ != "hate/threatening"@,
        spec_ser_categories(c) == "{\"hate\":"@ + spec_ser_bool(c.hate)
            + ",\"hate/threatening\":"@ + spec_ser_bool(c.hate_threatening) + ",\"self-harm\":"@
            + spec_ser_bool(c.self_harm) + ",\"sexual\":"@ + spec_ser_bool(c.sexual)
            + ",\"sexual/minors\":"@ + spec_ser_bool(c.sexual_minors) + ",\"violence\":"@
            + spec_ser_bool(c.violence) + ",\"violence/graphic\":"@ + spec_ser_bool(
            c.violence_graphic,
        ) + "}"@,
{
    reveal_strlit("hate");
    reveal_strlit("hate/threatening");
    assert("hate"@.len() != "hate/threatening"@.len());
}
} // verus!
