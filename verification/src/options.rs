//! Option parser: turns the named text fields of a request into a typed,
//! defaulted configuration. Malformed values never fail a request; each
//! field falls back independently.

use vstd::prelude::*;
use vstd::utf8::valid_utf8;
use vstd::utf8::decode_utf8;
use crate::text::is_digit;
use crate::text::is_true_token;
use crate::text::is_true_str;
use crate::text::str_eq;
use crate::text::spec_parse_u32;
use crate::text::parse_u32_str;
use crate::text::trimmed;
use crate::text::unsigned_body;
use crate::text::trim_str;

verus! {

/// Relies on String::from_utf8: `Ok` exactly on valid UTF-8 input, whose
/// decoding it returns.
#[verifier::external_body]
fn decode_utf8_bytes(v: &Vec<u8>) -> (r: Option<String>)
    ensures
        r is Some <==> valid_utf8(v@),
        r matches Some(s) ==> s@ == decode_utf8(v@),
{
    String::from_utf8(v.clone()).ok()
}

/// How many times `c` occurs in `s`.
pub open spec fn count_char(s: Seq<char>, c: char) -> nat
    decreases s.len(),
{
    if s.len() == 0 {
        0
    } else {
        count_char(s.drop_last(), c) + (if s.last() == c {
            1nat
        } else {
            0nat
        })
    }
}

/// A well-formed zoom body: digits with at most one decimal point, naming a
/// positive value.
pub open spec fn zoom_body_ok_spec(s: Seq<char>) -> bool {
    &&& s.len() > 0
    &&& forall|i: int| 0 <= i < s.len() ==> is_digit(#[trigger] s[i]) || s[i] == '.'
    &&& count_char(s, '.') <= 1
    &&& exists|i: int| 0 <= i < s.len() && is_digit(#[trigger] s[i]) && s[i] != '0'
}

/// The accepted spelling of a zoom factor: an optional leading `+` (as for
/// the numeric fields), then a well-formed body.
pub open spec fn is_zoom_token(s: Seq<char>) -> bool {
    zoom_body_ok_spec(unsigned_body(s))
}

fn zoom_body_ok(t: &str) -> (r: bool)
    ensures
        r == zoom_body_ok_spec(t@),
{
    let n = t.unicode_len();
    let mut dots: usize = 0;
    let mut nonzero: bool = false;
    let mut k: usize = 0;
    proof {
        assert(t@.take(0) =~= Seq::<char>::empty());
    }
    while k < n
        invariant
            0 <= k <= n,
            n == t@.len(),
            dots == count_char(t@.take(k as int), '.'),
            dots <= k,
            forall|i: int| 0 <= i < k ==> is_digit(#[trigger] t@[i]) || t@[i] == '.',
            nonzero == exists|i: int| 0 <= i < k && is_digit(#[trigger] t@[i]) && t@[i] != '0',
        decreases n - k,
    {
        let c = t.get_char(k);
        let u = c as u32;
        proof {
            assert(t@.take(k as int + 1).drop_last() =~= t@.take(k as int));
            assert(t@.take(k as int + 1).last() == t@[k as int]);
        }
        if c == '.' {
            dots = dots + 1;
        } else if 48 <= u && u <= 57 {
            if u != 48 {
                nonzero = true;
            }
        } else {
            proof {
                assert(!(is_digit(t@[k as int]) || t@[k as int] == '.'));
            }
            return false;
        }
        k = k + 1;
    }
    proof {
        assert(t@.take(n as int) =~= t@);
    }
    n > 0 && dots <= 1 && nonzero
}

/// What one boolean field's bytes mean: `None` leaves the field unchanged
/// (the bytes were not text); otherwise the field is set, true exactly on a
/// true token.
pub open spec fn spec_bool_field(data: Seq<u8>) -> Option<bool> {
    if valid_utf8(data) {
        Some(is_true_token(trimmed(decode_utf8(data))))
    } else {
        None
    }
}

/// Reads one boolean field.
pub fn parse_bool_field(data: &Vec<u8>) -> (r: Option<bool>)
    ensures
        r == spec_bool_field(data@),
{
    match decode_utf8_bytes(data) {
        None => None,
        Some(s) => {
            let t = trim_str(s.as_str());
            Some(is_true_str(t.as_str()))
        },
    }
}

/// What one numeric field's bytes mean: the outer `None` leaves the field
/// unchanged (the bytes were not text); otherwise the field is overwritten
/// with the parse result, `None` on a malformed number.
pub open spec fn spec_u32_field(data: Seq<u8>) -> Option<Option<u32>> {
    if valid_utf8(data) {
        Some(spec_parse_u32(trimmed(decode_utf8(data))))
    } else {
        None
    }
}

/// Reads one numeric field.
pub fn parse_u32_field(data: &Vec<u8>) -> (r: Option<Option<u32>>)
    ensures
        r == spec_u32_field(data@),
{
    match decode_utf8_bytes(data) {
        None => None,
        Some(s) => {
            let t = trim_str(s.as_str());
            Some(parse_u32_str(t.as_str()))
        },
    }
}

/// What the zoom field's bytes mean, as for the numeric fields; a well-formed
/// value is kept as its trimmed spelling, minus any leading `+`.
pub open spec fn spec_zoom_field(data: Seq<u8>) -> Option<Option<Seq<char>>> {
    if valid_utf8(data) {
        if is_zoom_token(trimmed(decode_utf8(data))) {
            Some(Some(unsigned_body(trimmed(decode_utf8(data)))))
        } else {
            Some(None)
        }
    } else {
        None
    }
}

/// Reads the zoom field.
pub fn parse_zoom_field(data: &Vec<u8>) -> (r: Option<Option<String>>)
    ensures
        r.deep_view() == spec_zoom_field(data@),
{
    match decode_utf8_bytes(data) {
        None => None,
        Some(s) => {
            let t = trim_str(s.as_str());
            let n = t.as_str().unicode_len();
            let body: String = if n > 0 && t.as_str().get_char(0) == '+' {
                proof {
                    assert(t@.drop_first() =~= t@.subrange(1, n as int));
                }
                t.as_str().substring_char(1, n).to_owned()
            } else {
                t
            };
            proof {
                assert(body@ == unsigned_body(trimmed(decode_utf8(data@))));
            }
            if zoom_body_ok(body.as_str()) {
                Some(Some(body))
            } else {
                Some(None)
            }
        },
    }
}

/// The configuration of one conversion. A field left `None` (and, for the
/// embed flags, `Some(true)`) is the converter's built-in default and never
/// reaches the command line.
pub struct ConversionOptions {
    pub zoom: Option<String>,
    pub fit_width: Option<u32>,
    pub fit_height: Option<u32>,
    pub embed_css: Option<bool>,
    pub embed_font: Option<bool>,
    pub embed_image: Option<bool>,
    pub embed_javascript: Option<bool>,
    pub split_pages: Option<bool>,
    pub first_page: Option<u32>,
    pub last_page: Option<u32>,
}

/// The mathematical value of a configuration.
pub struct OptionsV {
    pub zoom: Option<Seq<char>>,
    pub fit_width: Option<u32>,
    pub fit_height: Option<u32>,
    pub embed_css: Option<bool>,
    pub embed_font: Option<bool>,
    pub embed_image: Option<bool>,
    pub embed_javascript: Option<bool>,
    pub split_pages: Option<bool>,
    pub first_page: Option<u32>,
    pub last_page: Option<u32>,
}

impl View for ConversionOptions {
    type V = OptionsV;

    open spec fn view(&self) -> OptionsV {
        OptionsV {
            zoom: match self.zoom {
                Some(z) => Some(z@),
                None => None,
            },
            fit_width: self.fit_width,
            fit_height: self.fit_height,
            embed_css: self.embed_css,
            embed_font: self.embed_font,
            embed_image: self.embed_image,
            embed_javascript: self.embed_javascript,
            split_pages: self.split_pages,
            first_page: self.first_page,
            last_page: self.last_page,
        }
    }
}

/// The configuration before any field arrives: embedding on, everything else
/// absent.
pub open spec fn spec_default_options() -> OptionsV {
    OptionsV {
        zoom: None,
        fit_width: None,
        fit_height: None,
        embed_css: Some(true),
        embed_font: Some(true),
        embed_image: Some(true),
        embed_javascript: Some(true),
        split_pages: None,
        first_page: None,
        last_page: None,
    }
}

/// The defaulted configuration.
pub fn default_options() -> (r: ConversionOptions)
    ensures
        r@ == spec_default_options(),
{
    ConversionOptions {
        zoom: None,
        fit_width: None,
        fit_height: None,
        embed_css: Some(true),
        embed_font: Some(true),
        embed_image: Some(true),
        embed_javascript: Some(true),
        split_pages: None,
        first_page: None,
        last_page: None,
    }
}

/// How one named field updates the configuration. Unknown names (and the
/// file field itself) change nothing.
pub open spec fn spec_apply_field(o: OptionsV, name: Seq<char>, data: Seq<u8>) -> OptionsV {
    if name == "zoom"@ {
        match spec_zoom_field(data) {
            Some(v) => OptionsV { zoom: v, ..o },
            None => o,
        }
    } else if name == "fit_width"@ {
        match spec_u32_field(data) {
            Some(v) => OptionsV { fit_width: v, ..o },
            None => o,
        }
    } else if name == "fit_height"@ {
        match spec_u32_field(data) {
            Some(v) => OptionsV { fit_height: v, ..o },
            None => o,
        }
    } else if name == "embed_css"@ {
        match spec_bool_field(data) {
            Some(v) => OptionsV { embed_css: Some(v), ..o },
            None => o,
        }
    } else if name == "embed_font"@ {
        match spec_bool_field(data) {
            Some(v) => OptionsV { embed_font: Some(v), ..o },
            None => o,
        }
    } else if name == "embed_image"@ {
        match spec_bool_field(data) {
            Some(v) => OptionsV { embed_image: Some(v), ..o },
            None => o,
        }
    } else if name == "embed_javascript"@ {
        match spec_bool_field(data) {
            Some(v) => OptionsV { embed_javascript: Some(v), ..o },
            None => o,
        }
    } else if name == "split_pages"@ {
        match spec_bool_field(data) {
            Some(v) => OptionsV { split_pages: Some(v), ..o },
            None => o,
        }
    } else if name == "first_page"@ {
        match spec_u32_field(data) {
            Some(v) => OptionsV { first_page: v, ..o },
            None => o,
        }
    } else if name == "last_page"@ {
        match spec_u32_field(data) {
            Some(v) => OptionsV { last_page: v, ..o },
            None => o,
        }
    } else {
        o
    }
}

/// Applies one named field to the configuration.
pub fn apply_field(o: ConversionOptions, name: &str, data: &Vec<u8>) -> (r: ConversionOptions)
    ensures
        r@ == spec_apply_field(o@, name@, data@),
{
    if str_eq(name, "zoom") {
        match parse_zoom_field(data) {
            Some(v) => ConversionOptions { zoom: v, ..o },
            None => o,
        }
    } else if str_eq(name, "fit_width") {
        match parse_u32_field(data) {
            Some(v) => ConversionOptions { fit_width: v, ..o },
            None => o,
        }
    } else if str_eq(name, "fit_height") {
        match parse_u32_field(data) {
            Some(v) => ConversionOptions { fit_height: v, ..o },
            None => o,
        }
    } else if str_eq(name, "embed_css") {
        match parse_bool_field(data) {
            Some(v) => ConversionOptions { embed_css: Some(v), ..o },
            None => o,
        }
    } else if str_eq(name, "embed_font") {
        match parse_bool_field(data) {
            Some(v) => ConversionOptions { embed_font: Some(v), ..o },
            None => o,
        }
    } else if str_eq(name, "embed_image") {
        match parse_bool_field(data) {
            Some(v) => ConversionOptions { embed_image: Some(v), ..o },
            None => o,
        }
    } else if str_eq(name, "embed_javascript") {
        match parse_bool_field(data) {
            Some(v) => ConversionOptions { embed_javascript: Some(v), ..o },
            None => o,
        }
    } else if str_eq(name, "split_pages") {
        match parse_bool_field(data) {
            Some(v) => ConversionOptions { split_pages: Some(v), ..o },
            None => o,
        }
    } else if str_eq(name, "first_page") {
        match parse_u32_field(data) {
            Some(v) => ConversionOptions { first_page: v, ..o },
            None => o,
        }
    } else if str_eq(name, "last_page") {
        match parse_u32_field(data) {
            Some(v) => ConversionOptions { last_page: v, ..o },
            None => o,
        }
    } else {
        o
    }
}

/// The configuration an ordered field list yields: defaults first, then each
/// field applied in order, a later occurrence overwriting an earlier one.
pub open spec fn spec_parse_options(fields: Seq<(String, Vec<u8>)>) -> OptionsV
    decreases fields.len(),
{
    if fields.len() == 0 {
        spec_default_options()
    } else {
        spec_apply_field(
            spec_parse_options(fields.drop_last()),
            fields.last().0@,
            fields.last().1@,
        )
    }
}

/// Parses an ordered list of named fields into a configuration. Never fails:
/// option noise falls back to the field's default.
pub fn parse_options(fields: &Vec<(String, Vec<u8>)>) -> (r: ConversionOptions)
    ensures
        r@ == spec_parse_options(fields@),
{
    let mut r = default_options();
    let mut k: usize = 0;
    proof {
        assert(fields@.take(0) =~= Seq::<(String, Vec<u8>)>::empty());
    }
    while k < fields.len()
        invariant
            0 <= k <= fields@.len(),
            r@ == spec_parse_options(fields@.take(k as int)),
        decreases fields@.len() - k,
    {
        let f: &(String, Vec<u8>) = &fields[k];
        r = apply_field(r, f.0.as_str(), &f.1);
        proof {
            assert(fields@.take(k as int + 1).drop_last() =~= fields@.take(k as int));
            assert(fields@.take(k as int + 1).last() == fields@[k as int]);
        }
        k = k + 1;
    }
    proof {
        assert(fields@.take(fields@.len() as int) =~= fields@);
    }
    r
}

/// Bytes that are not text never touch the configuration, whatever the field
/// name: every field keeps its previous value.
pub proof fn lemma_unreadable_field_inert(o: OptionsV, name: Seq<char>, data: Seq<u8>)
    requires
        !valid_utf8(data),
    ensures
        spec_apply_field(o, name, data) == o,
{
}

/// Malformed numeric noise yields exactly the documented default: on a
/// defaulted configuration, a numeric field whose value does not parse
/// leaves the configuration fully defaulted (and in particular never fails
/// the request).
pub proof fn lemma_malformed_numeric_defaults(name: Seq<char>, data: Seq<u8>)
    requires
        name == "fit_width"@ || name == "fit_height"@ || name == "first_page"@ || name
            == "last_page"@,
        !(valid_utf8(data) && spec_parse_u32(trimmed(decode_utf8(data))) is Some),
    ensures
        spec_apply_field(spec_default_options(), name, data) == spec_default_options(),
{
    reveal_strlit("zoom");
    reveal_strlit("fit_width");
    reveal_strlit("fit_height");
    reveal_strlit("embed_css");
    reveal_strlit("embed_font");
    reveal_strlit("embed_image");
    reveal_strlit("embed_javascript");
    reveal_strlit("split_pages");
    reveal_strlit("first_page");
    reveal_strlit("last_page");
    let d = spec_default_options();
    assert("zoom"@.len() == 4);
    assert("fit_width"@.len() == 9);
    assert("fit_height"@.len() == 10);
    assert("embed_css"@.len() == 9);
    assert("embed_font"@.len() == 10);
    assert("embed_image"@.len() == 11);
    assert("embed_javascript"@.len() == 16);
    assert("split_pages"@.len() == 11);
    assert("first_page"@.len() == 10);
    assert("last_page"@.len() == 9);
    if name == "fit_width"@ {
        assert(name != "zoom"@);
        assert(spec_apply_field(d, name, data) =~= d);
    } else if name == "fit_height"@ {
        assert(name != "zoom"@ && name != "fit_width"@);
        assert(spec_apply_field(d, name, data) =~= d);
    } else if name == "first_page"@ {
        assert(name != "fit_height"@) by {
            assert("first_page"@[2] == 'r');
            assert("fit_height"@[2] == 't');
        }
        assert(name != "embed_font"@) by {
            assert("first_page"@[0] == 'f');
            assert("embed_font"@[0] == 'e');
        }
        assert(name != "zoom"@ && name != "fit_width"@ && name != "embed_css"@ && name
            != "embed_image"@ && name != "embed_javascript"@ && name != "split_pages"@);
        assert(spec_apply_field(d, name, data) =~= d);
    } else {
        assert(name == "last_page"@);
        assert(name != "fit_width"@) by {
            assert("last_page"@[0] == 'l');
            assert("fit_width"@[0] == 'f');
        }
        assert(name != "embed_css"@) by {
            assert("last_page"@[0] == 'l');
            assert("embed_css"@[0] == 'e');
        }
        assert(name != "zoom"@ && name != "fit_height"@ && name != "embed_font"@ && name
            != "embed_image"@ && name != "embed_javascript"@ && name != "split_pages"@ && name
            != "first_page"@);
        assert(spec_apply_field(d, name, data) =~= d);
    }
}

/// A malformed zoom value yields exactly the documented default: on a
/// defaulted configuration the zoom stays absent.
pub proof fn lemma_malformed_zoom_defaults(data: Seq<u8>)
    requires
        !(valid_utf8(data) && is_zoom_token(trimmed(decode_utf8(data)))),
    ensures
        spec_apply_field(spec_default_options(), "zoom"@, data) == spec_default_options(),
{
}

} // verus!
