//! Build the `Get-Printer-Attributes` / `Validate-Job` and job responses.

use vstd::prelude::*;

use crate::datetime::{datetime_utc, lemma_names_instant_unique, names_instant, CivilDateTime};
use crate::flags::{has_bits, reason_keywords, str_views};
use crate::job::{job_state_code, JobRecord, JobRecordV, JobState};
use crate::message::{
    attr, attr_set, attrs_view, empty_response, groups_view, kw, new_response,
    response_operation_group, values_view, AttrValueV, Attribute, AttributeGroup,
    AttributeGroupV, AttributeV, GroupTag, IppMessage, IppMessageV, Value, ValueV, STATUS_OK,
};
use crate::printer::{
    advertise_host, advertised_host, display_label_spec, printer_state_code, printer_uri_spec, IppPrinterState,
    PrinterConfig, PrinterRecord,
};
use crate::text::{decimal, owned, push_decimal, push_str, str_eq};

verus! {

// ---------------------------------------------------------------------------
// Values shared by several attributes.
// ---------------------------------------------------------------------------

/// `http://<host>:<port><path>`, with `localhost` for an unspecified host.
pub open spec fn http_uri_spec(host: Seq<char>, port: u16, path: Seq<char>) -> Seq<char> {
    "http://"@ + advertised_host(host) + ":"@ + decimal(port as nat) + path
}

fn http_uri(host: &str, port: u16, path: &str) -> (r: String)
    ensures
        r@ == http_uri_spec(host@, port, path@),
{
    let mut s = owned("http://");
    push_str(&mut s, advertise_host(host));
    push_str(&mut s, ":");
    push_decimal(&mut s, port as u64);
    push_str(&mut s, path);
    s
}

/// Keyword values for a list of keywords.
pub open spec fn keyword_values(ks: Seq<Seq<char>>) -> Seq<ValueV> {
    ks.map_values(|k: Seq<char>| ValueV::Keyword(k))
}

/// The views of a list of strings.
pub open spec fn strings_view(v: Seq<String>) -> Seq<Seq<char>> {
    v.map_values(|s: String| s@)
}

fn keywords_from_strs(items: &Vec<&'static str>) -> (r: Vec<Value>)
    ensures
        values_view(r@) == keyword_values(str_views(items@)),
{
    let mut out: Vec<Value> = Vec::new();
    let mut i: usize = 0;
    while i < items.len()
        invariant
            i <= items@.len(),
            values_view(out@) == keyword_values(str_views(items@.take(i as int))),
        decreases items@.len() - i,
    {
        let ghost before = out@;
        out.push(kw(items[i]));
        proof {
            assert(items@.take(i + 1) =~= items@.take(i as int).push(items@[i as int]));
            assert(values_view(out@) =~= values_view(before).push(ValueV::Keyword(items@[i as int]@)));
            assert(keyword_values(str_views(items@.take(i + 1))) =~= keyword_values(str_views(items@.take(i as int))).push(ValueV::Keyword(items@[i as int]@)));
        }
        i = i + 1;
    }
    proof {
        assert(items@.take(items@.len() as int) =~= items@);
    }
    out
}

fn keywords_from_strings(items: &Vec<String>) -> (r: Vec<Value>)
    ensures
        values_view(r@) == keyword_values(strings_view(items@)),
{
    let mut out: Vec<Value> = Vec::new();
    let mut i: usize = 0;
    while i < items.len()
        invariant
            i <= items@.len(),
            values_view(out@) == keyword_values(strings_view(items@.take(i as int))),
        decreases items@.len() - i,
    {
        let ghost before = out@;
        out.push(kw(items[i].as_str()));
        proof {
            assert(items@.take(i + 1) =~= items@.take(i as int).push(items@[i as int]));
            assert(values_view(out@) =~= values_view(before).push(ValueV::Keyword(items@[i as int]@)));
            assert(keyword_values(strings_view(items@.take(i + 1))) =~= keyword_values(strings_view(items@.take(i as int))).push(ValueV::Keyword(items@[i as int]@)));
        }
        i = i + 1;
    }
    proof {
        assert(items@.take(items@.len() as int) =~= items@);
    }
    out
}

/// Whether `names` holds `name`.
pub fn contains_name(names: &Vec<String>, name: &str) -> (r: bool)
    ensures
        r == strings_view(names@).contains(name@),
{
    let mut i: usize = 0;
    while i < names.len()
        invariant
            i <= names@.len(),
            forall|k: int| 0 <= k < i ==> names@[k]@ != name@,
        decreases names@.len() - i,
    {
        if str_eq(names[i].as_str(), name) {
            proof {
                assert(strings_view(names@)[i as int] == name@);
            }
            return true;
        }
        i = i + 1;
    }
    proof {
        if strings_view(names@).contains(name@) {
            let k = choose|k: int| 0 <= k < strings_view(names@).len() && strings_view(names@)[k] == name@;
            assert(names@[k]@ == name@);
        }
    }
    false
}

/// The views of an optional `requested-attributes` list.
pub open spec fn requested_view(requested: Option<&Vec<String>>) -> Option<Seq<Seq<char>>> {
    match requested {
        Some(v) => Some(strings_view(v@)),
        None => None,
    }
}

/// Keep the attributes whose name is in `names`, in order.
pub open spec fn keep_named(attrs: Seq<AttributeV>, names: Seq<Seq<char>>) -> Seq<AttributeV> {
    attrs.filter(|a: AttributeV| names.contains(a.name))
}

fn retain_named(attrs: Vec<Attribute>, names: &Vec<String>) -> (r: Vec<Attribute>)
    ensures
        attrs_view(r@) == keep_named(attrs_view(attrs@), strings_view(names@)),
{
    let ghost all = attrs_view(attrs@);
    let ghost nv = strings_view(names@);
    let mut items = attrs;
    let mut out: Vec<Attribute> = Vec::new();
    let ghost mut done: Seq<AttributeV> = seq![];
    while items.len() > 0
        invariant
            done + attrs_view(items@) == all,
            nv == strings_view(names@),
            attrs_view(out@) == keep_named(done, nv),
        decreases items@.len(),
    {
        let ghost before_items = items@;
        let ghost before_out = attrs_view(out@);
        let a = items.remove(0);
        let keep = contains_name(names, a.name.as_str());
        proof {
            assert(attrs_view(before_items) =~= seq![a@] + attrs_view(items@));
            assert(done.push(a@) + attrs_view(items@) =~= all);
            reveal_with_fuel(Seq::filter, 1);
            assert(done.push(a@).drop_last() =~= done);
            done = done.push(a@);
        }
        if keep {
            out.push(a);
            proof {
                assert(attrs_view(out@) =~= before_out.push(done.last()));
            }
        } else {
            proof {
                assert(attrs_view(out@) =~= before_out);
            }
        }
    }
    proof {
        assert(done =~= all);
    }
    out
}

// ---------------------------------------------------------------------------
// Constant descriptor sections.
// ---------------------------------------------------------------------------

/// Protocol, operation, charset and language descriptors.
pub open spec fn descriptor_section() -> Seq<AttributeV> {
    seq![
        AttributeV { name: "ipp-versions-supported"@, value: AttrValueV::Many(seq![ValueV::Keyword("1.1"@), ValueV::Keyword("2.0"@), ValueV::Keyword("2.1"@)]) },
        AttributeV { name: "ipp-features-supported"@, value: AttrValueV::Many(seq![ValueV::Keyword("ipp-everywhere"@)]) },
        AttributeV { name: "pdl-override-supported"@, value: AttrValueV::One(ValueV::Keyword("attempted"@)) },
        AttributeV { name: "operations-supported"@, value: AttrValueV::Many(seq![ValueV::Enum(0x0002i32), ValueV::Enum(0x0004i32), ValueV::Enum(0x0005i32), ValueV::Enum(0x0006i32), ValueV::Enum(0x0008i32), ValueV::Enum(0x0009i32), ValueV::Enum(0x000ai32), ValueV::Enum(0x000bi32), ValueV::Enum(0x0039i32), ValueV::Enum(0x003bi32), ValueV::Enum(0x003ci32)]) },
        AttributeV { name: "charset-configured"@, value: AttrValueV::One(ValueV::Charset("utf-8"@)) },
        AttributeV { name: "charset-supported"@, value: AttrValueV::Many(seq![ValueV::Charset("utf-8"@)]) },
        AttributeV { name: "natural-language-configured"@, value: AttrValueV::One(ValueV::NaturalLanguage("en"@)) },
        AttributeV { name: "natural-language-supported"@, value: AttrValueV::Many(seq![ValueV::NaturalLanguage("en"@)]) },
        AttributeV { name: "generated-natural-language-supported"@, value: AttrValueV::Many(seq![ValueV::NaturalLanguage("en"@)]) },
        AttributeV { name: "compression-supported"@, value: AttrValueV::Many(seq![ValueV::Keyword("none"@)]) },
    ]
}

fn descriptor_attributes() -> (r: Vec<Attribute>)
    ensures
        attrs_view(r@) == descriptor_section(),
{
    let mut v: Vec<Attribute> = Vec::new();
    {
        let mut vs: Vec<Value> = Vec::new();
        vs.push(kw("1.1"));
        vs.push(kw("2.0"));
        vs.push(kw("2.1"));
        proof { assert(values_view(vs@) =~= seq![ValueV::Keyword("1.1"@), ValueV::Keyword("2.0"@), ValueV::Keyword("2.1"@)]); }
        v.push(attr_set("ipp-versions-supported", vs));
    }
    {
        let mut vs: Vec<Value> = Vec::new();
        vs.push(kw("ipp-everywhere"));
        proof { assert(values_view(vs@) =~= seq![ValueV::Keyword("ipp-everywhere"@)]); }
        v.push(attr_set("ipp-features-supported", vs));
    }
    v.push(attr("pdl-override-supported", kw("attempted")));
    {
        let mut vs: Vec<Value> = Vec::new();
        vs.push(Value::Enum(0x0002));
        vs.push(Value::Enum(0x0004));
        vs.push(Value::Enum(0x0005));
        vs.push(Value::Enum(0x0006));
        vs.push(Value::Enum(0x0008));
        vs.push(Value::Enum(0x0009));
        vs.push(Value::Enum(0x000a));
        vs.push(Value::Enum(0x000b));
        vs.push(Value::Enum(0x0039));
        vs.push(Value::Enum(0x003b));
        vs.push(Value::Enum(0x003c));
        proof { assert(values_view(vs@) =~= seq![ValueV::Enum(0x0002i32), ValueV::Enum(0x0004i32), ValueV::Enum(0x0005i32), ValueV::Enum(0x0006i32), ValueV::Enum(0x0008i32), ValueV::Enum(0x0009i32), ValueV::Enum(0x000ai32), ValueV::Enum(0x000bi32), ValueV::Enum(0x0039i32), ValueV::Enum(0x003bi32), ValueV::Enum(0x003ci32)]); }
        v.push(attr_set("operations-supported", vs));
    }
    v.push(attr("charset-configured", Value::Charset(owned("utf-8"))));
    {
        let mut vs: Vec<Value> = Vec::new();
        vs.push(Value::Charset(owned("utf-8")));
        proof { assert(values_view(vs@) =~= seq![ValueV::Charset("utf-8"@)]); }
        v.push(attr_set("charset-supported", vs));
    }
    v.push(attr("natural-language-configured", Value::NaturalLanguage(owned("en"))));
    {
        let mut vs: Vec<Value> = Vec::new();
        vs.push(Value::NaturalLanguage(owned("en")));
        proof { assert(values_view(vs@) =~= seq![ValueV::NaturalLanguage("en"@)]); }
        v.push(attr_set("natural-language-supported", vs));
    }
    {
        let mut vs: Vec<Value> = Vec::new();
        vs.push(Value::NaturalLanguage(owned("en")));
        proof { assert(values_view(vs@) =~= seq![ValueV::NaturalLanguage("en"@)]); }
        v.push(attr_set("generated-natural-language-supported", vs));
    }
    {
        let mut vs: Vec<Value> = Vec::new();
        vs.push(kw("none"));
        proof { assert(values_view(vs@) =~= seq![ValueV::Keyword("none"@)]); }
        v.push(attr_set("compression-supported", vs));
    }
    proof { assert(attrs_view(v@) =~= descriptor_section()); }
    v
}

/// Document-format default and PWG raster descriptors.
pub open spec fn raster_section(dpi: i32) -> Seq<AttributeV> {
    seq![
        AttributeV { name: "document-format-default"@, value: AttrValueV::One(ValueV::MimeMediaType("image/pwg-raster"@)) },
        AttributeV { name: "pwg-raster-document-type-supported"@, value: AttrValueV::Many(seq![ValueV::Keyword("black_1"@)]) },
        AttributeV { name: "pwg-raster-document-resolution-supported"@, value: AttrValueV::Many(seq![ValueV::Resolution { cross_feed: dpi, feed: dpi, units: 3i8 }]) },
        AttributeV { name: "urf-supported"@, value: AttrValueV::Many(seq![ValueV::Keyword("W8"@), ValueV::Keyword("SRGB24"@), ValueV::Keyword("CP1"@), ValueV::Keyword("RS203"@)]) },
    ]
}

fn raster_attributes(dpi: i32) -> (r: Vec<Attribute>)
    ensures
        attrs_view(r@) == raster_section(dpi),
{
    let mut v: Vec<Attribute> = Vec::new();
    v.push(attr("document-format-default", Value::MimeMediaType(owned("image/pwg-raster"))));
    {
        let mut vs: Vec<Value> = Vec::new();
        vs.push(kw("black_1"));
        proof { assert(values_view(vs@) =~= seq![ValueV::Keyword("black_1"@)]); }
        v.push(attr_set("pwg-raster-document-type-supported", vs));
    }
    {
        let mut vs: Vec<Value> = Vec::new();
        vs.push(Value::Resolution { cross_feed: dpi, feed: dpi, units: 3 });
        proof { assert(values_view(vs@) =~= seq![ValueV::Resolution { cross_feed: dpi, feed: dpi, units: 3i8 }]); }
        v.push(attr_set("pwg-raster-document-resolution-supported", vs));
    }
    {
        let mut vs: Vec<Value> = Vec::new();
        vs.push(kw("W8"));
        vs.push(kw("SRGB24"));
        vs.push(kw("CP1"));
        vs.push(kw("RS203"));
        proof { assert(values_view(vs@) =~= seq![ValueV::Keyword("W8"@), ValueV::Keyword("SRGB24"@), ValueV::Keyword("CP1"@), ValueV::Keyword("RS203"@)]); }
        v.push(attr_set("urf-supported", vs));
    }
    proof { assert(attrs_view(v@) =~= raster_section(dpi)); }
    v
}

/// Color, sides, orientation, identify, media-source/type, output-bin, content-optimize, finishings, job-creation and resolution descriptors.
pub open spec fn capability_section(dpi: i32) -> Seq<AttributeV> {
    seq![
        AttributeV { name: "color-supported"@, value: AttrValueV::One(ValueV::Boolean(false)) },
        AttributeV { name: "print-color-mode-supported"@, value: AttrValueV::Many(seq![ValueV::Keyword("monochrome"@)]) },
        AttributeV { name: "print-color-mode-default"@, value: AttrValueV::One(ValueV::Keyword("monochrome"@)) },
        AttributeV { name: "sides-supported"@, value: AttrValueV::Many(seq![ValueV::Keyword("one-sided"@)]) },
        AttributeV { name: "sides-default"@, value: AttrValueV::One(ValueV::Keyword("one-sided"@)) },
        AttributeV { name: "orientation-requested-default"@, value: AttrValueV::One(ValueV::Enum(3i32)) },
        AttributeV { name: "orientation-requested-supported"@, value: AttrValueV::Many(seq![ValueV::Enum(3i32), ValueV::Enum(4i32), ValueV::Enum(5i32), ValueV::Enum(6i32)]) },
        AttributeV { name: "identify-actions-supported"@, value: AttrValueV::Many(seq![ValueV::Keyword("display"@), ValueV::Keyword("sound"@)]) },
        AttributeV { name: "identify-actions-default"@, value: AttrValueV::Many(seq![ValueV::Keyword("display"@)]) },
        AttributeV { name: "media-source-supported"@, value: AttrValueV::Many(seq![ValueV::Keyword("main"@)]) },
        AttributeV { name: "media-type-supported"@, value: AttrValueV::Many(seq![ValueV::Keyword("labels"@), ValueV::Keyword("stationery"@)]) },
        AttributeV { name: "output-bin-supported"@, value: AttrValueV::Many(seq![ValueV::Keyword("face-up"@)]) },
        AttributeV { name: "output-bin-default"@, value: AttrValueV::One(ValueV::Keyword("face-up"@)) },
        AttributeV { name: "print-content-optimize-supported"@, value: AttrValueV::Many(seq![ValueV::Keyword("auto"@), ValueV::Keyword("graphic"@), ValueV::Keyword("photo"@), ValueV::Keyword("text"@), ValueV::Keyword("text-and-graphic"@)]) },
        AttributeV { name: "print-content-optimize-default"@, value: AttrValueV::One(ValueV::Keyword("auto"@)) },
        AttributeV { name: "finishings-supported"@, value: AttrValueV::Many(seq![ValueV::Enum(3i32)]) },
        AttributeV { name: "finishings-default"@, value: AttrValueV::One(ValueV::Enum(3i32)) },
        AttributeV { name: "job-creation-attributes-supported"@, value: AttrValueV::Many(seq![ValueV::Keyword("copies"@), ValueV::Keyword("media"@), ValueV::Keyword("media-col"@), ValueV::Keyword("orientation-requested"@), ValueV::Keyword("print-color-mode"@), ValueV::Keyword("print-content-optimize"@), ValueV::Keyword("print-quality"@), ValueV::Keyword("printer-resolution"@), ValueV::Keyword("sides"@)]) },
        AttributeV { name: "printer-resolution-default"@, value: AttrValueV::One(ValueV::Resolution { cross_feed: dpi, feed: dpi, units: 3i8 }) },
        AttributeV { name: "printer-resolution-supported"@, value: AttrValueV::Many(seq![ValueV::Resolution { cross_feed: dpi, feed: dpi, units: 3i8 }]) },
    ]
}

fn capability_attributes(dpi: i32) -> (r: Vec<Attribute>)
    ensures
        attrs_view(r@) == capability_section(dpi),
{
    let mut v: Vec<Attribute> = Vec::new();
    v.push(attr("color-supported", Value::Boolean(false)));
    {
        let mut vs: Vec<Value> = Vec::new();
        vs.push(kw("monochrome"));
        proof { assert(values_view(vs@) =~= seq![ValueV::Keyword("monochrome"@)]); }
        v.push(attr_set("print-color-mode-supported", vs));
    }
    v.push(attr("print-color-mode-default", kw("monochrome")));
    {
        let mut vs: Vec<Value> = Vec::new();
        vs.push(kw("one-sided"));
        proof { assert(values_view(vs@) =~= seq![ValueV::Keyword("one-sided"@)]); }
        v.push(attr_set("sides-supported", vs));
    }
    v.push(attr("sides-default", kw("one-sided")));
    v.push(attr("orientation-requested-default", Value::Enum(3)));
    {
        let mut vs: Vec<Value> = Vec::new();
        vs.push(Value::Enum(3));
        vs.push(Value::Enum(4));
        vs.push(Value::Enum(5));
        vs.push(Value::Enum(6));
        proof { assert(values_view(vs@) =~= seq![ValueV::Enum(3i32), ValueV::Enum(4i32), ValueV::Enum(5i32), ValueV::Enum(6i32)]); }
        v.push(attr_set("orientation-requested-supported", vs));
    }
    {
        let mut vs: Vec<Value> = Vec::new();
        vs.push(kw("display"));
        vs.push(kw("sound"));
        proof { assert(values_view(vs@) =~= seq![ValueV::Keyword("display"@), ValueV::Keyword("sound"@)]); }
        v.push(attr_set("identify-actions-supported", vs));
    }
    {
        let mut vs: Vec<Value> = Vec::new();
        vs.push(kw("display"));
        proof { assert(values_view(vs@) =~= seq![ValueV::Keyword("display"@)]); }
        v.push(attr_set("identify-actions-default", vs));
    }
    {
        let mut vs: Vec<Value> = Vec::new();
        vs.push(kw("main"));
        proof { assert(values_view(vs@) =~= seq![ValueV::Keyword("main"@)]); }
        v.push(attr_set("media-source-supported", vs));
    }
    {
        let mut vs: Vec<Value> = Vec::new();
        vs.push(kw("labels"));
        vs.push(kw("stationery"));
        proof { assert(values_view(vs@) =~= seq![ValueV::Keyword("labels"@), ValueV::Keyword("stationery"@)]); }
        v.push(attr_set("media-type-supported", vs));
    }
    {
        let mut vs: Vec<Value> = Vec::new();
        vs.push(kw("face-up"));
        proof { assert(values_view(vs@) =~= seq![ValueV::Keyword("face-up"@)]); }
        v.push(attr_set("output-bin-supported", vs));
    }
    v.push(attr("output-bin-default", kw("face-up")));
    {
        let mut vs: Vec<Value> = Vec::new();
        vs.push(kw("auto"));
        vs.push(kw("graphic"));
        vs.push(kw("photo"));
        vs.push(kw("text"));
        vs.push(kw("text-and-graphic"));
        proof { assert(values_view(vs@) =~= seq![ValueV::Keyword("auto"@), ValueV::Keyword("graphic"@), ValueV::Keyword("photo"@), ValueV::Keyword("text"@), ValueV::Keyword("text-and-graphic"@)]); }
        v.push(attr_set("print-content-optimize-supported", vs));
    }
    v.push(attr("print-content-optimize-default", kw("auto")));
    {
        let mut vs: Vec<Value> = Vec::new();
        vs.push(Value::Enum(3));
        proof { assert(values_view(vs@) =~= seq![ValueV::Enum(3i32)]); }
        v.push(attr_set("finishings-supported", vs));
    }
    v.push(attr("finishings-default", Value::Enum(3)));
    {
        let mut vs: Vec<Value> = Vec::new();
        vs.push(kw("copies"));
        vs.push(kw("media"));
        vs.push(kw("media-col"));
        vs.push(kw("orientation-requested"));
        vs.push(kw("print-color-mode"));
        vs.push(kw("print-content-optimize"));
        vs.push(kw("print-quality"));
        vs.push(kw("printer-resolution"));
        vs.push(kw("sides"));
        proof { assert(values_view(vs@) =~= seq![ValueV::Keyword("copies"@), ValueV::Keyword("media"@), ValueV::Keyword("media-col"@), ValueV::Keyword("orientation-requested"@), ValueV::Keyword("print-color-mode"@), ValueV::Keyword("print-content-optimize"@), ValueV::Keyword("print-quality"@), ValueV::Keyword("printer-resolution"@), ValueV::Keyword("sides"@)]); }
        v.push(attr_set("job-creation-attributes-supported", vs));
    }
    v.push(attr("printer-resolution-default", Value::Resolution { cross_feed: dpi, feed: dpi, units: 3 }));
    {
        let mut vs: Vec<Value> = Vec::new();
        vs.push(Value::Resolution { cross_feed: dpi, feed: dpi, units: 3 });
        proof { assert(values_view(vs@) =~= seq![ValueV::Resolution { cross_feed: dpi, feed: dpi, units: 3i8 }]); }
        v.push(attr_set("printer-resolution-supported", vs));
    }
    proof { assert(attrs_view(v@) =~= capability_section(dpi)); }
    v
}

/// Margins, copies, quality, job and rendering descriptors.
pub open spec fn limit_section() -> Seq<AttributeV> {
    seq![
        AttributeV { name: "media-top-margin-supported"@, value: AttrValueV::One(ValueV::Integer(0i32)) },
        AttributeV { name: "media-bottom-margin-supported"@, value: AttrValueV::One(ValueV::Integer(0i32)) },
        AttributeV { name: "media-left-margin-supported"@, value: AttrValueV::One(ValueV::Integer(0i32)) },
        AttributeV { name: "media-right-margin-supported"@, value: AttrValueV::One(ValueV::Integer(0i32)) },
        AttributeV { name: "copies-supported"@, value: AttrValueV::One(ValueV::RangeOfInteger { min: 1i32, max: 999i32 }) },
        AttributeV { name: "copies-default"@, value: AttrValueV::One(ValueV::Integer(1i32)) },
        AttributeV { name: "print-quality-supported"@, value: AttrValueV::Many(seq![ValueV::Enum(3i32), ValueV::Enum(4i32), ValueV::Enum(5i32)]) },
        AttributeV { name: "print-quality-default"@, value: AttrValueV::One(ValueV::Enum(4i32)) },
        AttributeV { name: "multiple-document-jobs-supported"@, value: AttrValueV::One(ValueV::Boolean(false)) },
        AttributeV { name: "multiple-operation-time-out"@, value: AttrValueV::One(ValueV::Integer(60i32)) },
        AttributeV { name: "multiple-operation-time-out-action"@, value: AttrValueV::One(ValueV::Keyword("process-job"@)) },
        AttributeV { name: "job-ids-supported"@, value: AttrValueV::One(ValueV::Boolean(true)) },
        AttributeV { name: "preferred-attributes-supported"@, value: AttrValueV::One(ValueV::Boolean(false)) },
        AttributeV { name: "overrides-supported"@, value: AttrValueV::Many(seq![ValueV::Keyword("document-number"@), ValueV::Keyword("pages"@)]) },
        AttributeV { name: "printer-get-attributes-supported"@, value: AttrValueV::Many(seq![ValueV::Keyword("document-format"@)]) },
        AttributeV { name: "which-jobs-supported"@, value: AttrValueV::Many(seq![ValueV::Keyword("completed"@), ValueV::Keyword("not-completed"@), ValueV::Keyword("aborted"@), ValueV::Keyword("canceled"@), ValueV::Keyword("pending"@), ValueV::Keyword("processing"@)]) },
        AttributeV { name: "print-rendering-intent-default"@, value: AttrValueV::One(ValueV::Keyword("auto"@)) },
        AttributeV { name: "print-rendering-intent-supported"@, value: AttrValueV::Many(seq![ValueV::Keyword("auto"@)]) },
        AttributeV { name: "pwg-raster-document-sheet-back"@, value: AttrValueV::One(ValueV::Keyword("normal"@)) },
        AttributeV { name: "printer-geo-location"@, value: AttrValueV::One(ValueV::Unknown) },
        AttributeV { name: "printer-organization"@, value: AttrValueV::One(ValueV::Text(""@)) },
        AttributeV { name: "printer-organizational-unit"@, value: AttrValueV::One(ValueV::Text(""@)) },
        AttributeV { name: "pages-per-minute"@, value: AttrValueV::One(ValueV::Integer(20i32)) },
    ]
}

fn limit_attributes() -> (r: Vec<Attribute>)
    ensures
        attrs_view(r@) == limit_section(),
{
    let mut v: Vec<Attribute> = Vec::new();
    v.push(attr("media-top-margin-supported", Value::Integer(0)));
    v.push(attr("media-bottom-margin-supported", Value::Integer(0)));
    v.push(attr("media-left-margin-supported", Value::Integer(0)));
    v.push(attr("media-right-margin-supported", Value::Integer(0)));
    v.push(attr("copies-supported", Value::RangeOfInteger { min: 1, max: 999 }));
    v.push(attr("copies-default", Value::Integer(1)));
    {
        let mut vs: Vec<Value> = Vec::new();
        vs.push(Value::Enum(3));
        vs.push(Value::Enum(4));
        vs.push(Value::Enum(5));
        proof { assert(values_view(vs@) =~= seq![ValueV::Enum(3i32), ValueV::Enum(4i32), ValueV::Enum(5i32)]); }
        v.push(attr_set("print-quality-supported", vs));
    }
    v.push(attr("print-quality-default", Value::Enum(4)));
    v.push(attr("multiple-document-jobs-supported", Value::Boolean(false)));
    v.push(attr("multiple-operation-time-out", Value::Integer(60)));
    v.push(attr("multiple-operation-time-out-action", kw("process-job")));
    v.push(attr("job-ids-supported", Value::Boolean(true)));
    v.push(attr("preferred-attributes-supported", Value::Boolean(false)));
    {
        let mut vs: Vec<Value> = Vec::new();
        vs.push(kw("document-number"));
        vs.push(kw("pages"));
        proof { assert(values_view(vs@) =~= seq![ValueV::Keyword("document-number"@), ValueV::Keyword("pages"@)]); }
        v.push(attr_set("overrides-supported", vs));
    }
    {
        let mut vs: Vec<Value> = Vec::new();
        vs.push(kw("document-format"));
        proof { assert(values_view(vs@) =~= seq![ValueV::Keyword("document-format"@)]); }
        v.push(attr_set("printer-get-attributes-supported", vs));
    }
    {
        let mut vs: Vec<Value> = Vec::new();
        vs.push(kw("completed"));
        vs.push(kw("not-completed"));
        vs.push(kw("aborted"));
        vs.push(kw("canceled"));
        vs.push(kw("pending"));
        vs.push(kw("processing"));
        proof { assert(values_view(vs@) =~= seq![ValueV::Keyword("completed"@), ValueV::Keyword("not-completed"@), ValueV::Keyword("aborted"@), ValueV::Keyword("canceled"@), ValueV::Keyword("pending"@), ValueV::Keyword("processing"@)]); }
        v.push(attr_set("which-jobs-supported", vs));
    }
    v.push(attr("print-rendering-intent-default", kw("auto")));
    {
        let mut vs: Vec<Value> = Vec::new();
        vs.push(kw("auto"));
        proof { assert(values_view(vs@) =~= seq![ValueV::Keyword("auto"@)]); }
        v.push(attr_set("print-rendering-intent-supported", vs));
    }
    v.push(attr("pwg-raster-document-sheet-back", kw("normal")));
    v.push(attr("printer-geo-location", Value::Unknown));
    v.push(attr("printer-organization", Value::Text(owned(""))));
    v.push(attr("printer-organizational-unit", Value::Text(owned(""))));
    v.push(attr("pages-per-minute", Value::Integer(20)));
    proof { assert(attrs_view(v@) =~= limit_section()); }
    v
}

/// `media-col-supported`: the member attributes a client may set in a `media-col`.
pub open spec fn media_col_supported_section() -> Seq<AttributeV> {
    seq![
        AttributeV { name: "media-col-supported"@, value: AttrValueV::Many(seq![ValueV::Keyword("media-size"@), ValueV::Keyword("media-size-name"@), ValueV::Keyword("media-top-margin"@), ValueV::Keyword("media-bottom-margin"@), ValueV::Keyword("media-left-margin"@), ValueV::Keyword("media-right-margin"@), ValueV::Keyword("media-source"@), ValueV::Keyword("media-type"@)]) },
    ]
}

fn media_col_supported_attribute() -> (r: Vec<Attribute>)
    ensures
        attrs_view(r@) == media_col_supported_section(),
{
    let mut v: Vec<Attribute> = Vec::new();
    {
        let mut vs: Vec<Value> = Vec::new();
        vs.push(kw("media-size"));
        vs.push(kw("media-size-name"));
        vs.push(kw("media-top-margin"));
        vs.push(kw("media-bottom-margin"));
        vs.push(kw("media-left-margin"));
        vs.push(kw("media-right-margin"));
        vs.push(kw("media-source"));
        vs.push(kw("media-type"));
        proof { assert(values_view(vs@) =~= seq![ValueV::Keyword("media-size"@), ValueV::Keyword("media-size-name"@), ValueV::Keyword("media-top-margin"@), ValueV::Keyword("media-bottom-margin"@), ValueV::Keyword("media-left-margin"@), ValueV::Keyword("media-right-margin"@), ValueV::Keyword("media-source"@), ValueV::Keyword("media-type"@)]); }
        v.push(attr_set("media-col-supported", vs));
    }
    proof { assert(attrs_view(v@) =~= media_col_supported_section()); }
    v
}



// ---------------------------------------------------------------------------
// Sections that depend on the printer record and the request.
// ---------------------------------------------------------------------------

/// `printer-up-time`: seconds since start, floored at 1 (RFC 8011 §5.4.29),
/// as the 32-bit integer IPP carries.
pub open spec fn up_time_value(uptime: u64) -> i32 {
    (if uptime < 1 {
        1
    } else {
        uptime
    }) as i32
}

/// `printer-up-time` is always positive: the first second is reported as 1
/// (for any up-time a 32-bit integer can carry).
pub proof fn lemma_up_time_positive(uptime: u64)
    requires
        uptime <= i32::MAX,
    ensures
        up_time_value(uptime) >= 1,
        uptime >= 1 ==> up_time_value(uptime) == uptime,
{
}

/// Identity and URI descriptors.
pub open spec fn identity_section(
    rec: PrinterRecord,
    host: Seq<char>,
    port: u16,
    uptime: u64,
) -> Seq<AttributeV> {
    seq![
        AttributeV {
            name: "printer-uri-supported"@,
            value: AttrValueV::One(ValueV::Uri(printer_uri_spec(host, port, rec.config.name@))),
        },
        AttributeV {
            name: "uri-authentication-supported"@,
            value: AttrValueV::One(ValueV::Keyword("none"@)),
        },
        AttributeV {
            name: "uri-security-supported"@,
            value: AttrValueV::One(ValueV::Keyword("none"@)),
        },
        AttributeV { name: "printer-name"@, value: AttrValueV::One(ValueV::Name(rec.config.name@)) },
        AttributeV { name: "printer-location"@, value: AttrValueV::One(ValueV::Text(""@)) },
        AttributeV {
            name: "printer-info"@,
            value: AttrValueV::One(ValueV::Text(display_label_spec(rec.config))),
        },
        AttributeV {
            name: "printer-make-and-model"@,
            value: AttrValueV::One(ValueV::Text(rec.config.make_and_model@)),
        },
        AttributeV {
            name: "printer-more-info"@,
            value: AttrValueV::One(ValueV::Uri(http_uri_spec(host, port, "/"@))),
        },
        AttributeV {
            name: "printer-uuid"@,
            value: AttrValueV::One(ValueV::Uri("urn:uuid:"@ + rec.uuid@)),
        },
        AttributeV {
            name: "printer-up-time"@,
            value: AttrValueV::One(ValueV::Integer(up_time_value(uptime))),
        },
    ]
}

fn identity_attributes(rec: &PrinterRecord, host: &str, port: u16, uptime: u64) -> (r: Vec<
    Attribute,
>)
    ensures
        attrs_view(r@) == identity_section(*rec, host@, port, uptime),
{
    let cfg = &rec.config;
    let mut v: Vec<Attribute> = Vec::new();
    v.push(attr("printer-uri-supported", Value::Uri(cfg.printer_uri(host, port))));
    v.push(attr("uri-authentication-supported", kw("none")));
    v.push(attr("uri-security-supported", kw("none")));
    v.push(attr("printer-name", Value::Name(cfg.name.clone())));
    v.push(attr("printer-location", Value::Text(owned(""))));
    v.push(attr("printer-info", Value::Text(owned(cfg.display_label()))));
    v.push(attr("printer-make-and-model", Value::Text(cfg.make_and_model.clone())));
    v.push(attr("printer-more-info", Value::Uri(http_uri(host, port, "/"))));
    let mut uuid_uri = owned("urn:uuid:");
    push_str(&mut uuid_uri, rec.uuid.as_str());
    v.push(attr("printer-uuid", Value::Uri(uuid_uri)));
    let up: u64 = if uptime < 1 {
        1
    } else {
        uptime
    };
    v.push(attr("printer-up-time", Value::Integer(up as i32)));
    proof {
        assert(attrs_view(v@) =~= identity_section(*rec, host@, port, uptime));
    }
    v
}

/// State descriptors: `printer-state`, `printer-state-reasons`, acceptance,
/// and `printer-device-id` when the config has one.
pub open spec fn state_section(rec: PrinterRecord) -> Seq<AttributeV> {
    seq![
        AttributeV {
            name: "printer-state"@,
            value: AttrValueV::One(ValueV::Enum(printer_state_code(rec.state))),
        },
        AttributeV {
            name: "printer-state-reasons"@,
            value: AttrValueV::Many(keyword_values(reason_keywords(rec.reasons.0))),
        },
        AttributeV {
            name: "printer-is-accepting-jobs"@,
            value: AttrValueV::One(ValueV::Boolean(true)),
        },
        AttributeV { name: "queued-job-count"@, value: AttrValueV::One(ValueV::Integer(0)) },
    ] + if rec.config.device_id@.len() > 0 {
        seq![
            AttributeV {
                name: "printer-device-id"@,
                value: AttrValueV::One(ValueV::Text(rec.config.device_id@)),
            },
        ]
    } else {
        seq![]
    }
}

fn state_attributes(rec: &PrinterRecord) -> (r: Vec<Attribute>)
    ensures
        attrs_view(r@) == state_section(*rec),
{
    let mut v: Vec<Attribute> = Vec::new();
    v.push(attr("printer-state", Value::Enum(rec.state.code())));
    let kws = rec.reasons.ipp_keywords();
    v.push(attr_set("printer-state-reasons", keywords_from_strs(&kws)));
    v.push(attr("printer-is-accepting-jobs", Value::Boolean(true)));
    v.push(attr("queued-job-count", Value::Integer(0)));
    if rec.config.device_id.as_str().unicode_len() > 0 {
        v.push(attr("printer-device-id", Value::Text(rec.config.device_id.clone())));
    }
    proof {
        assert(attrs_view(v@) =~= state_section(*rec));
    }
    v
}

/// The raster formats offered when the config names none.
pub open spec fn default_document_formats() -> Seq<ValueV> {
    seq![
        ValueV::MimeMediaType("image/pwg-raster"@),
        ValueV::MimeMediaType("application/vnd.cups-raster"@),
        ValueV::MimeMediaType("application/octet-stream"@),
    ]
}

/// `document-format-supported`: the config's formats when it names any,
/// else the raster defaults.
pub open spec fn document_format_section(cfg: PrinterConfig) -> Seq<AttributeV> {
    seq![
        AttributeV {
            name: "document-format-supported"@,
            value: AttrValueV::Many(
                if cfg.document_formats@.len() > 0 {
                    strings_view(cfg.document_formats@).map_values(
                        |s: Seq<char>| ValueV::MimeMediaType(s),
                    )
                } else {
                    default_document_formats()
                },
            ),
        },
    ]
}

fn document_format_attributes(cfg: &PrinterConfig) -> (r: Vec<Attribute>)
    ensures
        attrs_view(r@) == document_format_section(*cfg),
{
    let mut vs: Vec<Value> = Vec::new();
    if cfg.document_formats.len() > 0 {
        let mut i: usize = 0;
        while i < cfg.document_formats.len()
            invariant
                i <= cfg.document_formats@.len(),
                values_view(vs@) == strings_view(cfg.document_formats@.take(i as int)).map_values(
                    |s: Seq<char>| ValueV::MimeMediaType(s),
                ),
            decreases cfg.document_formats@.len() - i,
        {
            let ghost before = values_view(vs@);
            vs.push(Value::MimeMediaType(cfg.document_formats[i].clone()));
            proof {
                assert(cfg.document_formats@.take(i + 1) =~= cfg.document_formats@.take(i as int).push(cfg.document_formats@[i as int]));
                assert(values_view(vs@) =~= before.push(ValueV::MimeMediaType(cfg.document_formats@[i as int]@)));
                assert(strings_view(cfg.document_formats@.take(i + 1)).map_values(|s: Seq<char>| ValueV::MimeMediaType(s)) =~= before.push(ValueV::MimeMediaType(cfg.document_formats@[i as int]@)));
            }
            i = i + 1;
        }
        proof {
            assert(cfg.document_formats@.take(cfg.document_formats@.len() as int) =~= cfg.document_formats@);
        }
    } else {
        vs.push(Value::MimeMediaType(owned("image/pwg-raster")));
        vs.push(Value::MimeMediaType(owned("application/vnd.cups-raster")));
        vs.push(Value::MimeMediaType(owned("application/octet-stream")));
        proof {
            assert(values_view(vs@) =~= default_document_formats());
        }
    }
    let mut v: Vec<Attribute> = Vec::new();
    v.push(attr_set("document-format-supported", vs));
    proof {
        assert(attrs_view(v@) =~= document_format_section(*cfg));
    }
    v
}

/// Size of the default medium: the first configured size, else 40x30 mm.
pub open spec fn default_media_size(cfg: PrinterConfig) -> (i32, i32) {
    if cfg.media_sizes@.len() > 0 {
        (cfg.media_sizes@[0]@[0], cfg.media_sizes@[0]@[1])
    } else {
        (4000, 3000)
    }
}

/// Size of the `i`-th configured medium; media without a configured size
/// take the default size.
pub open spec fn media_size_at(cfg: PrinterConfig, i: int) -> (i32, i32) {
    if i < cfg.media_sizes@.len() {
        (cfg.media_sizes@[i]@[0], cfg.media_sizes@[i]@[1])
    } else {
        default_media_size(cfg)
    }
}

/// The medium reported as loaded: the live one when the poller reported it,
/// else the first configured one at the default size.
pub open spec fn ready_media_col(rec: PrinterRecord) -> ValueV {
    match rec.ready_media {
        Some(m) => ValueV::MediaCol { name: m.name@, x: m.size_hmm@[0], y: m.size_hmm@[1] },
        None => ValueV::MediaCol {
            name: rec.config.media_names@[0]@,
            x: default_media_size(rec.config).0,
            y: default_media_size(rec.config).1,
        },
    }
}

/// The name of the medium reported as loaded.
pub open spec fn ready_media_name(rec: PrinterRecord) -> Seq<char> {
    match rec.ready_media {
        Some(m) => m.name@,
        None => rec.config.media_names@[0]@,
    }
}

/// `media-col` collections of the first `n` configured media.
pub open spec fn media_cols(cfg: PrinterConfig, n: nat) -> Seq<ValueV> {
    Seq::new(
        n,
        |i: int|
            ValueV::MediaCol {
                name: cfg.media_names@[i]@,
                x: media_size_at(cfg, i).0,
                y: media_size_at(cfg, i).1,
            },
    )
}

/// `media-size` collections of the first `n` configured media.
pub open spec fn media_sizes(cfg: PrinterConfig, n: nat) -> Seq<ValueV> {
    Seq::new(n, |i: int| ValueV::MediaSize { x: media_size_at(cfg, i).0, y: media_size_at(cfg, i).1 })
}

/// Media descriptors, for a config with at least one medium.
pub open spec fn media_section(rec: PrinterRecord) -> Seq<AttributeV> {
    let cfg = rec.config;
    let names = strings_view(cfg.media_names@);
    let d = default_media_size(cfg);
    seq![
        AttributeV { name: "media-default"@, value: AttrValueV::One(ValueV::Keyword(names[0])) },
        AttributeV { name: "media-supported"@, value: AttrValueV::Many(keyword_values(names)) },
        AttributeV {
            name: "media-col-default"@,
            value: AttrValueV::One(ValueV::MediaCol { name: names[0], x: d.0, y: d.1 }),
        },
    ] + media_col_supported_section() + seq![
        AttributeV {
            name: "media-col-database"@,
            value: AttrValueV::Many(media_cols(cfg, names.len())),
        },
        AttributeV {
            name: "media-size-supported"@,
            value: AttrValueV::Many(media_sizes(cfg, names.len())),
        },
        AttributeV {
            name: "media-ready"@,
            value: AttrValueV::One(ValueV::Keyword(ready_media_name(rec))),
        },
        AttributeV { name: "media-col-ready"@, value: AttrValueV::Many(seq![ready_media_col(rec)]) },
    ]
}

fn media_size_of(cfg: &PrinterConfig, i: usize) -> (r: (i32, i32))
    ensures
        r == media_size_at(*cfg, i as int),
{
    if i < cfg.media_sizes.len() {
        let sz = cfg.media_sizes[i];
        (sz[0], sz[1])
    } else if cfg.media_sizes.len() > 0 {
        let sz = cfg.media_sizes[0];
        (sz[0], sz[1])
    } else {
        (4000, 3000)
    }
}

fn media_attributes(rec: &PrinterRecord) -> (r: Vec<Attribute>)
    requires
        rec.config.media_names@.len() > 0,
    ensures
        attrs_view(r@) == media_section(*rec),
{
    let cfg = &rec.config;
    let ghost names = strings_view(cfg.media_names@);
    let d = media_size_of(cfg, cfg.media_sizes.len());
    assert(d == default_media_size(*cfg));
    let mut v: Vec<Attribute> = Vec::new();
    v.push(attr("media-default", Value::Keyword(cfg.media_names[0].clone())));
    v.push(attr_set("media-supported", keywords_from_strings(&cfg.media_names)));
    v.push(attr("media-col-default", Value::MediaCol { name: cfg.media_names[0].clone(), x: d.0, y: d.1 }));
    let mut mcs = media_col_supported_attribute();
    v.append(&mut mcs);
    let mut cols: Vec<Value> = Vec::new();
    let mut sizes: Vec<Value> = Vec::new();
    let mut i: usize = 0;
    while i < cfg.media_names.len()
        invariant
            i <= cfg.media_names@.len(),
            names == strings_view(cfg.media_names@),
            values_view(cols@) == media_cols(*cfg, i as nat),
            values_view(sizes@) == media_sizes(*cfg, i as nat),
        decreases cfg.media_names@.len() - i,
    {
        let sz = media_size_of(cfg, i);
        let ghost before_cols = values_view(cols@);
        let ghost before_sizes = values_view(sizes@);
        cols.push(Value::MediaCol { name: cfg.media_names[i].clone(), x: sz.0, y: sz.1 });
        sizes.push(Value::MediaSize { x: sz.0, y: sz.1 });
        proof {
            assert(values_view(cols@) =~= before_cols.push(media_cols(*cfg, (i + 1) as nat)[i as int]));
            assert(media_cols(*cfg, (i + 1) as nat) =~= media_cols(*cfg, i as nat).push(media_cols(*cfg, (i + 1) as nat)[i as int]));
            assert(values_view(sizes@) =~= before_sizes.push(media_sizes(*cfg, (i + 1) as nat)[i as int]));
            assert(media_sizes(*cfg, (i + 1) as nat) =~= media_sizes(*cfg, i as nat).push(media_sizes(*cfg, (i + 1) as nat)[i as int]));
        }
        i = i + 1;
    }
    v.push(attr_set("media-col-database", cols));
    v.push(attr_set("media-size-supported", sizes));
    let ready_name = match &rec.ready_media {
        Some(m) => m.name.clone(),
        None => cfg.media_names[0].clone(),
    };
    v.push(attr("media-ready", Value::Keyword(ready_name)));
    let ready_col = match &rec.ready_media {
        Some(m) => Value::MediaCol { name: m.name.clone(), x: m.size_hmm[0], y: m.size_hmm[1] },
        None => Value::MediaCol { name: cfg.media_names[0].clone(), x: d.0, y: d.1 },
    };
    let mut rc: Vec<Value> = Vec::new();
    rc.push(ready_col);
    proof {
        assert(values_view(rc@) =~= seq![ready_media_col(*rec)]);
    }
    v.push(attr_set("media-col-ready", rc));
    proof {
        assert(attrs_view(v@) =~= media_section(*rec));
    }
    v
}

/// The `printer-supply` octet string for a remaining level.
pub open spec fn supply_text(level: u8) -> Seq<char> {
    "index=1;class=supplyThatIsConsumed;type=stoppingMaterial;unit=percent;maxcapacity=100;level="@
        + decimal(level as nat) + ";colorantname=unknown;"@
}

/// The remaining supply reported: the live level, else full.
pub open spec fn supply_level(rec: PrinterRecord) -> u8 {
    match rec.supply_percent {
        Some(p) => p,
        None => 100,
    }
}

/// Icons, supply and change-tracking descriptors.
pub open spec fn status_section(
    rec: PrinterRecord,
    host: Seq<char>,
    port: u16,
    uptime: u64,
    t: CivilDateTime,
) -> Seq<AttributeV> {
    seq![
        AttributeV {
            name: "printer-icons"@,
            value: AttrValueV::Many(seq![ValueV::Uri(http_uri_spec(host, port, "/icon.png"@))]),
        },
        AttributeV {
            name: "printer-supply"@,
            value: AttrValueV::Many(seq![ValueV::OctetString(supply_text(supply_level(rec)))]),
        },
        AttributeV {
            name: "printer-supply-description"@,
            value: AttrValueV::Many(seq![ValueV::Text("Label Stock"@)]),
        },
        AttributeV {
            name: "printer-supply-info-uri"@,
            value: AttrValueV::One(ValueV::Uri(http_uri_spec(host, port, "/"@))),
        },
        AttributeV {
            name: "printer-config-change-time"@,
            value: AttrValueV::One(ValueV::Integer(uptime as i32)),
        },
        AttributeV {
            name: "printer-config-change-date-time"@,
            value: AttrValueV::One(ValueV::DateTime(t)),
        },
        AttributeV {
            name: "printer-state-change-time"@,
            value: AttrValueV::One(ValueV::Integer(uptime as i32)),
        },
        AttributeV {
            name: "printer-state-change-date-time"@,
            value: AttrValueV::One(ValueV::DateTime(t)),
        },
    ]
}

fn status_attributes(
    rec: &PrinterRecord,
    host: &str,
    port: u16,
    uptime: u64,
    t: CivilDateTime,
) -> (r: Vec<Attribute>)
    ensures
        attrs_view(r@) == status_section(*rec, host@, port, uptime, t),
{
    let mut v: Vec<Attribute> = Vec::new();
    let mut icons: Vec<Value> = Vec::new();
    icons.push(Value::Uri(http_uri(host, port, "/icon.png")));
    proof {
        assert(values_view(icons@) =~= seq![ValueV::Uri(http_uri_spec(host@, port, "/icon.png"@))]);
    }
    v.push(attr_set("printer-icons", icons));
    let level: u8 = match rec.supply_percent {
        Some(p) => p,
        None => 100,
    };
    let mut supply = owned(
        "index=1;class=supplyThatIsConsumed;type=stoppingMaterial;unit=percent;maxcapacity=100;level=",
    );
    push_decimal(&mut supply, level as u64);
    push_str(&mut supply, ";colorantname=unknown;");
    let mut supplies: Vec<Value> = Vec::new();
    supplies.push(Value::OctetString(supply));
    proof {
        assert(values_view(supplies@) =~= seq![ValueV::OctetString(supply_text(supply_level(*rec)))]);
    }
    v.push(attr_set("printer-supply", supplies));
    let mut descr: Vec<Value> = Vec::new();
    descr.push(Value::Text(owned("Label Stock")));
    proof {
        assert(values_view(descr@) =~= seq![ValueV::Text("Label Stock"@)]);
    }
    v.push(attr_set("printer-supply-description", descr));
    v.push(attr("printer-supply-info-uri", Value::Uri(http_uri(host, port, "/"))));
    v.push(attr("printer-config-change-time", Value::Integer(uptime as i32)));
    v.push(attr("printer-config-change-date-time", Value::DateTime(t)));
    v.push(attr("printer-state-change-time", Value::Integer(uptime as i32)));
    v.push(attr("printer-state-change-date-time", Value::DateTime(t)));
    proof {
        assert(attrs_view(v@) =~= status_section(*rec, host@, port, uptime, t));
    }
    v
}

/// The full printer attribute group of a `Get-Printer-Attributes` response
/// for printer `rec` reached at `host:port`, at printer up-time `uptime`
/// seconds and wall-clock time `t`.
pub open spec fn printer_attribute_list(
    rec: PrinterRecord,
    host: Seq<char>,
    port: u16,
    uptime: u64,
    t: CivilDateTime,
) -> Seq<AttributeV> {
    identity_section(rec, host, port, uptime) + state_section(rec) + descriptor_section()
        + document_format_section(rec.config) + raster_section(rec.config.dpi)
        + capability_section(rec.config.dpi) + (if rec.config.media_names@.len() > 0 {
        media_section(rec)
    } else {
        seq![]
    }) + limit_section() + status_section(rec, host, port, uptime, t)
}

/// `requested-attributes` filtering (RFC 8011 §4.2.5): none given, an empty
/// list or one holding `all` keeps everything; otherwise only the named
/// attributes remain.
pub open spec fn apply_requested(
    attrs: Seq<AttributeV>,
    requested: Option<Seq<Seq<char>>>,
) -> Seq<AttributeV> {
    match requested {
        None => attrs,
        Some(names) => if names.len() == 0 || names.contains("all"@) {
            attrs
        } else {
            keep_named(attrs, names)
        },
    }
}

/// `requested-attributes` is honoured: no list, an empty list or one
/// holding `all` returns the full group; a concrete list returns only
/// attributes of the full group that it names, and every attribute of the
/// full group that it names.
pub proof fn lemma_requested_attributes_honoured(
    attrs: Seq<AttributeV>,
    requested: Option<Seq<Seq<char>>>,
)
    ensures
        ({
            let out = apply_requested(attrs, requested);
            match requested {
                None => out == attrs,
                Some(names) => if names.len() == 0 || names.contains("all"@) {
                    out == attrs
                } else {
                    &&& forall|i: int|
                        0 <= i < out.len() ==> names.contains((#[trigger] out[i]).name)
                            && attrs.contains(out[i])
                    &&& forall|i: int|
                        0 <= i < attrs.len() && names.contains((#[trigger] attrs[i]).name)
                            ==> out.contains(attrs[i])
                },
            }
        }),
{
    if let Some(names) = requested {
        if !(names.len() == 0 || names.contains("all"@)) {
            let pred = |a: AttributeV| names.contains(a.name);
            let out = attrs.filter(pred);
            assert forall|i: int| 0 <= i < out.len() implies names.contains((#[trigger] out[i]).name)
                && attrs.contains(out[i]) by {
                attrs.lemma_filter_pred(pred, i);
                assert(out.contains(out[i]));
                attrs.lemma_filter_contains_rev(pred, out[i]);
            }
            assert forall|i: int| 0 <= i < attrs.len() && names.contains((#[trigger] attrs[i]).name)
                implies out.contains(attrs[i]) by {
                attrs.lemma_filter_contains(pred, i);
            }
        }
    }
}

/// A successful response carrying `attrs` as its printer group.
pub open spec fn printer_response(
    version: u16,
    request_id: u32,
    attrs: Seq<AttributeV>,
) -> IppMessageV {
    IppMessageV {
        version,
        code: STATUS_OK,
        request_id,
        groups: empty_response(version, STATUS_OK, request_id).groups.push(
            AttributeGroupV { tag: GroupTag::Printer, attributes: attrs },
        ),
    }
}

/// The attribute views of two vectors appended.
proof fn lemma_attrs_view_append(a: Seq<Attribute>, b: Seq<Attribute>)
    ensures
        attrs_view(a + b) == attrs_view(a) + attrs_view(b),
{
    assert(attrs_view(a + b) =~= attrs_view(a) + attrs_view(b));
}

fn append_attrs(v: &mut Vec<Attribute>, mut more: Vec<Attribute>)
    ensures
        attrs_view(final(v)@) == attrs_view(old(v)@) + attrs_view(more@),
{
    let ghost m = more@;
    v.append(&mut more);
    proof {
        lemma_attrs_view_append(old(v)@, m);
    }
}

/// The printer attributes whose values follow the up-time clock or the wall
/// clock.
pub open spec fn is_clock_attribute(name: Seq<char>) -> bool {
    ||| name == "printer-up-time"@
    ||| name == "printer-config-change-time"@
    ||| name == "printer-config-change-date-time"@
    ||| name == "printer-state-change-time"@
    ||| name == "printer-state-change-date-time"@
}

/// Two attribute lists with the same names in the same order and the same
/// values for every attribute that does not follow a clock.
pub open spec fn same_but_clock(a: Seq<AttributeV>, b: Seq<AttributeV>) -> bool {
    &&& a.len() == b.len()
    &&& forall|i: int|
        0 <= i < a.len() ==> (#[trigger] a[i]).name == b[i].name && (!is_clock_attribute(a[i].name)
            ==> a[i] == b[i])
}

proof fn lemma_same_but_clock_append(
    a1: Seq<AttributeV>,
    a2: Seq<AttributeV>,
    b1: Seq<AttributeV>,
    b2: Seq<AttributeV>,
)
    requires
        same_but_clock(a1, b1),
        same_but_clock(a2, b2),
    ensures
        same_but_clock(a1 + a2, b1 + b2),
{
    let a = a1 + a2;
    let b = b1 + b2;
    assert forall|i: int| 0 <= i < a.len() implies (#[trigger] a[i]).name == b[i].name && (
    !is_clock_attribute(a[i].name) ==> a[i] == b[i]) by {
        if i < a1.len() {
            assert(a[i] == a1[i] && b[i] == b1[i]);
        } else {
            assert(a[i] == a2[i - a1.len()] && b[i] == b2[i - a1.len()]);
        }
    }
}

proof fn lemma_same_but_clock_refl(a: Seq<AttributeV>)
    ensures
        same_but_clock(a, a),
{
}

/// The printer's attribute list read at two clock readings differs only in
/// the attributes that follow the clocks.
pub proof fn lemma_attributes_differ_only_by_clock(
    rec: PrinterRecord,
    host: Seq<char>,
    port: u16,
    uptime1: u64,
    t1: CivilDateTime,
    uptime2: u64,
    t2: CivilDateTime,
)
    ensures
        same_but_clock(
            printer_attribute_list(rec, host, port, uptime1, t1),
            printer_attribute_list(rec, host, port, uptime2, t2),
        ),
{
    let id1 = identity_section(rec, host, port, uptime1);
    let id2 = identity_section(rec, host, port, uptime2);
    assert(same_but_clock(id1, id2)) by {
        assert forall|i: int| 0 <= i < id1.len() implies (#[trigger] id1[i]).name == id2[i].name && (
        !is_clock_attribute(id1[i].name) ==> id1[i] == id2[i]) by {
            if i + 1 < id1.len() {
                assert(id1[i] == id2[i]);
            }
        }
    }
    let st1 = status_section(rec, host, port, uptime1, t1);
    let st2 = status_section(rec, host, port, uptime2, t2);
    assert(same_but_clock(st1, st2)) by {
        assert forall|i: int| 0 <= i < st1.len() implies (#[trigger] st1[i]).name == st2[i].name && (
        !is_clock_attribute(st1[i].name) ==> st1[i] == st2[i]) by {
            if i + 4 < st1.len() {
                assert(st1[i] == st2[i]);
            }
        }
    }
    let mid = state_section(rec) + descriptor_section() + document_format_section(rec.config)
        + raster_section(rec.config.dpi) + capability_section(rec.config.dpi) + (
    if rec.config.media_names@.len() > 0 {
        media_section(rec)
    } else {
        seq![]
    }) + limit_section();
    lemma_same_but_clock_refl(mid);
    lemma_same_but_clock_append(id1, mid, id2, mid);
    lemma_same_but_clock_append(id1 + mid, st1, id2 + mid, st2);
    assert(printer_attribute_list(rec, host, port, uptime1, t1) =~= id1 + mid + st1);
    assert(printer_attribute_list(rec, host, port, uptime2, t2) =~= id2 + mid + st2);
}

/// Validate-Job answers with what Get-Printer-Attributes answers without a
/// `requested-attributes` list, for the same printer and address: the same
/// header and groups, whose attributes have the same names in the same order
/// and the same values except the clock-derived ones (up-time and change
/// times). At the same up-time and clock the two answers are equal, the
/// clock naming a single civil time.
pub proof fn lemma_validate_job_is_full_get(
    version: u16,
    request_id: u32,
    rec: PrinterRecord,
    host: Seq<char>,
    port: u16,
    uptime1: u64,
    now1: i64,
    validated: IppMessageV,
    uptime2: u64,
    now2: i64,
    got: IppMessageV,
)
    requires
        exists|t: CivilDateTime|
            names_instant(t, now1 as int) && validated == printer_response(
                version,
                request_id,
                printer_attribute_list(rec, host, port, uptime1, t),
            ),
        exists|t: CivilDateTime|
            names_instant(t, now2 as int) && got == printer_response(
                version,
                request_id,
                apply_requested(printer_attribute_list(rec, host, port, uptime2, t), None),
            ),
    ensures
        validated.version == got.version,
        validated.code == got.code,
        validated.request_id == got.request_id,
        validated.groups.len() == got.groups.len(),
        forall|g: int|
            0 <= g < validated.groups.len() ==> (#[trigger] validated.groups[g]).tag == got.groups[g].tag
                && same_but_clock(validated.groups[g].attributes, got.groups[g].attributes),
        uptime1 == uptime2 && now1 == now2 ==> validated == got,
{
    let t1 = choose|t: CivilDateTime|
        names_instant(t, now1 as int) && validated == printer_response(
            version,
            request_id,
            printer_attribute_list(rec, host, port, uptime1, t),
        );
    let t2 = choose|t: CivilDateTime|
        names_instant(t, now2 as int) && got == printer_response(
            version,
            request_id,
            apply_requested(printer_attribute_list(rec, host, port, uptime2, t), None),
        );
    lemma_attributes_differ_only_by_clock(rec, host, port, uptime1, t1, uptime2, t2);
    lemma_same_but_clock_refl(response_operation_group().attributes);
    assert(validated.groups.len() == 2);
    assert forall|g: int| 0 <= g < validated.groups.len() implies (#[trigger] validated.groups[g]).tag
        == got.groups[g].tag && same_but_clock(validated.groups[g].attributes, got.groups[g].attributes) by {
        if g == 0 {
            assert(validated.groups[0] == response_operation_group());
            assert(got.groups[0] == response_operation_group());
        }
    }
    if now1 == now2 {
        lemma_names_instant_unique(t1, t2, now1 as int);
    }
}

/// Build a successful Get-Printer-Attributes response for printer `rec`
/// reached at `host:port`, at printer up-time `uptime` seconds and Unix
/// time `now_unix`. `requested` is the client's `requested-attributes`:
/// `None`, an empty list or one holding `all` returns the full printer
/// group; a concrete list filters it down to the named attributes.
pub fn get_printer_attributes(
    version: u16,
    request_id: u32,
    rec: &PrinterRecord,
    host: &str,
    port: u16,
    requested: Option<&Vec<String>>,
    uptime: u64,
    now_unix: i64,
) -> (r: IppMessage)
    ensures
        exists|t: CivilDateTime|
            names_instant(t, now_unix as int) && r@ == printer_response(
                version,
                request_id,
                apply_requested(
                    printer_attribute_list(*rec, host@, port, uptime, t),
                    requested_view(requested),
                ),
            ),
{
    let t = datetime_utc(now_unix);
    let mut attrs = identity_attributes(rec, host, port, uptime);
    append_attrs(&mut attrs, state_attributes(rec));
    append_attrs(&mut attrs, descriptor_attributes());
    append_attrs(&mut attrs, document_format_attributes(&rec.config));
    append_attrs(&mut attrs, raster_attributes(rec.config.dpi));
    append_attrs(&mut attrs, capability_attributes(rec.config.dpi));
    if rec.config.media_names.len() > 0 {
        append_attrs(&mut attrs, media_attributes(rec));
    }
    append_attrs(&mut attrs, limit_attributes());
    append_attrs(&mut attrs, status_attributes(rec, host, port, uptime, t));
    proof {
        assert(attrs_view(attrs@) =~= printer_attribute_list(*rec, host@, port, uptime, t));
    }
    let filtered = match requested {
        None => attrs,
        Some(names) => if names.len() == 0 || contains_name(names, "all") {
            attrs
        } else {
            retain_named(attrs, names)
        },
    };
    let mut resp = new_response(version, STATUS_OK, request_id);
    let ghost before = resp.groups@;
    resp.groups.push(AttributeGroup { tag: GroupTag::Printer, attributes: filtered });
    proof {
        assert(groups_view(resp.groups@) =~= groups_view(before).push(resp.groups@.last()@));
    }
    resp
}

/// Validate-Job: same capability surface as Get-Printer-Attributes.
pub fn validate_job(
    version: u16,
    request_id: u32,
    rec: &PrinterRecord,
    host: &str,
    port: u16,
    uptime: u64,
    now_unix: i64,
) -> (r: IppMessage)
    ensures
        exists|t: CivilDateTime|
            names_instant(t, now_unix as int) && r@ == printer_response(
                version,
                request_id,
                printer_attribute_list(*rec, host@, port, uptime, t),
            ),
{
    get_printer_attributes(version, request_id, rec, host, port, None, uptime, now_unix)
}

/// Transition the printer into `processing`.
pub fn set_printer_processing(record: &mut PrinterRecord)
    ensures
        final(record).state == IppPrinterState::Processing,
        final(record).config == old(record).config,
        final(record).reasons == old(record).reasons,
        final(record).uuid == old(record).uuid,
        final(record).ready_media == old(record).ready_media,
        final(record).supply_percent == old(record).supply_percent,
{
    record.state = IppPrinterState::Processing;
}

/// Transition the printer back to `idle`.
pub fn set_printer_idle(record: &mut PrinterRecord)
    ensures
        final(record).state == IppPrinterState::Idle,
        final(record).config == old(record).config,
        final(record).reasons == old(record).reasons,
        final(record).uuid == old(record).uuid,
        final(record).ready_media == old(record).ready_media,
        final(record).supply_percent == old(record).supply_percent,
{
    record.state = IppPrinterState::Idle;
}

// ---------------------------------------------------------------------------
// Job responses.
// ---------------------------------------------------------------------------

/// `job-state-reasons` of a job: one keyword per failure reason it carries
/// (`media-empty` → `job-completed-with-errors`, `media-jam` →
/// `aborted-by-system`, `offline-report` → `connection-error`), then one for
/// a canceled or completed job, or `aborted-by-system` for an aborted job
/// that has no other; `none` when the list would be empty.
pub open spec fn job_reason_keywords(j: JobRecordV) -> Seq<Seq<char>> {
    let a: Seq<Seq<char>> = if has_bits(j.reasons, 0x0080) {
        seq!["job-completed-with-errors"@]
    } else {
        seq![]
    };
    let b = if has_bits(j.reasons, 0x0100) {
        a.push("aborted-by-system"@)
    } else {
        a
    };
    let c = if has_bits(j.reasons, 0x0800) {
        b.push("connection-error"@)
    } else {
        b
    };
    let d = match j.state {
        JobState::Canceled => c.push("job-canceled-by-user"@),
        JobState::Completed => c.push("job-completed-successfully"@),
        JobState::Aborted => if c.len() == 0 {
            c.push("aborted-by-system"@)
        } else {
            c
        },
        _ => c,
    };
    if d.len() == 0 {
        seq!["none"@]
    } else {
        d
    }
}

/// A canceled job reports `job-canceled-by-user` and never
/// `job-completed-successfully`; a completed job reports
/// `job-completed-successfully` and never `job-canceled-by-user`; a job in
/// any other state reports neither.
pub proof fn lemma_final_state_reasons(j: JobRecordV)
    ensures
        j.state == JobState::Canceled ==> job_reason_keywords(j).contains("job-canceled-by-user"@)
            && !job_reason_keywords(j).contains("job-completed-successfully"@),
        j.state == JobState::Completed ==> job_reason_keywords(j).contains(
            "job-completed-successfully"@,
        ) && !job_reason_keywords(j).contains("job-canceled-by-user"@),
        j.state != JobState::Canceled ==> !job_reason_keywords(j).contains("job-canceled-by-user"@),
        j.state != JobState::Completed ==> !job_reason_keywords(j).contains(
            "job-completed-successfully"@,
        ),
{
    reveal_strlit("job-completed-with-errors");
    reveal_strlit("aborted-by-system");
    reveal_strlit("connection-error");
    reveal_strlit("job-canceled-by-user");
    reveal_strlit("job-completed-successfully");
    reveal_strlit("none");
    let r = job_reason_keywords(j);
    let cu = "job-canceled-by-user"@;
    let cs = "job-completed-successfully"@;
    assert forall|i: int| 0 <= i < r.len() && (r[i] == cu || r[i] == cs) implies (r[i] == cu ==> j.state
        == JobState::Canceled) && (r[i] == cs ==> j.state == JobState::Completed) by {
        assert(r[i].len() == 4 || r[i].len() == 16 || r[i].len() == 17 || r[i].len() == 25 || r[i].len()
            == 20 && j.state == JobState::Canceled || r[i].len() == 26 && j.state == JobState::Completed);
    }
    if j.state == JobState::Canceled {
        assert(r[r.len() - 1] == cu);
    }
    if j.state == JobState::Completed {
        assert(r[r.len() - 1] == cs);
    }
}

/// The printer reports its supply level in `printer-supply`: full (100) when
/// the poller has reported none, else the reported percentage.
pub proof fn lemma_supply_reported(
    rec: PrinterRecord,
    host: Seq<char>,
    port: u16,
    uptime: u64,
    t: CivilDateTime,
)
    ensures
        exists|i: int|
            0 <= i < printer_attribute_list(rec, host, port, uptime, t).len() && (
            #[trigger] printer_attribute_list(rec, host, port, uptime, t)[i]).name == "printer-supply"@
                && printer_attribute_list(rec, host, port, uptime, t)[i].value == AttrValueV::Many(
                seq![
                    ValueV::OctetString(
                        match rec.supply_percent {
                            None => "index=1;class=supplyThatIsConsumed;type=stoppingMaterial;unit=percent;maxcapacity=100;level=100;colorantname=unknown;"@,
                            Some(p) => "index=1;class=supplyThatIsConsumed;type=stoppingMaterial;unit=percent;maxcapacity=100;level="@
                                + decimal(p as nat) + ";colorantname=unknown;"@,
                        },
                    ),
                ],
            ),
{
    let list = printer_attribute_list(rec, host, port, uptime, t);
    let st = status_section(rec, host, port, uptime, t);
    let head = list.subrange(0, list.len() - st.len());
    assert(list =~= head + st);
    let i = list.len() - st.len() + 1;
    assert(list[i] == st[1]);
    if rec.supply_percent is None {
        reveal_strlit(
            "index=1;class=supplyThatIsConsumed;type=stoppingMaterial;unit=percent;maxcapacity=100;level=100;colorantname=unknown;",
        );
        reveal_strlit(
            "index=1;class=supplyThatIsConsumed;type=stoppingMaterial;unit=percent;maxcapacity=100;level=",
        );
        reveal_strlit(";colorantname=unknown;");
        assert(decimal(100) =~= seq!['1', '0', '0']) by {
            reveal_with_fuel(decimal, 3);
        }
        assert(supply_text(100) =~= "index=1;class=supplyThatIsConsumed;type=stoppingMaterial;unit=percent;maxcapacity=100;level=100;colorantname=unknown;"@);
    }
    assert(list[i].name == "printer-supply"@);
}

/// The `job-state-reasons` keywords of `job`.
pub fn job_state_reason_keywords(job: &JobRecord) -> (r: Vec<&'static str>)
    ensures
        str_views(r@) == job_reason_keywords(job@),
{
    let mut out: Vec<&'static str> = Vec::new();
    if job.reasons.contains(crate::flags::PrinterReason::media_empty()) {
        out.push("job-completed-with-errors");
    }
    if job.reasons.contains(crate::flags::PrinterReason::media_jam()) {
        out.push("aborted-by-system");
    }
    if job.reasons.contains(crate::flags::PrinterReason::offline()) {
        out.push("connection-error");
    }
    match job.state {
        JobState::Canceled => out.push("job-canceled-by-user"),
        JobState::Completed => out.push("job-completed-successfully"),
        JobState::Aborted => {
            if out.len() == 0 {
                out.push("aborted-by-system");
            }
        },
        _ => {},
    }
    if out.len() == 0 {
        out.push("none");
    }
    proof {
        assert(str_views(out@) =~= job_reason_keywords(job@));
    }
    out
}

/// `<printer-uri>/job/<id>`.
pub open spec fn job_uri_spec(printer_uri: Seq<char>, id: u32) -> Seq<char> {
    printer_uri + "/job/"@ + decimal(id as nat)
}

fn job_uri(printer_uri: &str, id: u32) -> (r: String)
    ensures
        r@ == job_uri_spec(printer_uri@, id),
{
    let mut s = owned(printer_uri);
    push_str(&mut s, "/job/");
    push_decimal(&mut s, id as u64);
    s
}

/// The job description attributes of `j` (before any filtering), for the
/// printer at `printer_uri`, at printer up-time `uptime`.
pub open spec fn job_attribute_list(j: JobRecordV, printer_uri: Seq<char>, uptime: u64) -> Seq<
    AttributeV,
> {
    seq![
        AttributeV {
            name: "job-uri"@,
            value: AttrValueV::One(ValueV::Uri(job_uri_spec(printer_uri, j.id))),
        },
        AttributeV { name: "job-id"@, value: AttrValueV::One(ValueV::Integer(j.id as i32)) },
        AttributeV { name: "job-printer-uri"@, value: AttrValueV::One(ValueV::Uri(printer_uri)) },
        AttributeV {
            name: "job-name"@,
            value: AttrValueV::One(ValueV::Name("job-"@ + decimal(j.id as nat))),
        },
        AttributeV {
            name: "job-state"@,
            value: AttrValueV::One(ValueV::Enum(job_state_code(j.state))),
        },
        AttributeV {
            name: "job-originating-user-name"@,
            value: AttrValueV::One(ValueV::Name(j.owner)),
        },
        AttributeV { name: "time-at-creation"@, value: AttrValueV::One(ValueV::Integer(j.created)) },
        AttributeV {
            name: "job-state-reasons"@,
            value: AttrValueV::Many(keyword_values(job_reason_keywords(j))),
        },
    ] + (if j.message.len() > 0 {
        seq![
            AttributeV {
                name: "job-state-message"@,
                value: AttrValueV::One(ValueV::Text(j.message)),
            },
        ]
    } else {
        seq![]
    }) + seq![
        AttributeV {
            name: "time-at-processing"@,
            value: AttrValueV::One(ValueV::Integer(j.created)),
        },
        AttributeV {
            name: "job-printer-up-time"@,
            value: AttrValueV::One(ValueV::Integer(uptime as i32)),
        },
    ] + match j.completed {
        Some(s) => seq![
            AttributeV { name: "time-at-completed"@, value: AttrValueV::One(ValueV::Integer(s)) },
        ],
        None => seq![],
    }
}

/// Keep only the named attributes when a filter is given.
pub open spec fn apply_filter(
    attrs: Seq<AttributeV>,
    filter: Option<Seq<Seq<char>>>,
) -> Seq<AttributeV> {
    match filter {
        None => attrs,
        Some(names) => keep_named(attrs, names),
    }
}

/// The attributes of one job, filtered by `requested` (`None` = all).
pub fn job_attrs_for_group(
    job: &JobRecord,
    printer_uri: &str,
    requested: Option<&Vec<String>>,
    uptime: u64,
) -> (r: Vec<Attribute>)
    ensures
        attrs_view(r@) == apply_filter(
            job_attribute_list(job@, printer_uri@, uptime),
            requested_view(requested),
        ),
{
    let mut v: Vec<Attribute> = Vec::new();
    v.push(attr("job-uri", Value::Uri(job_uri(printer_uri, job.id))));
    v.push(attr("job-id", Value::Integer(job.id as i32)));
    v.push(attr("job-printer-uri", Value::Uri(owned(printer_uri))));
    let mut name = owned("job-");
    push_decimal(&mut name, job.id as u64);
    v.push(attr("job-name", Value::Name(name)));
    v.push(attr("job-state", Value::Enum(job.state.code())));
    v.push(attr("job-originating-user-name", Value::Name(job.owner.clone())));
    v.push(attr("time-at-creation", Value::Integer(job.created_secs())));
    let kws = job_state_reason_keywords(job);
    v.push(attr_set("job-state-reasons", keywords_from_strs(&kws)));
    if job.message.as_str().unicode_len() > 0 {
        v.push(attr("job-state-message", Value::Text(job.message.clone())));
    }
    v.push(attr("time-at-processing", Value::Integer(job.created_secs())));
    v.push(attr("job-printer-up-time", Value::Integer(uptime as i32)));
    if let Some(s) = job.completed_secs() {
        v.push(attr("time-at-completed", Value::Integer(s)));
    }
    proof {
        assert(attrs_view(v@) =~= job_attribute_list(job@, printer_uri@, uptime));
    }
    match requested {
        None => v,
        Some(names) => retain_named(v, names),
    }
}

/// The attributes of a `Print-Job` / `Create-Job` acceptance.
pub open spec fn accepted_job_attributes(j: JobRecordV, printer_uri: Seq<char>) -> Seq<AttributeV> {
    seq![
        AttributeV {
            name: "job-uri"@,
            value: AttrValueV::One(ValueV::Uri(job_uri_spec(printer_uri, j.id))),
        },
        AttributeV { name: "job-id"@, value: AttrValueV::One(ValueV::Integer(j.id as i32)) },
        AttributeV {
            name: "job-state"@,
            value: AttrValueV::One(ValueV::Enum(job_state_code(j.state))),
        },
        AttributeV {
            name: "job-state-reasons"@,
            value: AttrValueV::Many(keyword_values(job_reason_keywords(j))),
        },
    ]
}

/// A successful response whose further groups are `groups`.
pub open spec fn ok_response(version: u16, request_id: u32, groups: Seq<AttributeGroupV>) -> IppMessageV {
    IppMessageV {
        version,
        code: STATUS_OK,
        request_id,
        groups: empty_response(version, STATUS_OK, request_id).groups + groups,
    }
}

/// A job attribute group.
pub open spec fn job_group(attrs: Seq<AttributeV>) -> AttributeGroupV {
    AttributeGroupV { tag: GroupTag::Job, attributes: attrs }
}

fn push_group(resp: &mut IppMessage, tag: GroupTag, attributes: Vec<Attribute>)
    ensures
        final(resp)@ == (IppMessageV {
            groups: old(resp)@.groups.push(AttributeGroupV { tag, attributes: attrs_view(attributes@) }),
            ..old(resp)@
        }),
{
    let ghost a = attrs_view(attributes@);
    resp.groups.push(AttributeGroup { tag, attributes });
    proof {
        assert(groups_view(resp.groups@) =~= groups_view(old(resp).groups@).push(AttributeGroupV { tag, attributes: a }));
    }
}

/// Build the `Print-Job` accepted response for a freshly-allocated job.
pub fn print_job_accepted(version: u16, request_id: u32, job: &JobRecord, printer_uri: &str) -> (r:
    IppMessage)
    ensures
        r@ == ok_response(
            version,
            request_id,
            seq![job_group(accepted_job_attributes(job@, printer_uri@))],
        ),
{
    let mut v: Vec<Attribute> = Vec::new();
    v.push(attr("job-uri", Value::Uri(job_uri(printer_uri, job.id))));
    v.push(attr("job-id", Value::Integer(job.id as i32)));
    v.push(attr("job-state", Value::Enum(job.state.code())));
    let kws = job_state_reason_keywords(job);
    v.push(attr_set("job-state-reasons", keywords_from_strs(&kws)));
    proof {
        assert(attrs_view(v@) =~= accepted_job_attributes(job@, printer_uri@));
    }
    let mut resp = new_response(version, STATUS_OK, request_id);
    push_group(&mut resp, GroupTag::Job, v);
    proof {
        assert(resp@.groups =~= ok_response(
            version,
            request_id,
            seq![job_group(accepted_job_attributes(job@, printer_uri@))],
        ).groups);
    }
    resp
}

/// Build a `Get-Job-Attributes` response for a single job. `requested`
/// filters the returned attributes (`None` = all).
pub fn build_job_attrs_response(
    version: u16,
    request_id: u32,
    job: &JobRecord,
    printer_uri: &str,
    requested: Option<&Vec<String>>,
    uptime: u64,
) -> (r: IppMessage)
    ensures
        r@ == ok_response(
            version,
            request_id,
            seq![
                job_group(
                    apply_filter(
                        job_attribute_list(job@, printer_uri@, uptime),
                        requested_view(requested),
                    ),
                ),
            ],
        ),
{
    let attrs = job_attrs_for_group(job, printer_uri, requested, uptime);
    let mut resp = new_response(version, STATUS_OK, request_id);
    push_group(&mut resp, GroupTag::Job, attrs);
    proof {
        assert(resp@.groups =~= ok_response(
            version,
            request_id,
            seq![
                job_group(
                    apply_filter(
                        job_attribute_list(job@, printer_uri@, uptime),
                        requested_view(requested),
                    ),
                ),
            ],
        ).groups);
    }
    resp
}

/// One filtered job group per job.
pub open spec fn job_groups(
    jobs: Seq<JobRecordV>,
    printer_uri: Seq<char>,
    filter: Option<Seq<Seq<char>>>,
    uptime: u64,
) -> Seq<AttributeGroupV> {
    jobs.map_values(
        |j: JobRecordV| job_group(apply_filter(job_attribute_list(j, printer_uri, uptime), filter)),
    )
}

/// Build a `Get-Jobs` response listing one job per group. `requested`
/// filters the per-job attributes (`None` = all of them).
pub fn build_get_jobs_response(
    version: u16,
    request_id: u32,
    jobs: &Vec<JobRecord>,
    printer_uri: &str,
    requested: Option<&Vec<String>>,
    uptime: u64,
) -> (r: IppMessage)
    ensures
        r@ == ok_response(
            version,
            request_id,
            job_groups(crate::job::jobs_view(jobs@), printer_uri@, requested_view(requested), uptime),
        ),
{
    let mut resp = new_response(version, STATUS_OK, request_id);
    let ghost base = resp@.groups;
    let mut i: usize = 0;
    while i < jobs.len()
        invariant
            i <= jobs@.len(),
            resp@.version == version,
            resp@.code == STATUS_OK,
            resp@.request_id == request_id,
            base == empty_response(version, STATUS_OK, request_id).groups,
            resp@.groups == base + job_groups(
                crate::job::jobs_view(jobs@.take(i as int)),
                printer_uri@,
                requested_view(requested),
                uptime,
            ),
        decreases jobs@.len() - i,
    {
        let attrs = job_attrs_for_group(&jobs[i], printer_uri, requested, uptime);
        let ghost before = resp@.groups;
        push_group(&mut resp, GroupTag::Job, attrs);
        proof {
            assert(jobs@.take(i + 1) =~= jobs@.take(i as int).push(jobs@[i as int]));
            assert(crate::job::jobs_view(jobs@.take(i + 1)) =~= crate::job::jobs_view(jobs@.take(i as int)).push(jobs@[i as int]@));
            assert(job_groups(crate::job::jobs_view(jobs@.take(i + 1)), printer_uri@, requested_view(requested), uptime) =~= job_groups(crate::job::jobs_view(jobs@.take(i as int)), printer_uri@, requested_view(requested), uptime).push(resp@.groups.last()));
            assert(resp@.groups =~= base + job_groups(crate::job::jobs_view(jobs@.take(i + 1)), printer_uri@, requested_view(requested), uptime));
        }
        i = i + 1;
    }
    proof {
        assert(jobs@.take(jobs@.len() as int) =~= jobs@);
    }
    resp
}

} // verus!
