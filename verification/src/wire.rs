//! The IPP wire format, as the `ipp` crate reads and writes it: a request
//! body is parsed into the library's message model, and a response in that
//! model is serialised. The `ipp` crate keeps the attributes of a group in a
//! hash map, so the order of attributes within a group is not known on
//! either side.

use std::io::Read;

use vstd::prelude::*;

use ipp::attribute::{IppAttribute, IppAttributeGroup};
use ipp::model::{DelimiterTag, IppVersion, Operation, StatusCode};
use ipp::parser::IppParser;
use ipp::reader::IppReader;
use ipp::request::IppRequestResponse;
use ipp::value::IppValue;
use num_traits::FromPrimitive;

use crate::datetime::CivilDateTime;
use crate::message::{
    empty_response, group_tag_code, values_view, AttrValue, AttrValueV, Attribute, AttributeGroup,
    AttributeGroupV, AttributeV, GroupTag, IppMessage, IppMessageV, Value, ValueV,
};
use crate::server::be16;
use crate::text::{is_prefix, owned, push_str};

verus! {

#[verifier::external_type_specification]
#[verifier::external_body]
pub struct ExIppValue(IppValue);

/// The 8-byte IPP message header: version, operation or status code and
/// request id, each big-endian.
pub open spec fn header_bytes(version: u16, code: u16, request_id: u32) -> Seq<u8> {
    seq![
        (version / 256) as u8,
        (version % 256) as u8,
        (code / 256) as u8,
        (code % 256) as u8,
        (request_id / 0x100_0000) as u8,
        ((request_id / 0x1_0000) % 256) as u8,
        ((request_id / 256) % 256) as u8,
        (request_id % 256) as u8,
    ]
}

/// `bytes` begins with the header of `version`, `code`, `request_id`.
pub open spec fn has_header(bytes: Seq<u8>, version: u16, code: u16, request_id: u32) -> bool {
    bytes.len() >= 8 && bytes.subrange(0, 8) == header_bytes(version, code, request_id)
}

/// What holds of every serialisation of a message: its header, then the
/// operation-attributes delimiter, and the end-of-attributes tag last.
pub open spec fn frames_message(bytes: Seq<u8>, version: u16, code: u16, request_id: u32) -> bool {
    &&& bytes.len() >= 10
    &&& has_header(bytes, version, code, request_id)
    &&& bytes[8] == 0x01
    &&& bytes.last() == 0x03
}

/// The `ipp` value a single value of the library's model is written as,
/// through the named constructors; `None` for the collections (media size,
/// media collection) and for `Opaque`, which are built from other `ipp`
/// values or from no argument.
pub open spec fn ipp_scalar_spec(x: ValueV) -> Option<IppValue> {
    match x {
        ValueV::Integer(n) => Some(ipp_integer_value(n)),
        ValueV::Enum(n) => Some(ipp_enum_value(n)),
        ValueV::Boolean(b) => Some(ipp_boolean_value(b)),
        ValueV::Keyword(s) => Some(ipp_keyword_value(s)),
        ValueV::Text(s) => Some(ipp_text_value(s)),
        ValueV::Name(s) => Some(ipp_name_value(s)),
        ValueV::Uri(s) => Some(ipp_uri_value(s)),
        ValueV::Charset(s) => Some(ipp_charset_value(s)),
        ValueV::NaturalLanguage(s) => Some(ipp_natural_language_value(s)),
        ValueV::MimeMediaType(s) => Some(ipp_mime_media_type_value(s)),
        ValueV::OctetString(s) => Some(ipp_octet_string_value(s)),
        ValueV::RangeOfInteger { min, max } => Some(ipp_range_value(min, max)),
        ValueV::Resolution { cross_feed, feed, units } => Some(
            ipp_resolution_value(cross_feed, feed, units),
        ),
        ValueV::DateTime(t) => Some(ipp_date_time_value(t)),
        ValueV::Unknown => Some(ipp_out_of_band_value(0x12)),
        _ => None,
    }
}

/// What the library reads back from a single `ipp` value made from `x`:
/// `x` itself for the kinds a request is read for, `Opaque` otherwise.
pub open spec fn read_kind(x: ValueV) -> ValueV {
    match x {
        ValueV::Integer(_) | ValueV::Enum(_) | ValueV::Boolean(_) | ValueV::Keyword(_)
        | ValueV::Text(_) | ValueV::Name(_) | ValueV::Uri(_) | ValueV::Charset(_)
        | ValueV::NaturalLanguage(_) | ValueV::MimeMediaType(_) | ValueV::OctetString(_) => x,
        _ => ValueV::Opaque,
    }
}

/// Whether the `ipp` crate's parser reads `body` as an IPP request and, if
/// it does, the document that follows the request's attributes.
pub uninterp spec fn ipp_request_document(body: Seq<u8>) -> Option<Seq<u8>>;

/// The attribute groups the `ipp` crate's parser reads from `body`: for each
/// delimiter before the end tag, its tag byte and the group's attributes by
/// name (a later attribute of the same name replaces an earlier one).
pub uninterp spec fn ipp_request_groups(body: Seq<u8>) -> Seq<(u8, Map<Seq<char>, IppValue>)>;

/// The values of a value tag whose decoding reads fixed-size fields: the
/// value is long enough for them (integer and enum 4 bytes, boolean 1,
/// dateTime 11, resolution 9, rangeOfInteger 8; text and name with language
/// two length-prefixed strings that lie inside it).
pub open spec fn value_fits(tag: u8, v: Seq<u8>) -> bool {
    if tag == 0x21 || tag == 0x23 {
        v.len() >= 4
    } else if tag == 0x33 {
        v.len() >= 8
    } else if tag == 0x22 {
        v.len() >= 1
    } else if tag == 0x31 {
        v.len() >= 11
    } else if tag == 0x32 {
        v.len() >= 9
    } else if tag == 0x35 || tag == 0x36 {
        v.len() >= 2 && be16(v, 0) + 4 <= v.len() && be16(v, 0) + 4 + be16(v, be16(v, 0) + 2)
            <= v.len()
    } else {
        true
    }
}

/// Walking the attribute stream of `b` from offset `i` as the `ipp` parser
/// does (delimiter tags, then tag, length-prefixed name and length-prefixed
/// value), every complete value fits its tag. The walk ends at the end tag,
/// at a tag that is neither a delimiter nor a value tag, or where the input
/// runs out (where the parser stops with an error).
pub open spec fn values_sized_from(b: Seq<u8>, i: int) -> bool
    decreases b.len() - i,
{
    if i < 0 || i >= b.len() {
        true
    } else if 0x01 <= b[i] <= 0x05 {
        if b[i] == 0x03 {
            true
        } else {
            values_sized_from(b, i + 1)
        }
    } else if 0x10 <= b[i] <= 0x4a {
        if i + 3 > b.len() {
            true
        } else {
            let vp = i + 3 + be16(b, i + 1);
            if vp + 2 > b.len() {
                true
            } else {
                let end = vp + 2 + be16(b, vp);
                if end > b.len() {
                    true
                } else {
                    value_fits(b[i], b.subrange(vp + 2, end)) && values_sized_from(b, end)
                }
            }
        }
    } else {
        true
    }
}

/// Every attribute value of the request `b` is long enough for its tag.
pub open spec fn ipp_values_sized(b: Seq<u8>) -> bool {
    b.len() < 8 || values_sized_from(b, 8)
}

/// The raw groups read from a body agree with the named groups: same count,
/// same tags in order, distinct attribute names, and each group's attributes
/// are exactly the named group's entries.
pub open spec fn groups_as_read(
    raw: Seq<(u8, Vec<(String, IppValue)>)>,
    named: Seq<(u8, Map<Seq<char>, IppValue>)>,
) -> bool {
    &&& raw.len() == named.len()
    &&& forall|g: int|
        0 <= g < raw.len() ==> (#[trigger] raw[g]).0 == named[g].0 && pairs_are(raw[g].1@, named[g].1)
}

/// The list `s` holds exactly the entries of `m`, each once.
pub open spec fn pairs_are(s: Seq<(String, IppValue)>, m: Map<Seq<char>, IppValue>) -> bool {
    &&& forall|k: int, l: int| 0 <= k < l < s.len() ==> (#[trigger] s[k]).0@ != (#[trigger] s[l]).0@
    &&& forall|k: int| 0 <= k < s.len() ==> m.contains_key((#[trigger] s[k]).0@) && m[s[k].0@] == s[k].1
    &&& forall|key: Seq<char>| #[trigger] m.contains_key(key) ==> exists|k: int| 0 <= k < s.len() && (#[trigger] s[k]).0@ == key
}

/// Parses an IPP request with `ipp::parser::IppParser` and reads the
/// document after the attributes. Admitted only on bodies whose values fit
/// their tags: on a shorter fixed-size value the crate's decoder panics.
/// Claimed: success, the document and the groups are a function of `body`
/// alone, named [`ipp_request_document`] and [`ipp_request_groups`] (the
/// parser is deterministic and reading the rest of an in-memory buffer cannot
/// fail); on success the header fields are the first 8 bytes of `body`, as
/// `IppReader::read_header` reads them. The order of attributes within a
/// group is the crate's hash map order, which is not stated. The error is
/// the parser's own message.
#[verifier::external_body]
fn ipp_parse(body: &[u8]) -> (r: Result<(u16, u16, u32, Vec<(u8, Vec<(String, IppValue)>)>, Vec<u8>), String>)
    requires
        ipp_values_sized(body@),
    ensures
        (r is Ok) == (ipp_request_document(body@) is Some),
        r matches Ok((v, c, rid, groups, doc)) ==> has_header(body@, v, c, rid)
            && ipp_request_document(body@) == Some(doc@)
            && groups_as_read(groups@, ipp_request_groups(body@)),
{
    let mut req = IppParser::new(IppReader::new(std::io::Cursor::new(body.to_vec()))).parse()
        .map_err(|e| e.to_string())?;
    let mut document = Vec::new();
    req.payload_mut().read_to_end(&mut document).map_err(|e| e.to_string())?;
    let h = req.header();
    let groups = req.attributes().groups().iter().map(|g| (g.tag() as u8, g.attributes().values()
        .map(|a| (a.name().to_string(), a.value().clone())).collect())).collect();
    Ok((h.version.0, h.operation_or_status, h.request_id, groups, document))
}

/// The members of an `ipp` array value (`IppValue::Array`), `None` for any
/// other value. Claimed: `None` for each single value the named
/// constructors below make, and the items of an array that
/// [`ipp_array_value`] names.
#[verifier::external_body]
fn ipp_items(v: &IppValue) -> (r: Option<Vec<IppValue>>)
    ensures
        forall|x: ValueV| #[trigger] ipp_scalar_spec(x) == Some(*v) ==> r is None,
        forall|s: Seq<IppValue>| #[trigger] ipp_array_value(s) == *v ==> r is Some && r.unwrap()@ == s,
{
    match v {
        IppValue::Array(items) => Some(items.clone()),
        _ => None,
    }
}

/// An `ipp` value in the library's model; kinds the library never reads in
/// a request become `Value::Opaque`. Claimed: a value made by one of the
/// named constructors below reads back as [`read_kind`] of what it was made
/// from (one match arm each).
#[verifier::external_body]
fn ipp_scalar(v: &IppValue) -> (r: Value)
    ensures
        forall|x: ValueV| #[trigger] ipp_scalar_spec(x) == Some(*v) ==> r@ == read_kind(x),
{
    match v {
        IppValue::Integer(n) => Value::Integer(*n),
        IppValue::Enum(n) => Value::Enum(*n),
        IppValue::Boolean(b) => Value::Boolean(*b),
        IppValue::Keyword(s) => Value::Keyword(s.clone()),
        IppValue::TextWithoutLanguage(s) => Value::Text(s.clone()),
        IppValue::NameWithoutLanguage(s) => Value::Name(s.clone()),
        IppValue::Uri(s) => Value::Uri(s.clone()),
        IppValue::Charset(s) => Value::Charset(s.clone()),
        IppValue::NaturalLanguage(s) => Value::NaturalLanguage(s.clone()),
        IppValue::MimeMediaType(s) => Value::MimeMediaType(s.clone()),
        IppValue::OctetString(s) => Value::OctetString(s.clone()),
        _ => Value::Opaque,
    }
}

/// `IppValue::Integer` of the given fields, named [`ipp_integer_value`].
pub uninterp spec fn ipp_integer_value(n: i32) -> IppValue;

/// `IppValue::Integer`.
/// Claimed: the value is a function of the arguments alone.
#[verifier::external_body]
fn ipp_integer(n: i32) -> (r: IppValue)
    ensures
        r == ipp_integer_value(n),
{
    IppValue::Integer(n)
}

/// `IppValue::Enum` of the given fields, named [`ipp_enum_value`].
pub uninterp spec fn ipp_enum_value(n: i32) -> IppValue;

/// `IppValue::Enum`.
/// Claimed: the value is a function of the arguments alone.
#[verifier::external_body]
fn ipp_enum(n: i32) -> (r: IppValue)
    ensures
        r == ipp_enum_value(n),
{
    IppValue::Enum(n)
}

/// `IppValue::Boolean` of the given fields, named [`ipp_boolean_value`].
pub uninterp spec fn ipp_boolean_value(b: bool) -> IppValue;

/// `IppValue::Boolean`.
/// Claimed: the value is a function of the arguments alone.
#[verifier::external_body]
fn ipp_boolean(b: bool) -> (r: IppValue)
    ensures
        r == ipp_boolean_value(b),
{
    IppValue::Boolean(b)
}

/// `IppValue::Keyword` of the given fields, named [`ipp_keyword_value`].
pub uninterp spec fn ipp_keyword_value(s: Seq<char>) -> IppValue;

/// `IppValue::Keyword`.
/// Claimed: the value is a function of the arguments alone.
#[verifier::external_body]
fn ipp_keyword(s: String) -> (r: IppValue)
    ensures
        r == ipp_keyword_value(s@),
{
    IppValue::Keyword(s)
}

/// `IppValue::TextWithoutLanguage` of the given fields, named [`ipp_text_value`].
pub uninterp spec fn ipp_text_value(s: Seq<char>) -> IppValue;

/// `IppValue::TextWithoutLanguage`.
/// Claimed: the value is a function of the arguments alone.
#[verifier::external_body]
fn ipp_text(s: String) -> (r: IppValue)
    ensures
        r == ipp_text_value(s@),
{
    IppValue::TextWithoutLanguage(s)
}

/// `IppValue::NameWithoutLanguage` of the given fields, named [`ipp_name_value`].
pub uninterp spec fn ipp_name_value(s: Seq<char>) -> IppValue;

/// `IppValue::NameWithoutLanguage`.
/// Claimed: the value is a function of the arguments alone.
#[verifier::external_body]
fn ipp_name(s: String) -> (r: IppValue)
    ensures
        r == ipp_name_value(s@),
{
    IppValue::NameWithoutLanguage(s)
}

/// `IppValue::Uri` of the given fields, named [`ipp_uri_value`].
pub uninterp spec fn ipp_uri_value(s: Seq<char>) -> IppValue;

/// `IppValue::Uri`.
/// Claimed: the value is a function of the arguments alone.
#[verifier::external_body]
fn ipp_uri(s: String) -> (r: IppValue)
    ensures
        r == ipp_uri_value(s@),
{
    IppValue::Uri(s)
}

/// `IppValue::Charset` of the given fields, named [`ipp_charset_value`].
pub uninterp spec fn ipp_charset_value(s: Seq<char>) -> IppValue;

/// `IppValue::Charset`.
/// Claimed: the value is a function of the arguments alone.
#[verifier::external_body]
fn ipp_charset(s: String) -> (r: IppValue)
    ensures
        r == ipp_charset_value(s@),
{
    IppValue::Charset(s)
}

/// `IppValue::NaturalLanguage` of the given fields, named [`ipp_natural_language_value`].
pub uninterp spec fn ipp_natural_language_value(s: Seq<char>) -> IppValue;

/// `IppValue::NaturalLanguage`.
/// Claimed: the value is a function of the arguments alone.
#[verifier::external_body]
fn ipp_natural_language(s: String) -> (r: IppValue)
    ensures
        r == ipp_natural_language_value(s@),
{
    IppValue::NaturalLanguage(s)
}

/// `IppValue::MimeMediaType` of the given fields, named [`ipp_mime_media_type_value`].
pub uninterp spec fn ipp_mime_media_type_value(s: Seq<char>) -> IppValue;

/// `IppValue::MimeMediaType`.
/// Claimed: the value is a function of the arguments alone.
#[verifier::external_body]
fn ipp_mime_media_type(s: String) -> (r: IppValue)
    ensures
        r == ipp_mime_media_type_value(s@),
{
    IppValue::MimeMediaType(s)
}

/// `IppValue::OctetString` of the given fields, named [`ipp_octet_string_value`].
pub uninterp spec fn ipp_octet_string_value(s: Seq<char>) -> IppValue;

/// `IppValue::OctetString`.
/// Claimed: the value is a function of the arguments alone.
#[verifier::external_body]
fn ipp_octet_string(s: String) -> (r: IppValue)
    ensures
        r == ipp_octet_string_value(s@),
{
    IppValue::OctetString(s)
}

/// `IppValue::RangeOfInteger` of the given fields, named [`ipp_range_value`].
pub uninterp spec fn ipp_range_value(min: i32, max: i32) -> IppValue;

/// `IppValue::RangeOfInteger`.
/// Claimed: the value is a function of the arguments alone.
#[verifier::external_body]
fn ipp_range(min: i32, max: i32) -> (r: IppValue)
    ensures
        r == ipp_range_value(min, max),
{
    IppValue::RangeOfInteger { min, max }
}

/// `IppValue::Resolution` of the given fields, named [`ipp_resolution_value`].
pub uninterp spec fn ipp_resolution_value(cross_feed: i32, feed: i32, units: i8) -> IppValue;

/// `IppValue::Resolution`.
/// Claimed: the value is a function of the arguments alone.
#[verifier::external_body]
fn ipp_resolution(cross_feed: i32, feed: i32, units: i8) -> (r: IppValue)
    ensures
        r == ipp_resolution_value(cross_feed, feed, units),
{
    IppValue::Resolution { cross_feed, feed, units }
}

/// `IppValue::DateTime` of the given fields, named [`ipp_date_time_value`].
pub uninterp spec fn ipp_date_time_value(t: CivilDateTime) -> IppValue;

/// `IppValue::DateTime` of a UTC date and time (no deci-seconds, offset
/// `+0000`).
/// Claimed: the value is a function of the arguments alone.
#[verifier::external_body]
fn ipp_date_time(t: CivilDateTime) -> (r: IppValue)
    ensures
        r == ipp_date_time_value(t),
{
    IppValue::DateTime {
        year: t.year,
        month: t.month,
        day: t.day,
        hour: t.hour,
        minutes: t.minutes,
        seconds: t.seconds,
        deci_seconds: 0,
        utc_dir: '+',
        utc_hours: 0,
        utc_mins: 0,
    }
}

/// `IppValue::Collection` of the given members (name and value each), named
/// by [`ipp_collection`].
pub uninterp spec fn ipp_collection_value(members: Seq<(Seq<char>, IppValue)>) -> IppValue;

/// The members of a collection, each name taken by its view.
pub open spec fn member_views(members: Seq<(String, IppValue)>) -> Seq<(Seq<char>, IppValue)> {
    members.map_values(|p: (String, IppValue)| (p.0@, p.1))
}

/// `IppValue::Collection` of the given members.
/// Claimed: the value is a function of the members alone.
#[verifier::external_body]
fn ipp_collection(members: Vec<(String, IppValue)>) -> (r: IppValue)
    ensures
        r == ipp_collection_value(member_views(members@)),
{
    IppValue::Collection(members.into_iter().collect())
}

/// `IppValue::Array` of the given items, named by [`ipp_array`].
pub uninterp spec fn ipp_array_value(items: Seq<IppValue>) -> IppValue;

/// `IppValue::Array` of the given items.
/// Claimed: the value is a function of the items alone.
#[verifier::external_body]
fn ipp_array(items: Vec<IppValue>) -> (r: IppValue)
    ensures
        r == ipp_array_value(items@),
{
    IppValue::Array(items)
}

/// `IppValue::Other` of the given fields, named [`ipp_out_of_band_value`].
pub uninterp spec fn ipp_out_of_band_value(tag: u8) -> IppValue;

/// An out-of-band value (`IppValue::Other` with no data) with value tag
/// `tag`.
/// Claimed: the value is a function of the arguments alone.
#[verifier::external_body]
fn ipp_out_of_band(tag: u8) -> (r: IppValue)
    ensures
        r == ipp_out_of_band_value(tag),
{
    IppValue::Other { tag, data: Vec::<u8>::new().into() }
}

/// Delimiter tags of attribute groups the library writes.
pub open spec fn is_group_code(c: u8) -> bool {
    c == 0x01 || c == 0x02 || c == 0x04 || c == 0x05
}

/// Serialises a response with `ipp::request::IppRequestResponse::to_bytes`:
/// header `version`, `code`, `request_id`, then the groups in order (the
/// first operation group only, first of all), each group's attributes in the
/// order of the crate's hash map. Claimed: what `to_bytes` always writes,
/// the header, the operation-attributes delimiter right after it, and the
/// end-of-attributes tag last. Claimed too, where every attribute is the
/// image of a writable attribute of the library's model: the crate's own
/// parser reads the bytes back, every value with the length its tag needs,
/// no document after the attributes, and groups with the tags and attribute
/// names of [`written_outline`], each value read back as [`read_back_of`]
/// the model value it was written from (for the out-of-band no-value,
/// nothing). The order of attributes within a group is not stated.
#[verifier::external_body]
fn ipp_encode(version: u16, code: u16, request_id: u32, groups: Vec<(u8, Vec<(String, IppValue)>)>) -> (r: Vec<u8>)
    requires
        forall|i: int| 0 <= i < groups@.len() ==> is_group_code(#[trigger] groups@[i].0),
    ensures
        frames_message(r@, version, code, request_id),
        raw_groups_writable(groups@) ==> {
            &&& ipp_values_sized(r@)
            &&& ipp_request_document(r@) == Some(Seq::<u8>::empty())
            &&& raw_outline_read(ipp_request_groups(r@), written_outline(raw_outline(groups@)))
        },
{
    let mut resp = IppRequestResponse::new_response(IppVersion(version), StatusCode::SuccessfulOk, request_id);
    resp.header_mut().operation_or_status = code;
    let list = resp.attributes_mut().groups_mut();
    list.clear();
    for (tag, attrs) in groups {
        let mut group = IppAttributeGroup::new(DelimiterTag::from_u8(tag).unwrap());
        for (name, value) in attrs {
            group.attributes_mut().insert(name.clone(), IppAttribute::new(name, value));
        }
        list.push(group);
    }
    resp.to_bytes().to_vec()
}

/// The name of the IPP operation with code `code` as the `ipp` crate's
/// `Operation` enum spells it (its `Debug` form), `None` for a code that
/// enum does not list.
pub uninterp spec fn ipp_operation_name(code: u16) -> Option<Seq<char>>;

/// `ipp::model::Operation::from_u16` and the `Debug` form of the operation.
/// Claimed: the result is a function of `code` alone, named
/// [`ipp_operation_name`].
#[verifier::external_body]
pub(crate) fn operation_name(code: u16) -> (r: Option<String>)
    ensures
        match r {
            Some(s) => ipp_operation_name(code) == Some(s@),
            None => ipp_operation_name(code) is None,
        },
{
    Operation::from_u16(code).map(|op| format!("{op:?}"))
}

/// The group tag of a delimiter byte; tags the library does not model are
/// taken as the unsupported-attributes group.
pub open spec fn group_tag_spec(code: u8) -> GroupTag {
    if code == 0x01 {
        GroupTag::Operation
    } else if code == 0x02 {
        GroupTag::Job
    } else if code == 0x04 {
        GroupTag::Printer
    } else {
        GroupTag::Unsupported
    }
}

/// The group tag of a delimiter byte (see [`group_tag_spec`]).
pub fn group_tag_of(code: u8) -> (r: GroupTag)
    ensures
        r == group_tag_spec(code),
{
    if code == 0x01 {
        GroupTag::Operation
    } else if code == 0x02 {
        GroupTag::Job
    } else if code == 0x04 {
        GroupTag::Printer
    } else {
        GroupTag::Unsupported
    }
}

/// Whether the value `b[start..start + len]` fits tag `tag`.
fn value_fits_at(b: &[u8], start: usize, len: usize, tag: u8) -> (r: bool)
    requires
        start + len <= b@.len(),
    ensures
        r == value_fits(tag, b@.subrange(start as int, start + len)),
{
    let ghost v = b@.subrange(start as int, start + len);
    if tag == 0x21 || tag == 0x23 {
        len >= 4
    } else if tag == 0x33 {
        len >= 8
    } else if tag == 0x22 {
        len >= 1
    } else if tag == 0x31 {
        len >= 11
    } else if tag == 0x32 {
        len >= 9
    } else if tag == 0x35 || tag == 0x36 {
        if len < 2 {
            false
        } else {
            let l1: usize = (b[start] as usize) * 256 + (b[start + 1] as usize);
            assert(l1 == be16(v, 0));
            if len < 4 || l1 > len - 4 {
                false
            } else {
                let l2: usize = (b[start + 2 + l1] as usize) * 256 + (b[start + 3 + l1] as usize);
                assert(l2 == be16(v, l1 + 2));
                l2 <= len - 4 - l1
            }
        }
    } else {
        true
    }
}

/// Whether every attribute value of the request `b` is long enough for its
/// tag (see [`ipp_values_sized`]); the `ipp` crate's decoder is only handed
/// bodies that pass.
pub fn values_sized(b: &[u8]) -> (r: bool)
    ensures
        r == ipp_values_sized(b@),
{
    if b.len() < 8 {
        return true;
    }
    let mut i: usize = 8;
    while i < b.len()
        invariant
            8 <= i,
            values_sized_from(b@, 8) == values_sized_from(b@, i as int),
        decreases b@.len() - i,
    {
        let t = b[i];
        if 0x01 <= t && t <= 0x05 {
            if t == 0x03 {
                return true;
            }
            i = i + 1;
        } else if 0x10 <= t && t <= 0x4a {
            if b.len() - i < 3 {
                return true;
            }
            let nl: usize = (b[i + 1] as usize) * 256 + (b[i + 2] as usize);
            assert(nl == be16(b@, i + 1));
            if b.len() - (i + 3) < 2 || nl > b.len() - (i + 3) - 2 {
                return true;
            }
            let vp: usize = i + 3 + nl;
            let vl: usize = (b[vp] as usize) * 256 + (b[vp + 1] as usize);
            assert(vl == be16(b@, vp as int));
            if vl > b.len() - (vp + 2) {
                return true;
            }
            if !value_fits_at(b, vp + 2, vl, t) {
                return false;
            }
            i = vp + 2 + vl;
        } else {
            return true;
        }
    }
    true
}

/// The `ipp` values single values of the model are written as, one each.
pub open spec fn scalar_images(xs: Seq<ValueV>) -> Seq<IppValue> {
    xs.map_values(|x: ValueV| ipp_scalar_spec(x).unwrap())
}

/// Every value of `xs` is of a kind written through a named constructor.
pub open spec fn all_scalar(xs: Seq<ValueV>) -> bool {
    forall|i: int| 0 <= i < xs.len() ==> (#[trigger] ipp_scalar_spec(xs[i])) is Some
}

/// What the library reads from an `ipp` value: a single value made from `x`
/// reads back as [`read_kind`] of `x`, an array of such values as the set of
/// their [`read_kind`]s.
pub open spec fn reads_as(v: IppValue, a: AttrValueV) -> bool {
    &&& forall|x: ValueV| #[trigger] ipp_scalar_spec(x) == Some(v) ==> a == AttrValueV::One(read_kind(x))
    &&& forall|xs: Seq<ValueV>|
        all_scalar(xs) && #[trigger] ipp_array_value(scalar_images(xs)) == v ==> a == AttrValueV::Many(
            xs.map_values(|x: ValueV| read_kind(x)),
        )
}

/// A parsed group agrees with the group the `ipp` parser names: its tag is
/// the delimiter's, its attribute names are distinct and are exactly the
/// named group's, and each value reads back as [`reads_as`] says.
pub open spec fn read_back_group(grp: AttributeGroupV, n: (u8, Map<Seq<char>, IppValue>)) -> bool {
    &&& grp.tag == group_tag_spec(n.0)
    &&& forall|k: int, l: int|
        0 <= k < l < grp.attributes.len() ==> (#[trigger] grp.attributes[k]).name
            != (#[trigger] grp.attributes[l]).name
    &&& forall|k: int|
        0 <= k < grp.attributes.len() ==> n.1.contains_key((#[trigger] grp.attributes[k]).name)
            && reads_as(n.1[grp.attributes[k].name], grp.attributes[k].value)
    &&& forall|key: Seq<char>|
        #[trigger] n.1.contains_key(key) ==> exists|k: int|
            0 <= k < grp.attributes.len() && (#[trigger] grp.attributes[k]).name == key
}

/// The parsed groups agree one for one with the groups the `ipp` parser
/// names.
pub open spec fn read_back_groups(
    groups: Seq<AttributeGroupV>,
    named: Seq<(u8, Map<Seq<char>, IppValue>)>,
) -> bool {
    &&& groups.len() == named.len()
    &&& forall|g: int| 0 <= g < groups.len() ==> #[trigger] read_back_group(groups[g], named[g])
}

fn attr_value_from_ipp(v: &IppValue) -> (r: AttrValue)
    ensures
        reads_as(*v, r@),
{
    match ipp_items(v) {
        Some(items) => {
            let mut out: Vec<Value> = Vec::new();
            let mut k: usize = 0;
            while k < items.len()
                invariant
                    k <= items@.len(),
                    out@.len() == k,
                    forall|j: int|
                        0 <= j < k ==> forall|x: ValueV|
                            #[trigger] ipp_scalar_spec(x) == Some(items@[j]) ==> (#[trigger] out@[j])@
                                == read_kind(x),
                decreases items@.len() - k,
            {
                out.push(ipp_scalar(&items[k]));
                k = k + 1;
            }
            proof {
                assert forall|xs: Seq<ValueV>|
                    all_scalar(xs) && #[trigger] ipp_array_value(scalar_images(xs)) == *v implies AttrValue::Many(
                        out,
                    )@ == AttrValueV::Many(xs.map_values(|x: ValueV| read_kind(x))) by {
                    assert(items@ == scalar_images(xs));
                    assert forall|j: int| 0 <= j < xs.len() implies values_view(out@)[j]
                        == xs.map_values(|x: ValueV| read_kind(x))[j] by {
                        assert(ipp_scalar_spec(xs[j]) is Some);
                        assert(ipp_scalar_spec(xs[j]) == Some(items@[j]));
                    }
                    assert(values_view(out@) =~= xs.map_values(|x: ValueV| read_kind(x)));
                }
            }
            AttrValue::Many(out)
        },
        None => {
            let r = AttrValue::One(ipp_scalar(v));
            proof {
                assert forall|xs: Seq<ValueV>|
                    all_scalar(xs) && #[trigger] ipp_array_value(scalar_images(xs)) == *v implies r@
                        == AttrValueV::Many(xs.map_values(|x: ValueV| read_kind(x))) by {}
            }
            r
        },
    }
}

/// Parse an IPP request body into the library's model, with the document
/// that follows its attributes. A body with a value too short for its tag is
/// refused before the `ipp` crate sees it; any other body succeeds exactly
/// when the crate parses it. On success the message's version, operation and
/// request id are the body's first 8 bytes, the document is the crate's, and
/// the groups are the crate's groups in order (see [`read_back_groups`]).
/// The error is `IPP parse error: ` and the cause.
pub fn parse_ipp_request(body: &[u8]) -> (r: Result<(IppMessage, Vec<u8>), String>)
    ensures
        (r is Ok) == (ipp_values_sized(body@) && ipp_request_document(body@) is Some),
        r matches Ok((m, doc)) ==> has_header(body@, m.version, m.code, m.request_id)
            && ipp_request_document(body@) == Some(doc@)
            && read_back_groups(m@.groups, ipp_request_groups(body@)),
        r matches Err(e) ==> is_prefix("IPP parse error: "@, e@),
{
    proof {
        reveal_strlit("IPP parse error: ");
    }
    if !values_sized(body) {
        let mut e = owned("IPP parse error: ");
        push_str(&mut e, "attribute value too short for its tag");
        proof {
            assert(e@.subrange(0, 17) =~= "IPP parse error: "@);
        }
        return Err(e);
    }
    match ipp_parse(body) {
        Err(cause) => {
            let mut e = owned("IPP parse error: ");
            push_str(&mut e, cause.as_str());
            proof {
                assert(e@.subrange(0, 17) =~= "IPP parse error: "@);
            }
            Err(e)
        },
        Ok((version, code, request_id, raw, document)) => {
            let ghost named = ipp_request_groups(body@);
            let mut groups: Vec<AttributeGroup> = Vec::new();
            let mut g: usize = 0;
            while g < raw.len()
                invariant
                    g <= raw@.len(),
                    groups@.len() == g,
                    groups_as_read(raw@, named),
                    forall|gg: int| 0 <= gg < g ==> #[trigger] read_back_group(groups@[gg]@, named[gg]),
                decreases raw@.len() - g,
            {
                let attrs = &raw[g].1;
                let ghost n = named[g as int];
                assert(raw@[g as int].0 == n.0 && pairs_are(attrs@, n.1));
                let mut list: Vec<Attribute> = Vec::new();
                let mut k: usize = 0;
                while k < attrs.len()
                    invariant
                        k <= attrs@.len(),
                        list@.len() == k,
                        forall|j: int|
                            0 <= j < k ==> (#[trigger] list@[j]).name@ == attrs@[j].0@ && reads_as(
                                attrs@[j].1,
                                list@[j].value@,
                            ),
                    decreases attrs@.len() - k,
                {
                    let (name, value) = &attrs[k];
                    list.push(Attribute { name: name.clone(), value: attr_value_from_ipp(value) });
                    k = k + 1;
                }
                let group = AttributeGroup { tag: group_tag_of(raw[g].0), attributes: list };
                proof {
                    let gv = group@;
                    assert(gv.attributes.len() == attrs@.len());
                    assert forall|j: int| 0 <= j < gv.attributes.len() implies #[trigger] gv.attributes[j]
                        == list@[j]@ by {}
                    assert forall|a: int, b: int| 0 <= a < b < gv.attributes.len() implies (#[trigger] gv.attributes[a]).name
                        != (#[trigger] gv.attributes[b]).name by {
                        assert(gv.attributes[a].name == attrs@[a].0@);
                        assert(gv.attributes[b].name == attrs@[b].0@);
                        assert(attrs@[a].0@ != attrs@[b].0@);
                    }
                    assert forall|j: int| 0 <= j < gv.attributes.len() implies n.1.contains_key((#[trigger] gv.attributes[j]).name)
                        && reads_as(n.1[gv.attributes[j].name], gv.attributes[j].value) by {
                        assert(gv.attributes[j].name == attrs@[j].0@);
                        assert(n.1.contains_key(attrs@[j].0@) && n.1[attrs@[j].0@] == attrs@[j].1);
                    }
                    assert forall|key: Seq<char>| #[trigger] n.1.contains_key(key) implies exists|j: int|
                        0 <= j < gv.attributes.len() && (#[trigger] gv.attributes[j]).name == key by {
                        let j = choose|j: int| 0 <= j < attrs@.len() && (#[trigger] attrs@[j]).0@ == key;
                        assert(gv.attributes[j].name == key);
                    }
                    assert(read_back_group(gv, n));
                }
                groups.push(group);
                proof {
                    assert forall|gg: int| 0 <= gg < g + 1 implies #[trigger] read_back_group(groups@[gg]@, named[gg]) by {
                        if gg < g {
                        }
                    }
                }
                g = g + 1;
            }
            let m = IppMessage { version, code, request_id, groups };
            proof {
                assert forall|gg: int| 0 <= gg < m@.groups.len() implies #[trigger] read_back_group(m@.groups[gg], named[gg]) by {
                    assert(m@.groups[gg] == groups@[gg]@);
                }
            }
            Ok((m, document))
        },
    }
}

/// The members of a media-size collection.
pub open spec fn size_members_spec(x: i32, y: i32) -> Seq<(Seq<char>, IppValue)> {
    seq![("x-dimension"@, ipp_integer_value(x)), ("y-dimension"@, ipp_integer_value(y))]
}

/// The `ipp` value a value of the library's model is written as: the scalar
/// kinds through their named constructors, the media collections as
/// collections of their members, and `Opaque` as an out-of-band value with
/// the `no-value` tag.
pub open spec fn ipp_value_of(x: ValueV) -> IppValue {
    match x {
        ValueV::MediaSize { x, y } => ipp_collection_value(size_members_spec(x, y)),
        ValueV::MediaCol { name, x, y } => ipp_collection_value(
            seq![
                ("media-size"@, ipp_collection_value(size_members_spec(x, y))),
                ("media-size-name"@, ipp_keyword_value(name)),
            ],
        ),
        ValueV::Opaque => ipp_out_of_band_value(0x13),
        _ => ipp_scalar_spec(x).unwrap(),
    }
}

/// The `ipp` value an attribute value is written as: a single value as
/// itself, a set of values as an array.
pub open spec fn ipp_attr_value_of(a: AttrValueV) -> IppValue {
    match a {
        AttrValueV::One(x) => ipp_value_of(x),
        AttrValueV::Many(xs) => ipp_array_value(xs.map_values(|x: ValueV| ipp_value_of(x))),
    }
}

/// A string the wire format's 16-bit length field holds whatever its
/// characters (at most four bytes each in UTF-8).
pub open spec fn short_text(s: Seq<char>) -> bool {
    s.len() <= 16383
}

/// A single value whose text, if any, fits a wire length field.
pub open spec fn value_writable(x: ValueV) -> bool {
    match x {
        ValueV::Keyword(s) => short_text(s),
        ValueV::Text(s) => short_text(s),
        ValueV::Name(s) => short_text(s),
        ValueV::Uri(s) => short_text(s),
        ValueV::Charset(s) => short_text(s),
        ValueV::NaturalLanguage(s) => short_text(s),
        ValueV::MimeMediaType(s) => short_text(s),
        ValueV::OctetString(s) => short_text(s),
        ValueV::MediaCol { name, .. } => short_text(name),
        _ => true,
    }
}

/// The value tag a single value is written with.
pub open spec fn wire_tag(x: ValueV) -> u8 {
    match x {
        ValueV::Integer(_) => 0x21,
        ValueV::Enum(_) => 0x23,
        ValueV::Boolean(_) => 0x22,
        ValueV::Keyword(_) => 0x44,
        ValueV::Text(_) => 0x41,
        ValueV::Name(_) => 0x42,
        ValueV::Uri(_) => 0x45,
        ValueV::Charset(_) => 0x47,
        ValueV::NaturalLanguage(_) => 0x48,
        ValueV::MimeMediaType(_) => 0x49,
        ValueV::OctetString(_) => 0x30,
        ValueV::RangeOfInteger { .. } => 0x33,
        ValueV::Resolution { .. } => 0x32,
        ValueV::DateTime(_) => 0x31,
        ValueV::MediaSize { .. } => 0x34,
        ValueV::MediaCol { .. } => 0x34,
        ValueV::Unknown => 0x12,
        ValueV::Opaque => 0x13,
    }
}

/// An attribute value the `ipp` crate writes so that its own parser reads it
/// back: every text fits its length field, and a set of values is not empty
/// and all of one kind (the crate writes every later value of a set under the
/// first value's tag).
pub open spec fn attr_value_writable(a: AttrValueV) -> bool {
    match a {
        AttrValueV::One(x) => value_writable(x),
        AttrValueV::Many(xs) => {
            &&& xs.len() > 0
            &&& forall|i: int| 0 <= i < xs.len() ==> #[trigger] value_writable(xs[i])
            &&& forall|i: int| 0 <= i < xs.len() ==> #[trigger] wire_tag(xs[i]) == wire_tag(xs[0])
        },
    }
}

/// An attribute the wire format carries as one: a non-empty name that fits
/// a length field (an empty name marks another value of the attribute
/// before it) and a writable value.
pub open spec fn attribute_writable(a: AttributeV) -> bool {
    0 < a.name.len() && short_text(a.name) && attr_value_writable(a.value)
}

/// The names of a list of named items are distinct.
pub open spec fn distinct_names<T>(pairs: Seq<(Seq<char>, T)>) -> bool {
    forall|k: int, l: int| 0 <= k < l < pairs.len() ==> (#[trigger] pairs[k]).0 != (#[trigger] pairs[l]).0
}

/// The attributes of a group as (name, value) pairs.
pub open spec fn named_values(attrs: Seq<AttributeV>) -> Seq<(Seq<char>, AttrValueV)> {
    attrs.map_values(|a: AttributeV| (a.name, a.value))
}

/// Every attribute of every group of `m` is writable, and no group holds two
/// attributes of one name (the crate keeps one attribute per name).
pub open spec fn message_writable(m: IppMessageV) -> bool {
    &&& forall|g: int, k: int|
        0 <= g < m.groups.len() && 0 <= k < m.groups[g].attributes.len() ==> #[trigger] attribute_writable(
            m.groups[g].attributes[k],
        )
    &&& forall|g: int| 0 <= g < m.groups.len() ==> distinct_names(#[trigger] named_values(m.groups[g].attributes))
}

/// An attribute handed to the `ipp` crate that is the image of a writable
/// attribute of the library's model.
pub open spec fn raw_attribute_writable(p: (String, IppValue)) -> bool {
    &&& 0 < p.0@.len()
    &&& short_text(p.0@)
    &&& exists|a: AttrValueV| attr_value_writable(a) && #[trigger] ipp_attr_value_of(a) == p.1
}

/// Every attribute handed to the `ipp` crate is writable, and no group holds
/// two attributes of one name.
pub open spec fn raw_groups_writable(groups: Seq<(u8, Vec<(String, IppValue)>)>) -> bool {
    &&& forall|g: int, k: int|
        0 <= g < groups.len() && 0 <= k < groups[g].1@.len() ==> #[trigger] raw_attribute_writable(
            groups[g].1@[k],
        )
    &&& forall|g: int| 0 <= g < groups.len() ==> distinct_names(#[trigger] member_views(groups[g].1@))
}

/// The names of a list of named items.
pub open spec fn names_of<T>(pairs: Seq<(Seq<char>, T)>) -> Set<Seq<char>> {
    Set::new(|n: Seq<char>| exists|k: int| 0 <= k < pairs.len() && (#[trigger] pairs[k]).0 == n)
}

/// The tag and the (name, value) pairs of each group handed to the `ipp`
/// crate.
pub open spec fn raw_outline(groups: Seq<(u8, Vec<(String, IppValue)>)>) -> Seq<(u8, Seq<(Seq<char>, IppValue)>)> {
    groups.map_values(|g: (u8, Vec<(String, IppValue)>)| (g.0, member_views(g.1@)))
}

/// The tag code and the (name, value) pairs of each group of a message.
pub open spec fn message_outline(m: IppMessageV) -> Seq<(u8, Seq<(Seq<char>, AttrValueV)>)> {
    m.groups.map_values(|g: AttributeGroupV| (group_tag_code(g.tag), named_values(g.attributes)))
}

/// The attributes of the first operation group of an outline, none if it
/// has no operation group.
pub open spec fn first_operation<T>(gs: Seq<(u8, Seq<(Seq<char>, T)>)>) -> Seq<(Seq<char>, T)>
    decreases gs.len(),
{
    if gs.len() == 0 {
        Seq::empty()
    } else if gs[0].0 == 0x01 {
        gs[0].1
    } else {
        first_operation(gs.drop_first())
    }
}

/// The groups of an outline other than operation groups, in order.
pub open spec fn other_groups<T>(gs: Seq<(u8, Seq<(Seq<char>, T)>)>) -> Seq<(u8, Seq<(Seq<char>, T)>)>
    decreases gs.len(),
{
    if gs.len() == 0 {
        Seq::empty()
    } else if gs[0].0 == 0x01 {
        other_groups(gs.drop_first())
    } else {
        seq![gs[0]] + other_groups(gs.drop_first())
    }
}

/// The outline the `ipp` crate writes for the groups of `gs`: one operation
/// group first, with the attributes of the first operation group (if any),
/// then every other group in order.
pub open spec fn written_outline<T>(gs: Seq<(u8, Seq<(Seq<char>, T)>)>) -> Seq<(u8, Seq<(Seq<char>, T)>)> {
    seq![(0x01u8, first_operation(gs))] + other_groups(gs)
}

/// What the `ipp` parser reads back for an attribute value the crate wrote
/// from `a`: a single value as itself, a set of one value as that value, a
/// larger set as the array of its values. Nothing is stated of the
/// out-of-band no-value (`Opaque`), which is read back as another `ipp`
/// value than the one written.
pub open spec fn read_back_of(a: AttrValueV) -> Option<IppValue> {
    match a {
        AttrValueV::One(x) => if x is Opaque {
            None
        } else {
            Some(ipp_value_of(x))
        },
        AttrValueV::Many(xs) => if xs.len() == 0 || xs[0] is Opaque {
            None
        } else if xs.len() == 1 {
            Some(ipp_value_of(xs[0]))
        } else {
            Some(ipp_array_value(xs.map_values(|x: ValueV| ipp_value_of(x))))
        },
    }
}

/// Groups read by the `ipp` parser have the tags and attribute names of a
/// written outline, one for one, and each value written from a writable
/// attribute value `a` of the model reads back as [`read_back_of`] `a`.
pub open spec fn raw_outline_read(
    named: Seq<(u8, Map<Seq<char>, IppValue>)>,
    outline: Seq<(u8, Seq<(Seq<char>, IppValue)>)>,
) -> bool {
    &&& named.len() == outline.len()
    &&& forall|i: int|
        0 <= i < named.len() ==> (#[trigger] named[i]).0 == outline[i].0 && named[i].1.dom() == names_of(
            outline[i].1,
        )
    &&& forall|i: int, k: int, a: AttrValueV|
        #![trigger outline[i].1[k], ipp_attr_value_of(a)]
        0 <= i < outline.len() && 0 <= k < outline[i].1.len() && attr_value_writable(a)
            && ipp_attr_value_of(a) == outline[i].1[k].1 && read_back_of(a) is Some ==> named[i].1[outline[i].1[k].0]
            == read_back_of(a).unwrap()
}

/// Groups read by the `ipp` parser have the tags and attribute names of a
/// written outline of the model, one for one, and each attribute's value
/// reads back as [`read_back_of`] its value.
pub open spec fn outline_read(
    named: Seq<(u8, Map<Seq<char>, IppValue>)>,
    outline: Seq<(u8, Seq<(Seq<char>, AttrValueV)>)>,
) -> bool {
    &&& named.len() == outline.len()
    &&& forall|i: int|
        0 <= i < named.len() ==> (#[trigger] named[i]).0 == outline[i].0 && named[i].1.dom() == names_of(
            outline[i].1,
        )
    &&& forall|i: int, k: int|
        0 <= i < outline.len() && 0 <= k < outline[i].1.len() && read_back_of(
            (#[trigger] outline[i].1[k]).1,
        ) is Some ==> named[i].1[outline[i].1[k].0] == read_back_of(outline[i].1[k].1).unwrap()
}

/// The pairs of a model group as the `ipp` values they are written as.
pub open spec fn image_pairs(p: Seq<(Seq<char>, AttrValueV)>) -> Seq<(Seq<char>, IppValue)> {
    p.map_values(|q: (Seq<char>, AttrValueV)| (q.0, ipp_attr_value_of(q.1)))
}

/// A model outline as the `ipp` values it is written as.
pub open spec fn image_outline(o: Seq<(u8, Seq<(Seq<char>, AttrValueV)>)>) -> Seq<(u8, Seq<(Seq<char>, IppValue)>)> {
    o.map_values(|g: (u8, Seq<(Seq<char>, AttrValueV)>)| (g.0, image_pairs(g.1)))
}

/// Every value of a model outline is writable.
pub open spec fn outline_writable(o: Seq<(u8, Seq<(Seq<char>, AttrValueV)>)>) -> bool {
    forall|i: int, k: int|
        0 <= i < o.len() && 0 <= k < o[i].1.len() ==> attr_value_writable((#[trigger] o[i].1[k]).1)
}

proof fn lemma_written_image(o: Seq<(u8, Seq<(Seq<char>, AttrValueV)>)>)
    ensures
        first_operation(image_outline(o)) == image_pairs(first_operation(o)),
        other_groups(image_outline(o)) == image_outline(other_groups(o)),
        written_outline(image_outline(o)) == image_outline(written_outline(o)),
    decreases o.len(),
{
    if o.len() == 0 {
        assert(image_pairs(Seq::<(Seq<char>, AttrValueV)>::empty()) =~= Seq::empty());
        assert(image_outline(Seq::<(u8, Seq<(Seq<char>, AttrValueV)>)>::empty()) =~= Seq::empty());
    } else {
        assert(image_outline(o).drop_first() =~= image_outline(o.drop_first()));
        lemma_written_image(o.drop_first());
        if o[0].0 != 0x01 {
            assert(image_outline(seq![o[0]] + other_groups(o.drop_first())) =~= seq![(o[0].0, image_pairs(o[0].1))]
                + image_outline(other_groups(o.drop_first())));
        }
    }
    assert(image_outline(seq![(0x01u8, first_operation(o))] + other_groups(o)) =~= seq![
        (0x01u8, image_pairs(first_operation(o))),
    ] + image_outline(other_groups(o)));
}

proof fn lemma_written_writable(o: Seq<(u8, Seq<(Seq<char>, AttrValueV)>)>)
    requires
        outline_writable(o),
    ensures
        forall|k: int| 0 <= k < first_operation(o).len() ==> attr_value_writable((#[trigger] first_operation(o)[k]).1),
        outline_writable(other_groups(o)),
        outline_writable(written_outline(o)),
    decreases o.len(),
{
    if o.len() > 0 {
        let rest = o.drop_first();
        assert forall|i: int, k: int| 0 <= i < rest.len() && 0 <= k < rest[i].1.len() implies attr_value_writable(
            (#[trigger] rest[i].1[k]).1,
        ) by {
            assert(rest[i] == o[i + 1]);
        }
        lemma_written_writable(rest);
        if o[0].0 != 0x01 {
            let og = other_groups(o);
            assert forall|i: int, k: int| 0 <= i < og.len() && 0 <= k < og[i].1.len() implies attr_value_writable(
                (#[trigger] og[i].1[k]).1,
            ) by {
                if i > 0 {
                    assert(og[i] == other_groups(rest)[i - 1]);
                } else {
                    assert(og[0] == o[0]);
                }
            }
        } else {
            assert forall|k: int| 0 <= k < first_operation(o).len() implies attr_value_writable(
                (#[trigger] first_operation(o)[k]).1,
            ) by {
                assert(first_operation(o)[k] == o[0].1[k]);
            }
        }
    }
    let w = written_outline(o);
    assert forall|i: int, k: int| 0 <= i < w.len() && 0 <= k < w[i].1.len() implies attr_value_writable(
        (#[trigger] w[i].1[k]).1,
    ) by {
        if i > 0 {
            assert(w[i] == other_groups(o)[i - 1]);
        } else {
            assert(w[0].1[k] == first_operation(o)[k]);
        }
    }
}

fn size_members(x: i32, y: i32) -> (r: Vec<(String, IppValue)>)
    ensures
        member_views(r@) == size_members_spec(x, y),
{
    let mut m: Vec<(String, IppValue)> = Vec::new();
    m.push((owned("x-dimension"), ipp_integer(x)));
    m.push((owned("y-dimension"), ipp_integer(y)));
    proof {
        assert(member_views(m@) =~= size_members_spec(x, y));
    }
    m
}

fn value_to_ipp(v: &Value) -> (r: IppValue)
    ensures
        r == ipp_value_of(v@),
{
    match v {
        Value::Integer(n) => ipp_integer(*n),
        Value::Enum(n) => ipp_enum(*n),
        Value::Boolean(b) => ipp_boolean(*b),
        Value::Keyword(s) => ipp_keyword(s.clone()),
        Value::Text(s) => ipp_text(s.clone()),
        Value::Name(s) => ipp_name(s.clone()),
        Value::Uri(s) => ipp_uri(s.clone()),
        Value::Charset(s) => ipp_charset(s.clone()),
        Value::NaturalLanguage(s) => ipp_natural_language(s.clone()),
        Value::MimeMediaType(s) => ipp_mime_media_type(s.clone()),
        Value::OctetString(s) => ipp_octet_string(s.clone()),
        Value::RangeOfInteger { min, max } => ipp_range(*min, *max),
        Value::Resolution { cross_feed, feed, units } => ipp_resolution(*cross_feed, *feed, *units),
        Value::DateTime(t) => ipp_date_time(*t),
        Value::MediaSize { x, y } => ipp_collection(size_members(*x, *y)),
        Value::MediaCol { name, x, y } => {
            let mut m: Vec<(String, IppValue)> = Vec::new();
            m.push((owned("media-size"), ipp_collection(size_members(*x, *y))));
            m.push((owned("media-size-name"), ipp_keyword(name.clone())));
            proof {
                assert(member_views(m@) =~= seq![
                    ("media-size"@, ipp_collection_value(size_members_spec(*x, *y))),
                    ("media-size-name"@, ipp_keyword_value(name@)),
                ]);
            }
            ipp_collection(m)
        },
        Value::Unknown => ipp_out_of_band(0x12),
        Value::Opaque => ipp_out_of_band(0x13),
    }
}

fn attr_value_to_ipp(v: &AttrValue) -> (r: IppValue)
    ensures
        r == ipp_attr_value_of(v@),
{
    match v {
        AttrValue::One(x) => value_to_ipp(x),
        AttrValue::Many(xs) => {
            let mut items: Vec<IppValue> = Vec::new();
            let mut k: usize = 0;
            while k < xs.len()
                invariant
                    k <= xs@.len(),
                    items@.len() == k,
                    forall|j: int| 0 <= j < k ==> items@[j] == ipp_value_of(#[trigger] xs@[j]@),
                decreases xs@.len() - k,
            {
                items.push(value_to_ipp(&xs[k]));
                k = k + 1;
            }
            proof {
                assert(items@ =~= values_view(xs@).map_values(|x: ValueV| ipp_value_of(x)));
            }
            ipp_array(items)
        },
    }
}

/// Serialise a message with the `ipp` crate. Whatever the order the crate
/// gives the attributes of a group, the bytes start with the message's
/// header and the operation-attributes delimiter and end with the
/// end-of-attributes tag. For a writable message the crate's parser reads
/// the bytes back, with no document, as one operation group holding the
/// attributes of the message's first operation group followed by the
/// message's other groups in order, each with its tag, its attribute names
/// and each value as [`read_back_of`] says.
pub fn encode_ipp_message(msg: &IppMessage) -> (r: Vec<u8>)
    ensures
        frames_message(r@, msg.version, msg.code, msg.request_id),
        message_writable(msg@) ==> {
            &&& ipp_values_sized(r@)
            &&& ipp_request_document(r@) == Some(Seq::<u8>::empty())
            &&& outline_read(ipp_request_groups(r@), written_outline(message_outline(msg@)))
        },
{
    let mut groups: Vec<(u8, Vec<(String, IppValue)>)> = Vec::new();
    let mut g: usize = 0;
    while g < msg.groups.len()
        invariant
            g <= msg.groups@.len(),
            groups@.len() == g,
            forall|i: int| 0 <= i < groups@.len() ==> is_group_code(#[trigger] groups@[i].0),
            forall|i: int|
                0 <= i < g ==> (#[trigger] raw_outline(groups@)[i]) == image_outline(message_outline(msg@))[i],
            message_writable(msg@) ==> raw_groups_writable(groups@),
        decreases msg.groups@.len() - g,
    {
        let group = &msg.groups[g];
        let ghost gv = msg@.groups[g as int];
        assert(gv == group@);
        let mut attrs: Vec<(String, IppValue)> = Vec::new();
        let mut k: usize = 0;
        while k < group.attributes.len()
            invariant
                k <= group.attributes@.len(),
                gv == group@,
                attrs@.len() == k,
                forall|j: int|
                    0 <= j < k ==> (#[trigger] attrs@[j]).0@ == gv.attributes[j].name
                        && attrs@[j].1 == ipp_attr_value_of(gv.attributes[j].value),
            decreases group.attributes@.len() - k,
        {
            let a = &group.attributes[k];
            attrs.push((a.name.clone(), attr_value_to_ipp(&a.value)));
            k = k + 1;
        }
        proof {
            assert(member_views(attrs@) =~= image_pairs(named_values(gv.attributes)));
        }
        let code = group.tag.code();
        let ghost before = groups@;
        groups.push((code, attrs));
        proof {
            assert(groups@ == before.push((code, attrs)));
            assert forall|i: int| 0 <= i < g + 1 implies (#[trigger] raw_outline(groups@)[i])
                == image_outline(message_outline(msg@))[i] by {
                if i < g {
                    assert(groups@[i] == before[i]);
                    assert(raw_outline(before)[i] == image_outline(message_outline(msg@))[i]);
                }
            }
            if message_writable(msg@) {
                assert forall|gg: int, kk: int|
                    0 <= gg < groups@.len() && 0 <= kk < groups@[gg].1@.len() implies #[trigger] raw_attribute_writable(groups@[gg].1@[kk]) by {
                    if gg < g {
                        assert(groups@[gg] == before[gg]);
                    } else {
                        assert(attribute_writable(msg@.groups[gg].attributes[kk]));
                        let av = gv.attributes[kk].value;
                        assert(ipp_attr_value_of(av) == groups@[gg].1@[kk].1);
                    }
                }
                assert forall|gg: int| 0 <= gg < groups@.len() implies distinct_names(
                    #[trigger] member_views(groups@[gg].1@),
                ) by {
                    if gg < g {
                        assert(groups@[gg] == before[gg]);
                    } else {
                        let mv = member_views(groups@[gg].1@);
                        let nv = named_values(gv.attributes);
                        assert(distinct_names(nv));
                        assert forall|x: int, y: int| 0 <= x < y < mv.len() implies (#[trigger] mv[x]).0
                            != (#[trigger] mv[y]).0 by {
                            assert(mv[x].0 == nv[x].0 && mv[y].0 == nv[y].0);
                        }
                    }
                }
            }
        }
        g = g + 1;
    }
    proof {
        let mo = message_outline(msg@);
        assert(raw_outline(groups@) =~= image_outline(mo));
        lemma_written_image(mo);
    }
    let r = ipp_encode(msg.version, msg.code, msg.request_id, groups);
    proof {
        if message_writable(msg@) {
            let mo = message_outline(msg@);
            let w = written_outline(mo);
            let iw = written_outline(image_outline(mo));
            let named = ipp_request_groups(r@);
            assert forall|i: int, k: int| 0 <= i < mo.len() && 0 <= k < mo[i].1.len() implies attr_value_writable(
                (#[trigger] mo[i].1[k]).1,
            ) by {
                assert(attribute_writable(msg@.groups[i].attributes[k]));
            }
            lemma_written_writable(mo);
            assert(iw == image_outline(w));
            assert forall|i: int| 0 <= i < named.len() implies (#[trigger] named[i]).0 == w[i].0
                && named[i].1.dom() == names_of(w[i].1) by {
                assert(iw[i] == (w[i].0, image_pairs(w[i].1)));
                assert(names_of(image_pairs(w[i].1)) =~= names_of(w[i].1)) by {
                    let ip = image_pairs(w[i].1);
                    assert forall|n: Seq<char>| names_of(w[i].1).contains(n) implies names_of(ip).contains(n) by {
                        let k = choose|k: int| 0 <= k < w[i].1.len() && (#[trigger] w[i].1[k]).0 == n;
                        assert(ip[k].0 == n);
                    }
                    assert forall|n: Seq<char>| names_of(ip).contains(n) implies names_of(w[i].1).contains(n) by {
                        let k = choose|k: int| 0 <= k < ip.len() && (#[trigger] ip[k]).0 == n;
                        assert(w[i].1[k].0 == n);
                    }
                }
            }
            assert forall|i: int, k: int|
                0 <= i < w.len() && 0 <= k < w[i].1.len() && read_back_of((#[trigger] w[i].1[k]).1)
                    is Some implies named[i].1[w[i].1[k].0] == read_back_of(w[i].1[k].1).unwrap() by {
                assert(iw[i] == (w[i].0, image_pairs(w[i].1)));
                let a = w[i].1[k].1;
                assert(iw[i].1[k] == (w[i].1[k].0, ipp_attr_value_of(a)));
                assert(attr_value_writable(a));
            }
        }
    }
    r
}

/// The codes of the groups other than operation groups are codes of the
/// outline's groups.
proof fn lemma_other_groups_codes<T>(gs: Seq<(u8, Seq<(Seq<char>, T)>)>)
    requires
        forall|j: int| 0 <= j < gs.len() ==> is_group_code(#[trigger] gs[j].0),
    ensures
        forall|i: int|
            0 <= i < other_groups(gs).len() ==> is_group_code(#[trigger] other_groups(gs)[i].0),
    decreases gs.len(),
{
    if gs.len() > 0 {
        let rest = gs.drop_first();
        assert forall|j: int| 0 <= j < rest.len() implies is_group_code(#[trigger] rest[j].0) by {
            assert(rest[j] == gs[j + 1]);
        }
        lemma_other_groups_codes(rest);
        let og = other_groups(gs);
        if gs[0].0 != 0x01 {
            assert(og == seq![gs[0]] + other_groups(rest));
            assert forall|i: int| 0 <= i < og.len() implies is_group_code(#[trigger] og[i].0) by {
                if i > 0 {
                    assert(og[i] == other_groups(rest)[i - 1]);
                } else {
                    assert(og[0] == gs[0]);
                }
            }
        } else {
            assert(og == other_groups(rest));
        }
    }
}

/// Equal headers have equal fields.
#[verifier::rlimit(40)]
proof fn lemma_header_fields(bytes: Seq<u8>, v1: u16, c1: u16, i1: u32, v2: u16, c2: u16, i2: u32)
    requires
        has_header(bytes, v1, c1, i1),
        has_header(bytes, v2, c2, i2),
    ensures
        v1 == v2 && c1 == c2 && i1 == i2,
{
    let h1 = header_bytes(v1, c1, i1);
    let h2 = header_bytes(v2, c2, i2);
    assert(h1 == h2);
    assert(h1[0] == h2[0] && h1[1] == h2[1] && h1[2] == h2[2] && h1[3] == h2[3]);
    assert(h1[4] == h2[4] && h1[5] == h2[5] && h1[6] == h2[6] && h1[7] == h2[7]);
    assert(v1 == v2) by {
        assert((v1 / 256) as u8 == v1 / 256 && (v2 / 256) as u8 == v2 / 256);
        assert((v1 % 256) as u8 == v1 % 256 && (v2 % 256) as u8 == v2 % 256);
    }
    assert(c1 == c2) by {
        assert((c1 / 256) as u8 == c1 / 256 && (c2 / 256) as u8 == c2 / 256);
        assert((c1 % 256) as u8 == c1 % 256 && (c2 % 256) as u8 == c2 % 256);
    }
    assert(i1 == i2) by {
        assert((i1 / 0x100_0000) as u8 == i1 / 0x100_0000 && (i2 / 0x100_0000) as u8 == i2 / 0x100_0000);
        assert(((i1 / 0x1_0000) % 256) as u8 == (i1 / 0x1_0000) % 256);
        assert(((i2 / 0x1_0000) % 256) as u8 == (i2 / 0x1_0000) % 256);
        assert(((i1 / 256) % 256) as u8 == (i1 / 256) % 256);
        assert(((i2 / 256) % 256) as u8 == (i2 / 256) % 256);
        assert((i1 % 256) as u8 == i1 % 256 && (i2 % 256) as u8 == i2 % 256);
    }
}

/// What the library reads back, through [`parse_ipp_request`], for an
/// attribute value written from `a`: a single value of a kind a request is
/// read for, or a set of one such value, as [`read_kind`] of it; a larger
/// set of such values as the set of their [`read_kind`]s. Nothing is stated
/// of collections and out-of-band values.
pub open spec fn parsed_value_of(a: AttrValueV) -> Option<AttrValueV> {
    match a {
        AttrValueV::One(x) => if ipp_scalar_spec(x) is Some {
            Some(AttrValueV::One(read_kind(x)))
        } else {
            None
        },
        AttrValueV::Many(xs) => if xs.len() == 1 && ipp_scalar_spec(xs[0]) is Some {
            Some(AttrValueV::One(read_kind(xs[0])))
        } else if xs.len() >= 2 && all_scalar(xs) {
            Some(AttrValueV::Many(xs.map_values(|x: ValueV| read_kind(x))))
        } else {
            None
        },
    }
}

/// A writable message, serialised by [`encode_ipp_message`] and parsed again
/// by [`parse_ipp_request`], reads back: the parse succeeds with no
/// document, the message's version, code and request id, and groups with the
/// tags and attribute names the serialisation wrote (one operation group
/// first, holding the attributes of the message's first operation group,
/// then the message's other groups in order), each attribute's value read
/// as [`parsed_value_of`] says.
pub proof fn lemma_written_message_reads_back(
    m: IppMessageV,
    bytes: Seq<u8>,
    parsed: Result<(IppMessage, Vec<u8>), String>,
)
    requires
        message_writable(m),
        frames_message(bytes, m.version, m.code, m.request_id),
        message_writable(m) ==> {
            &&& ipp_values_sized(bytes)
            &&& ipp_request_document(bytes) == Some(Seq::<u8>::empty())
            &&& outline_read(ipp_request_groups(bytes), written_outline(message_outline(m)))
        },
        (parsed is Ok) == (ipp_values_sized(bytes) && ipp_request_document(bytes) is Some),
        parsed matches Ok((pm, doc)) ==> has_header(bytes, pm.version, pm.code, pm.request_id)
            && ipp_request_document(bytes) == Some(doc@)
            && read_back_groups(pm@.groups, ipp_request_groups(bytes)),
    ensures
        parsed matches Ok((pm, doc)) && doc@.len() == 0 && pm.version == m.version && pm.code
            == m.code && pm.request_id == m.request_id && pm@.groups.len() == written_outline(
            message_outline(m),
        ).len() && (forall|i: int|
            0 <= i < pm@.groups.len() ==> group_tag_code((#[trigger] pm@.groups[i]).tag)
                == written_outline(message_outline(m))[i].0 && names_of(
                named_values(pm@.groups[i].attributes),
            ) == names_of(written_outline(message_outline(m))[i].1)) && (forall|i: int, k: int, j: int|
            #![trigger written_outline(message_outline(m))[i].1[k], pm@.groups[i].attributes[j]]
            0 <= i < pm@.groups.len() && 0 <= k < written_outline(message_outline(m))[i].1.len() && 0
                <= j < pm@.groups[i].attributes.len() && pm@.groups[i].attributes[j].name
                == written_outline(message_outline(m))[i].1[k].0 && parsed_value_of(
                written_outline(message_outline(m))[i].1[k].1,
            ) is Some ==> pm@.groups[i].attributes[j].value == parsed_value_of(
                written_outline(message_outline(m))[i].1[k].1,
            ).unwrap()),
{
    let (pm, doc) = parsed.unwrap();
    lemma_header_fields(bytes, pm.version, pm.code, pm.request_id, m.version, m.code, m.request_id);
    let named = ipp_request_groups(bytes);
    let outline = message_outline(m);
    let wo = written_outline(outline);
    assert forall|j: int| 0 <= j < outline.len() implies is_group_code(#[trigger] outline[j].0) by {}
    lemma_other_groups_codes(outline);
    assert forall|i: int| 0 <= i < wo.len() implies is_group_code(#[trigger] wo[i].0) by {
        if i > 0 {
            assert(wo[i] == other_groups(outline)[i - 1]);
        }
    }
    assert forall|i: int| 0 <= i < pm@.groups.len() implies group_tag_code((#[trigger] pm@.groups[i]).tag)
        == wo[i].0 && names_of(named_values(pm@.groups[i].attributes)) == names_of(wo[i].1) by {
        let grp = pm@.groups[i];
        let nv = named_values(grp.attributes);
        assert(read_back_group(grp, named[i]));
        assert(is_group_code(wo[i].0));
        assert(names_of(nv) =~= names_of(wo[i].1)) by {
            assert(named[i].1.dom() == names_of(wo[i].1));
            assert forall|n: Seq<char>| names_of(nv).contains(n) implies names_of(wo[i].1).contains(n) by {
                let k = choose|k: int| 0 <= k < nv.len() && (#[trigger] nv[k]).0 == n;
                assert(grp.attributes[k].name == n);
                assert(named[i].1.contains_key(grp.attributes[k].name));
            }
            assert forall|n: Seq<char>| names_of(wo[i].1).contains(n) implies names_of(nv).contains(n) by {
                assert(named[i].1.contains_key(n));
                let k = choose|k: int| 0 <= k < grp.attributes.len() && (#[trigger] grp.attributes[k]).name == n;
                assert(nv[k].0 == n);
            }
        }
    }
    assert forall|i: int, k: int, j: int|
        #![trigger wo[i].1[k], pm@.groups[i].attributes[j]]
        0 <= i < pm@.groups.len() && 0 <= k < wo[i].1.len() && 0 <= j < pm@.groups[i].attributes.len()
            && pm@.groups[i].attributes[j].name == wo[i].1[k].0 && parsed_value_of(wo[i].1[k].1)
            is Some implies pm@.groups[i].attributes[j].value == parsed_value_of(wo[i].1[k].1).unwrap() by {
        let grp = pm@.groups[i];
        let a = wo[i].1[k].1;
        let n = wo[i].1[k].0;
        assert(read_back_group(grp, named[i]));
        assert(reads_as(named[i].1[grp.attributes[j].name], grp.attributes[j].value));
        match a {
            AttrValueV::One(x) => {
                assert(read_back_of(a) == Some(ipp_value_of(x)));
                assert(ipp_scalar_spec(x) == Some(ipp_value_of(x)));
            },
            AttrValueV::Many(xs) => {
                if xs.len() == 1 {
                    assert(read_back_of(a) == Some(ipp_value_of(xs[0])));
                    assert(ipp_scalar_spec(xs[0]) == Some(ipp_value_of(xs[0])));
                } else {
                    assert(ipp_scalar_spec(xs[0]) is Some);
                    assert(xs.map_values(|x: ValueV| ipp_value_of(x)) =~= scalar_images(xs)) by {
                        assert forall|q: int| 0 <= q < xs.len() implies xs.map_values(|x: ValueV| ipp_value_of(x))[q]
                            == scalar_images(xs)[q] by {
                            assert(ipp_scalar_spec(xs[q]) is Some);
                        }
                    }
                    assert(read_back_of(a) == Some(ipp_array_value(scalar_images(xs))));
                }
            },
        }
    }
}

/// A bare response, with only the operation group's charset and natural
/// language, is writable: every status-only answer reads back in full.
pub proof fn lemma_empty_response_writable(version: u16, status: u16, request_id: u32)
    ensures
        message_writable(empty_response(version, status, request_id)),
{
    reveal_strlit("attributes-charset");
    reveal_strlit("attributes-natural-language");
    reveal_strlit("utf-8");
    reveal_strlit("en");
    let m = empty_response(version, status, request_id);
    let attrs = m.groups[0].attributes;
    assert(attrs[0].name != attrs[1].name) by {
        assert(attrs[0].name[0] == attrs[1].name[0]);
        assert(attrs[0].name.len() != attrs[1].name.len());
    }
    assert(distinct_names(named_values(attrs)));
}

/// A media size {x, y} is written as a collection of exactly two members:
/// `x-dimension`, the integer x, and `y-dimension`, the integer y. A media
/// collection {name, x, y} is written with that size as its `media-size`
/// member and the keyword `name` as its `media-size-name` member.
pub proof fn lemma_media_size_members(name: Seq<char>, x: i32, y: i32)
    ensures
        exists|s: Seq<(Seq<char>, IppValue)>|
            {
                &&& ipp_value_of(ValueV::MediaSize { x, y }) == ipp_collection_value(s)
                &&& s.len() == 2
                &&& names_of(s) == set!["x-dimension"@, "y-dimension"@]
                &&& forall|k: int|
                    0 <= k < s.len() && (#[trigger] s[k]).0 == "x-dimension"@ ==> s[k].1 == ipp_integer_value(x)
                &&& forall|k: int|
                    0 <= k < s.len() && (#[trigger] s[k]).0 == "y-dimension"@ ==> s[k].1 == ipp_integer_value(y)
                &&& ipp_value_of(ValueV::MediaCol { name, x, y }) == ipp_collection_value(
                    seq![
                        ("media-size"@, ipp_collection_value(s)),
                        ("media-size-name"@, ipp_keyword_value(name)),
                    ],
                )
            },
{
    reveal_strlit("x-dimension");
    reveal_strlit("y-dimension");
    let s = size_members_spec(x, y);
    assert("x-dimension"@ != "y-dimension"@) by {
        assert("x-dimension"@[0] != "y-dimension"@[0]);
    }
    assert(names_of(s) =~= set!["x-dimension"@, "y-dimension"@]) by {
        assert(s[0].0 == "x-dimension"@ && s[1].0 == "y-dimension"@);
        assert forall|n: Seq<char>| set!["x-dimension"@, "y-dimension"@].contains(n) implies names_of(s).contains(n) by {
            if n == "x-dimension"@ {
                assert(s[0].0 == n);
            } else {
                assert(s[1].0 == n);
            }
        }
    }
}

} // verus!
