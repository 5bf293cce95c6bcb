//! The library's model of an IPP message: attribute values, attributes,
//! delimited attribute groups and the message header (RFC 8010/8011).

use vstd::prelude::*;

use crate::datetime::CivilDateTime;
use crate::text::owned;

verus! {

/// One IPP attribute value.
#[derive(Debug, Clone)]
pub enum Value {
    Integer(i32),
    Enum(i32),
    Boolean(bool),
    Keyword(String),
    /// `textWithoutLanguage`
    Text(String),
    /// `nameWithoutLanguage`
    Name(String),
    Uri(String),
    Charset(String),
    NaturalLanguage(String),
    MimeMediaType(String),
    OctetString(String),
    RangeOfInteger { min: i32, max: i32 },
    /// `units` 3 is dots per inch.
    Resolution { cross_feed: i32, feed: i32, units: i8 },
    DateTime(CivilDateTime),
    /// `media-size` collection: `x-dimension`, `y-dimension` (hundredths of
    /// a millimetre).
    MediaSize { x: i32, y: i32 },
    /// `media-col` collection: `media-size` {x, y} and `media-size-name`.
    MediaCol { name: String, x: i32, y: i32 },
    /// Out-of-band `unknown`.
    Unknown,
    /// A value of a kind the library does not read (text with language,
    /// other collections, ...), kept only as "present".
    Opaque,
}

/// Mathematical view of a [`Value`].
pub enum ValueV {
    Integer(i32),
    Enum(i32),
    Boolean(bool),
    Keyword(Seq<char>),
    Text(Seq<char>),
    Name(Seq<char>),
    Uri(Seq<char>),
    Charset(Seq<char>),
    NaturalLanguage(Seq<char>),
    MimeMediaType(Seq<char>),
    OctetString(Seq<char>),
    RangeOfInteger { min: i32, max: i32 },
    Resolution { cross_feed: i32, feed: i32, units: i8 },
    DateTime(CivilDateTime),
    MediaSize { x: i32, y: i32 },
    MediaCol { name: Seq<char>, x: i32, y: i32 },
    Unknown,
    Opaque,
}

impl View for Value {
    type V = ValueV;

    open spec fn view(&self) -> ValueV {
        match self {
            Value::Integer(i) => ValueV::Integer(*i),
            Value::Enum(i) => ValueV::Enum(*i),
            Value::Boolean(b) => ValueV::Boolean(*b),
            Value::Keyword(s) => ValueV::Keyword(s@),
            Value::Text(s) => ValueV::Text(s@),
            Value::Name(s) => ValueV::Name(s@),
            Value::Uri(s) => ValueV::Uri(s@),
            Value::Charset(s) => ValueV::Charset(s@),
            Value::NaturalLanguage(s) => ValueV::NaturalLanguage(s@),
            Value::MimeMediaType(s) => ValueV::MimeMediaType(s@),
            Value::OctetString(s) => ValueV::OctetString(s@),
            Value::RangeOfInteger { min, max } => ValueV::RangeOfInteger { min: *min, max: *max },
            Value::Resolution { cross_feed, feed, units } => ValueV::Resolution {
                cross_feed: *cross_feed,
                feed: *feed,
                units: *units,
            },
            Value::DateTime(t) => ValueV::DateTime(*t),
            Value::MediaSize { x, y } => ValueV::MediaSize { x: *x, y: *y },
            Value::MediaCol { name, x, y } => ValueV::MediaCol { name: name@, x: *x, y: *y },
            Value::Unknown => ValueV::Unknown,
            Value::Opaque => ValueV::Opaque,
        }
    }
}

/// The value of an attribute: a single value or a `1setOf`.
#[derive(Debug, Clone)]
pub enum AttrValue {
    One(Value),
    Many(Vec<Value>),
}

/// Mathematical view of an [`AttrValue`].
pub enum AttrValueV {
    One(ValueV),
    Many(Seq<ValueV>),
}

/// The views of a sequence of values.
pub open spec fn values_view(s: Seq<Value>) -> Seq<ValueV> {
    s.map_values(|v: Value| v@)
}

impl View for AttrValue {
    type V = AttrValueV;

    open spec fn view(&self) -> AttrValueV {
        match self {
            AttrValue::One(v) => AttrValueV::One(v@),
            AttrValue::Many(vs) => AttrValueV::Many(values_view(vs@)),
        }
    }
}

/// A named attribute.
#[derive(Debug, Clone)]
pub struct Attribute {
    pub name: String,
    pub value: AttrValue,
}

/// Mathematical view of an [`Attribute`].
pub struct AttributeV {
    pub name: Seq<char>,
    pub value: AttrValueV,
}

impl View for Attribute {
    type V = AttributeV;

    open spec fn view(&self) -> AttributeV {
        AttributeV { name: self.name@, value: self.value@ }
    }
}

/// The views of a sequence of attributes.
pub open spec fn attrs_view(s: Seq<Attribute>) -> Seq<AttributeV> {
    s.map_values(|a: Attribute| a@)
}

/// Delimiter tag of an attribute group (RFC 8010 §3.5.1).
#[derive(Debug, Clone, Copy, PartialEq, Eq, Structural)]
pub enum GroupTag {
    Operation,
    Job,
    Printer,
    Unsupported,
}

impl GroupTag {
    /// The wire value of the tag.
    pub fn code(&self) -> (r: u8)
        ensures
            r == group_tag_code(*self),
    {
        match self {
            GroupTag::Operation => 0x01,
            GroupTag::Job => 0x02,
            GroupTag::Printer => 0x04,
            GroupTag::Unsupported => 0x05,
        }
    }
}

/// Wire value of a delimiter tag.
pub open spec fn group_tag_code(t: GroupTag) -> u8 {
    match t {
        GroupTag::Operation => 0x01,
        GroupTag::Job => 0x02,
        GroupTag::Printer => 0x04,
        GroupTag::Unsupported => 0x05,
    }
}

/// A delimited attribute group.
#[derive(Debug, Clone)]
pub struct AttributeGroup {
    pub tag: GroupTag,
    pub attributes: Vec<Attribute>,
}

/// Mathematical view of an [`AttributeGroup`].
pub struct AttributeGroupV {
    pub tag: GroupTag,
    pub attributes: Seq<AttributeV>,
}

impl View for AttributeGroup {
    type V = AttributeGroupV;

    open spec fn view(&self) -> AttributeGroupV {
        AttributeGroupV { tag: self.tag, attributes: attrs_view(self.attributes@) }
    }
}

/// The views of a sequence of groups.
pub open spec fn groups_view(s: Seq<AttributeGroup>) -> Seq<AttributeGroupV> {
    s.map_values(|g: AttributeGroup| g@)
}

/// An IPP request or response: version (major in the high byte), operation
/// or status code, request id and attribute groups.
#[derive(Debug, Clone)]
pub struct IppMessage {
    pub version: u16,
    pub code: u16,
    pub request_id: u32,
    pub groups: Vec<AttributeGroup>,
}

/// Mathematical view of an [`IppMessage`].
pub struct IppMessageV {
    pub version: u16,
    pub code: u16,
    pub request_id: u32,
    pub groups: Seq<AttributeGroupV>,
}

impl View for IppMessage {
    type V = IppMessageV;

    open spec fn view(&self) -> IppMessageV {
        IppMessageV {
            version: self.version,
            code: self.code,
            request_id: self.request_id,
            groups: groups_view(self.groups@),
        }
    }
}

/// IPP status codes the server answers with (RFC 8011 §B).
pub const STATUS_OK: u16 = 0x0000;
pub const STATUS_BAD_REQUEST: u16 = 0x0400;
pub const STATUS_NOT_FOUND: u16 = 0x0406;
pub const STATUS_NOT_POSSIBLE: u16 = 0x0404;
pub const STATUS_VERSION_NOT_SUPPORTED: u16 = 0x0503;

/// The operation group every response starts with: `attributes-charset`
/// `utf-8` and `attributes-natural-language` `en`.
pub open spec fn response_operation_group() -> AttributeGroupV {
    AttributeGroupV {
        tag: GroupTag::Operation,
        attributes: seq![
            AttributeV {
                name: "attributes-charset"@,
                value: AttrValueV::One(ValueV::Charset("utf-8"@)),
            },
            AttributeV {
                name: "attributes-natural-language"@,
                value: AttrValueV::One(ValueV::NaturalLanguage("en"@)),
            },
        ],
    }
}

/// A fresh response with the given status: only the operation group.
pub open spec fn empty_response(version: u16, status: u16, request_id: u32) -> IppMessageV {
    IppMessageV { version, code: status, request_id, groups: seq![response_operation_group()] }
}

/// An attribute with a single value.
pub fn attr(name: &str, value: Value) -> (r: Attribute)
    ensures
        r@ == (AttributeV { name: name@, value: AttrValueV::One(value@) }),
{
    Attribute { name: owned(name), value: AttrValue::One(value) }
}

/// An attribute with a `1setOf` value.
pub fn attr_set(name: &str, values: Vec<Value>) -> (r: Attribute)
    ensures
        r@ == (AttributeV { name: name@, value: AttrValueV::Many(values_view(values@)) }),
{
    Attribute { name: owned(name), value: AttrValue::Many(values) }
}

/// A `keyword` value.
pub fn kw(s: &str) -> (r: Value)
    ensures
        r@ == ValueV::Keyword(s@),
{
    Value::Keyword(owned(s))
}

/// A response carrying only the operation group (`attributes-charset`,
/// `attributes-natural-language`), as every IPP response starts.
pub fn new_response(version: u16, status: u16, request_id: u32) -> (r: IppMessage)
    ensures
        r@ == empty_response(version, status, request_id),
{
    let mut op = Vec::new();
    op.push(attr("attributes-charset", Value::Charset(owned("utf-8"))));
    op.push(attr("attributes-natural-language", Value::NaturalLanguage(owned("en"))));
    let mut groups = Vec::new();
    groups.push(AttributeGroup { tag: GroupTag::Operation, attributes: op });
    let r = IppMessage { version, code: status, request_id, groups };
    proof {
        assert(attrs_view(op@) =~= response_operation_group().attributes);
        assert(groups_view(r.groups@) =~= seq![response_operation_group()]);
    }
    r
}

} // verus!
