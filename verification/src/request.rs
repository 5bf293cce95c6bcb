//! Readers of the operation attributes of an IPP request.

use vstd::prelude::*;

use crate::job::JobId;
use crate::message::{
    AttrValue, AttrValueV, Attribute, AttributeGroupV, AttributeV, GroupTag, IppMessage, Value,
    ValueV,
};
use crate::text::{owned, str_eq};

verus! {

/// The attribute a reader looks for.
#[derive(Debug, Clone, Copy, PartialEq, Eq, Structural)]
pub enum Wanted {
    /// `job-id` (integer) or `job-uri` (uri), whichever comes first.
    JobIdOrUri,
    /// `copies` (integer).
    Copies,
    /// `document-format` (mimeMediaType).
    DocumentFormat,
    /// `requested-attributes` (any value).
    RequestedAttributes,
    /// `requesting-user-name` (name).
    RequestingUserName,
    /// `my-jobs` (boolean).
    MyJobs,
    /// `identify-actions` (any value).
    IdentifyActions,
}

/// Whether attribute `a` is what `w` looks for.
pub open spec fn wanted_matches(a: AttributeV, w: Wanted) -> bool {
    match w {
        Wanted::JobIdOrUri => (a.name == "job-id"@ && a.value matches AttrValueV::One(
            ValueV::Integer(_),
        )) || (a.name == "job-uri"@ && a.value matches AttrValueV::One(ValueV::Uri(_))),
        Wanted::Copies => a.name == "copies"@ && a.value matches AttrValueV::One(
            ValueV::Integer(_),
        ),
        Wanted::DocumentFormat => a.name == "document-format"@ && a.value matches AttrValueV::One(
            ValueV::MimeMediaType(_),
        ),
        Wanted::RequestedAttributes => a.name == "requested-attributes"@,
        Wanted::RequestingUserName => a.name == "requesting-user-name"@ && a.value matches AttrValueV::One(
            ValueV::Name(_),
        ),
        Wanted::MyJobs => a.name == "my-jobs"@ && a.value matches AttrValueV::One(
            ValueV::Boolean(_),
        ),
        Wanted::IdentifyActions => a.name == "identify-actions"@,
    }
}

fn matches_wanted(a: &Attribute, w: Wanted) -> (r: bool)
    ensures
        r == wanted_matches(a@, w),
{
    let n = a.name.as_str();
    match w {
        Wanted::JobIdOrUri => (str_eq(n, "job-id") && matches!(a.value, AttrValue::One(Value::Integer(_))))
            || (str_eq(n, "job-uri") && matches!(a.value, AttrValue::One(Value::Uri(_)))),
        Wanted::Copies => str_eq(n, "copies") && matches!(a.value, AttrValue::One(Value::Integer(_))),
        Wanted::DocumentFormat => str_eq(n, "document-format") && matches!(
            a.value,
            AttrValue::One(Value::MimeMediaType(_))
        ),
        Wanted::RequestedAttributes => str_eq(n, "requested-attributes"),
        Wanted::RequestingUserName => str_eq(n, "requesting-user-name") && matches!(
            a.value,
            AttrValue::One(Value::Name(_))
        ),
        Wanted::MyJobs => str_eq(n, "my-jobs") && matches!(a.value, AttrValue::One(Value::Boolean(_))),
        Wanted::IdentifyActions => str_eq(n, "identify-actions"),
    }
}

/// Index of the first attribute at or after `k` that `w` looks for.
pub open spec fn first_in_attrs(attrs: Seq<AttributeV>, w: Wanted, k: int) -> Option<int>
    decreases attrs.len() - k,
{
    if k < 0 || k >= attrs.len() {
        None
    } else if wanted_matches(attrs[k], w) {
        Some(k)
    } else {
        first_in_attrs(attrs, w, k + 1)
    }
}

/// Position (group, attribute) of the first attribute, in group order, from
/// group `g` on, that `w` looks for.
pub open spec fn first_in_groups(groups: Seq<AttributeGroupV>, w: Wanted, g: int) -> Option<
    (int, int),
>
    decreases groups.len() - g,
{
    if g < 0 || g >= groups.len() {
        None
    } else {
        match first_in_attrs(groups[g].attributes, w, 0) {
            Some(a) => Some((g, a)),
            None => first_in_groups(groups, w, g + 1),
        }
    }
}

/// The first attribute of the request that `w` looks for.
pub open spec fn find_wanted(groups: Seq<AttributeGroupV>, w: Wanted) -> Option<AttributeV> {
    match first_in_groups(groups, w, 0) {
        Some((g, a)) => Some(groups[g].attributes[a]),
        None => None,
    }
}

proof fn lemma_first_in_attrs(attrs: Seq<AttributeV>, w: Wanted, k: int)
    ensures
        first_in_attrs(attrs, w, k) matches Some(i) ==> k <= i < attrs.len() && 0 <= i
            && wanted_matches(attrs[i], w),
    decreases attrs.len() - k,
{
    if 0 <= k < attrs.len() && !wanted_matches(attrs[k], w) {
        lemma_first_in_attrs(attrs, w, k + 1);
    }
}

proof fn lemma_first_in_groups(groups: Seq<AttributeGroupV>, w: Wanted, g: int)
    ensures
        first_in_groups(groups, w, g) matches Some((gi, ai)) ==> g <= gi < groups.len() && 0 <= gi
            && 0 <= ai < groups[gi].attributes.len() && wanted_matches(
            groups[gi].attributes[ai],
            w,
        ),
    decreases groups.len() - g,
{
    if 0 <= g < groups.len() {
        lemma_first_in_attrs(groups[g].attributes, w, 0);
        if first_in_attrs(groups[g].attributes, w, 0) is None {
            lemma_first_in_groups(groups, w, g + 1);
        }
    }
}

/// Position of the first attribute of `req` that `w` looks for.
fn find_first(req: &IppMessage, w: Wanted) -> (r: Option<(usize, usize)>)
    ensures
        match r {
            Some((g, a)) => first_in_groups(req@.groups, w, 0) == Some((g as int, a as int))
                && g < req.groups@.len() && a < req.groups@[g as int].attributes@.len(),
            None => first_in_groups(req@.groups, w, 0) is None,
        },
{
    let mut g: usize = 0;
    while g < req.groups.len()
        invariant
            g <= req.groups@.len(),
            first_in_groups(req@.groups, w, 0) == first_in_groups(req@.groups, w, g as int),
        decreases req.groups@.len() - g,
    {
        let group = &req.groups[g];
        let ghost gv = req@.groups[g as int];
        assert(gv.attributes == crate::message::attrs_view(group.attributes@));
        let mut a: usize = 0;
        while a < group.attributes.len()
            invariant
                a <= group.attributes@.len(),
                g < req.groups@.len(),
                gv == req@.groups[g as int],
                first_in_groups(req@.groups, w, 0) == first_in_groups(req@.groups, w, g as int),
                gv.attributes == crate::message::attrs_view(group.attributes@),
                first_in_attrs(gv.attributes, w, 0) == first_in_attrs(gv.attributes, w, a as int),
            decreases group.attributes@.len() - a,
        {
            if matches_wanted(&group.attributes[a], w) {
                proof {
                    assert(gv.attributes[a as int] == group.attributes@[a as int]@);
                    assert(first_in_attrs(gv.attributes, w, a as int) == Some(a as int));
                }
                return Some((g, a));
            }
            proof {
                assert(gv.attributes[a as int] == group.attributes@[a as int]@);
            }
            a = a + 1;
        }
        g = g + 1;
    }
    None
}

/// True if an attribute named `name` is present in an operation-attributes
/// group of the request.
pub open spec fn has_operation_attr_spec(groups: Seq<AttributeGroupV>, name: Seq<char>) -> bool {
    exists|g: int, a: int|
        0 <= g < groups.len() && groups[g].tag == GroupTag::Operation && 0 <= a
            < groups[g].attributes.len() && #[trigger] groups[g].attributes[a].name == name
}

/// True if an attribute named `name` is present in an operation-attributes
/// group of `req`.
pub fn has_operation_attr(req: &IppMessage, name: &str) -> (r: bool)
    ensures
        r == has_operation_attr_spec(req@.groups, name@),
{
    let mut g: usize = 0;
    while g < req.groups.len()
        invariant
            g <= req.groups@.len(),
            forall|gg: int, a: int|
                0 <= gg < g && req@.groups[gg].tag == GroupTag::Operation && 0 <= a
                    < req@.groups[gg].attributes.len() ==> #[trigger] req@.groups[gg].attributes[a].name
                    != name@,
        decreases req.groups@.len() - g,
    {
        let group = &req.groups[g];
        if group.tag == GroupTag::Operation {
            let mut a: usize = 0;
            while a < group.attributes.len()
                invariant
                    a <= group.attributes@.len(),
                    g < req.groups@.len(),
                    group == req.groups@[g as int],
                    group.tag == GroupTag::Operation,
                    forall|k: int| 0 <= k < a ==> #[trigger] group.attributes@[k].name@ != name@,
                decreases group.attributes@.len() - a,
            {
                if str_eq(group.attributes[a].name.as_str(), name) {
                    proof {
                        assert(req@.groups[g as int].attributes[a as int].name == name@);
                        assert(req@.groups[g as int].tag == GroupTag::Operation);
                    }
                    return true;
                }
                a = a + 1;
            }
            proof {
                assert forall|gg: int, k: int|
                    0 <= gg <= g && req@.groups[gg].tag == GroupTag::Operation && 0 <= k
                        < req@.groups[gg].attributes.len() implies #[trigger] req@.groups[gg].attributes[k].name
                    != name@ by {
                    if gg == g {
                        assert(req@.groups[gg].attributes[k].name == group.attributes@[k].name@);
                    }
                }
            }
        }
        g = g + 1;
    }
    false
}

/// Whether `c` is an ASCII decimal digit.
pub open spec fn is_digit(c: char) -> bool {
    '0' <= c && c <= '9'
}

/// Value of a string of decimal digits.
pub open spec fn digits_value(s: Seq<char>) -> int
    decreases s.len(),
{
    if s.len() == 0 {
        0
    } else {
        digits_value(s.drop_last()) * 10 + (s.last() as int - '0' as int)
    }
}

/// The digits part of an unsigned number: without a leading `+`.
pub open spec fn unsigned_digits(s: Seq<char>) -> Seq<char> {
    if s.len() > 0 && s[0] == '+' {
        s.drop_first()
    } else {
        s
    }
}

/// `u32::from_str`: an optional `+`, then one or more decimal digits whose
/// value fits in 32 bits.
pub open spec fn parse_u32_spec(s: Seq<char>) -> Option<u32> {
    let d = unsigned_digits(s);
    if d.len() == 0 || !(forall|i: int| 0 <= i < d.len() ==> is_digit(#[trigger] d[i])) {
        None
    } else if digits_value(d) <= u32::MAX {
        Some(digits_value(d) as u32)
    } else {
        None
    }
}

/// Parse a job id the way `u32::from_str` does.
pub fn parse_u32(s: &str) -> (r: Option<u32>)
    ensures
        r == parse_u32_spec(s@),
{
    let n = s.unicode_len();
    let start: usize = if n > 0 && s.get_char(0) == '+' {
        1
    } else {
        0
    };
    let ghost d = unsigned_digits(s@);
    proof {
        assert(d =~= s@.subrange(start as int, n as int));
    }
    if start == n {
        return None;
    }
    let mut acc: u64 = 0;
    let mut overflow = false;
    let mut all_digits = true;
    let mut k: usize = start;
    while k < n
        invariant
            start <= k <= n,
            n == s@.len(),
            d == s@.subrange(start as int, n as int),
            all_digits == (forall|i: int| start <= i < k ==> is_digit(#[trigger] s@[i])),
            all_digits && !overflow ==> acc == digits_value(s@.subrange(start as int, k as int)),
            all_digits && overflow ==> digits_value(s@.subrange(start as int, k as int)) > u32::MAX,
            acc <= u32::MAX,
        decreases n - k,
    {
        let c = s.get_char(k);
        proof {
            assert(s@.subrange(start as int, k + 1).drop_last() =~= s@.subrange(start as int, k as int));
        }
        if '0' <= c && c <= '9' {
            if all_digits && !overflow {
                let dv = (c as u64) - ('0' as u64);
                if acc * 10 + dv > 4_294_967_295 {
                    overflow = true;
                } else {
                    acc = acc * 10 + dv;
                }
            }
        } else {
            all_digits = false;
        }
        k = k + 1;
    }
    proof {
        assert(s@.subrange(start as int, n as int) == d);
        assert(d.len() > 0);
        if all_digits && !overflow {
            assert(acc == digits_value(d));
        }
        if all_digits {
            assert forall|i: int| 0 <= i < d.len() implies is_digit(#[trigger] d[i]) by {
                assert(is_digit(s@[i + start]));
            }
        }
    }
    if !all_digits {
        proof {
            let j = choose|i: int| start <= i < n && !is_digit(#[trigger] s@[i]);
            assert(!is_digit(d[j - start]));
        }
        None
    } else if overflow {
        None
    } else {
        Some(acc as u32)
    }
}

/// The text after the last `/` (all of it when there is none), as
/// `rsplit('/').next()` yields it.
pub open spec fn last_segment(s: Seq<char>) -> Seq<char>
    decreases s.len(),
{
    if s.len() == 0 {
        s
    } else if s.last() == '/' {
        seq![]
    } else {
        last_segment(s.drop_last()).push(s.last())
    }
}

fn last_segment_of(s: &str) -> (r: &str)
    ensures
        r@ == last_segment(s@),
{
    let n = s.unicode_len();
    let mut k: usize = n;
    proof {
        assert(s@.subrange(0, n as int) =~= s@);
        assert(s@.subrange(n as int, n as int) =~= Seq::<char>::empty());
        assert(last_segment(s@) =~= last_segment(s@.subrange(0, n as int)) + s@.subrange(n as int, n as int));
    }
    // Walk back to just after the last '/'.
    while k > 0
        invariant
            k <= n,
            n == s@.len(),
            last_segment(s@) == last_segment(s@.subrange(0, k as int)) + s@.subrange(k as int, n as int),
        decreases k,
    {
        if s.get_char(k - 1) == '/' {
            proof {
                assert(last_segment(s@.subrange(0, k as int)) == Seq::<char>::empty()) by {
                    assert(s@.subrange(0, k as int).last() == '/');
                }
            }
            let r = s.substring_char(k, n);
            proof {
                assert(last_segment(s@) =~= s@.subrange(k as int, n as int));
            }
            return r;
        }
        proof {
            let p = s@.subrange(0, k as int);
            assert(p.drop_last() =~= s@.subrange(0, k - 1));
            assert(last_segment(p) == last_segment(s@.subrange(0, k - 1)).push(p.last()));
            assert(s@.subrange(k - 1, n as int) =~= seq![p.last()] + s@.subrange(k as int, n as int));
            assert(last_segment(s@) =~= last_segment(s@.subrange(0, k - 1)) + s@.subrange(k - 1, n as int));
        }
        k = k - 1;
    }
    proof {
        assert(s@.subrange(0, 0) =~= Seq::<char>::empty());
        assert(s@.subrange(0, n as int) =~= s@);
        assert(last_segment(s@) =~= s@);
    }
    s
}

/// The job a request targets: its first `job-id` integer (taken as a job
/// id), or the job id that ends its first `job-uri`, whichever attribute
/// comes first.
pub open spec fn job_id_spec(groups: Seq<AttributeGroupV>) -> Option<JobId> {
    match find_wanted(groups, Wanted::JobIdOrUri) {
        Some(a) => match a.value {
            AttrValueV::One(ValueV::Integer(n)) => Some(n as JobId),
            AttrValueV::One(ValueV::Uri(u)) => parse_u32_spec(last_segment(u)),
            _ => None,
        },
        None => None,
    }
}

/// The job a request targets (`job-id`, or the id ending `job-uri`).
pub fn extract_job_id(req: &IppMessage) -> (r: Option<JobId>)
    ensures
        r == job_id_spec(req@.groups),
{
    match find_first(req, Wanted::JobIdOrUri) {
        Some((g, a)) => {
            let at = &req.groups[g].attributes[a];
            proof {
                assert(req@.groups[g as int].attributes[a as int] == at@);
            }
            match &at.value {
                AttrValue::One(Value::Integer(n)) => Some(*n as JobId),
                AttrValue::One(Value::Uri(u)) => parse_u32(last_segment_of(u.as_str())),
                _ => None,
            }
        },
        None => None,
    }
}

/// `copies`: the first `copies` integer, at least 1; 0 when absent.
pub open spec fn copies_spec(groups: Seq<AttributeGroupV>) -> u32 {
    match find_wanted(groups, Wanted::Copies) {
        Some(a) => match a.value {
            AttrValueV::One(ValueV::Integer(n)) => (if n < 1 {
                1
            } else {
                n
            }) as u32,
            _ => 0,
        },
        None => 0,
    }
}

/// The requested number of copies (at least 1), or 0 when not given.
pub fn extract_copies(req: &IppMessage) -> (r: u32)
    ensures
        r == copies_spec(req@.groups),
{
    match find_first(req, Wanted::Copies) {
        Some((g, a)) => {
            let at = &req.groups[g].attributes[a];
            proof {
                assert(req@.groups[g as int].attributes[a as int] == at@);
            }
            match &at.value {
                AttrValue::One(Value::Integer(n)) => if *n < 1 {
                    1
                } else {
                    *n as u32
                },
                _ => 0,
            }
        },
        None => 0,
    }
}

/// `document-format`, defaulting to `application/octet-stream`.
pub open spec fn document_format_spec(groups: Seq<AttributeGroupV>) -> Seq<char> {
    match find_wanted(groups, Wanted::DocumentFormat) {
        Some(a) => match a.value {
            AttrValueV::One(ValueV::MimeMediaType(m)) => m,
            _ => "application/octet-stream"@,
        },
        None => "application/octet-stream"@,
    }
}

/// Read the `document-format` operation attribute. Defaults to
/// `application/octet-stream` (the IPP default) when the client omits it.
pub fn extract_document_format(req: &IppMessage) -> (r: String)
    ensures
        r@ == document_format_spec(req@.groups),
{
    match find_first(req, Wanted::DocumentFormat) {
        Some((g, a)) => {
            let at = &req.groups[g].attributes[a];
            proof {
                assert(req@.groups[g as int].attributes[a as int] == at@);
            }
            match &at.value {
                AttrValue::One(Value::MimeMediaType(m)) => m.clone(),
                _ => owned("application/octet-stream"),
            }
        },
        None => owned("application/octet-stream"),
    }
}

/// `requesting-user-name`, defaulting to `anonymous`.
pub open spec fn requesting_user_spec(groups: Seq<AttributeGroupV>) -> Seq<char> {
    match find_wanted(groups, Wanted::RequestingUserName) {
        Some(a) => match a.value {
            AttrValueV::One(ValueV::Name(m)) => m,
            _ => "anonymous"@,
        },
        None => "anonymous"@,
    }
}

/// Read `requesting-user-name`, defaulting to `anonymous`.
pub fn requesting_user(req: &IppMessage) -> (r: String)
    ensures
        r@ == requesting_user_spec(req@.groups),
{
    match find_first(req, Wanted::RequestingUserName) {
        Some((g, a)) => {
            let at = &req.groups[g].attributes[a];
            proof {
                assert(req@.groups[g as int].attributes[a as int] == at@);
            }
            match &at.value {
                AttrValue::One(Value::Name(m)) => m.clone(),
                _ => owned("anonymous"),
            }
        },
        None => owned("anonymous"),
    }
}

/// `my-jobs`, defaulting to false.
pub open spec fn my_jobs_spec(groups: Seq<AttributeGroupV>) -> bool {
    match find_wanted(groups, Wanted::MyJobs) {
        Some(a) => match a.value {
            AttrValueV::One(ValueV::Boolean(b)) => b,
            _ => false,
        },
        None => false,
    }
}

/// Read the `my-jobs` boolean operation attribute (default `false`).
pub fn my_jobs_flag(req: &IppMessage) -> (r: bool)
    ensures
        r == my_jobs_spec(req@.groups),
{
    match find_first(req, Wanted::MyJobs) {
        Some((g, a)) => {
            let at = &req.groups[g].attributes[a];
            proof {
                assert(req@.groups[g as int].attributes[a as int] == at@);
            }
            match &at.value {
                AttrValue::One(Value::Boolean(b)) => *b,
                _ => false,
            }
        },
        None => false,
    }
}

/// The keyword values of an attribute value: the value itself if it is a
/// keyword, or the keywords among a `1setOf`.
pub open spec fn keywords_of(v: AttrValueV) -> Seq<Seq<char>> {
    match v {
        AttrValueV::One(ValueV::Keyword(k)) => seq![k],
        AttrValueV::One(_) => seq![],
        AttrValueV::Many(vs) => vs.filter(|x: ValueV| x is Keyword).map_values(
            |x: ValueV| x->Keyword_0,
        ),
    }
}

fn keywords_in(v: &AttrValue) -> (r: Vec<String>)
    ensures
        crate::attributes::strings_view(r@) == keywords_of(v@),
{
    let mut out: Vec<String> = Vec::new();
    match v {
        AttrValue::One(Value::Keyword(k)) => {
            out.push(k.clone());
            proof {
                assert(crate::attributes::strings_view(out@) =~= seq![k@]);
            }
        },
        AttrValue::One(_) => {
            proof {
                assert(crate::attributes::strings_view(out@) =~= Seq::<Seq<char>>::empty());
            }
        },
        AttrValue::Many(vs) => {
            let ghost vv = crate::message::values_view(vs@);
            let mut i: usize = 0;
            while i < vs.len()
                invariant
                    i <= vs@.len(),
                    vv == crate::message::values_view(vs@),
                    crate::attributes::strings_view(out@) == vv.take(i as int).filter(
                        |x: ValueV| x is Keyword,
                    ).map_values(|x: ValueV| x->Keyword_0),
                decreases vs@.len() - i,
            {
                let ghost before = crate::attributes::strings_view(out@);
                proof {
                    assert(vv.take(i + 1).drop_last() =~= vv.take(i as int));
                    reveal_with_fuel(Seq::filter, 1);
                }
                match &vs[i] {
                    Value::Keyword(k) => {
                        out.push(k.clone());
                        proof {
                            assert(crate::attributes::strings_view(out@) =~= before.push(k@));
                            assert(vv.take(i as int).filter(|x: ValueV| x is Keyword).push(vv[i as int]).map_values(|x: ValueV| x->Keyword_0) =~= vv.take(i as int).filter(|x: ValueV| x is Keyword).map_values(|x: ValueV| x->Keyword_0).push(k@));
                        }
                    },
                    _ => {},
                }
                i = i + 1;
            }
            proof {
                assert(vv.take(vs@.len() as int) =~= vv);
            }
        },
    }
    out
}

/// The client's `requested-attributes` keywords (RFC 8011 §4.2.5); `None`
/// when the attribute is absent (the caller treats that as its default).
pub open spec fn requested_attributes_spec(groups: Seq<AttributeGroupV>) -> Option<
    Seq<Seq<char>>,
> {
    match find_wanted(groups, Wanted::RequestedAttributes) {
        Some(a) => Some(keywords_of(a.value)),
        None => None,
    }
}

/// Collect the client's `requested-attributes` values. `None` when the
/// attribute is absent.
pub fn extract_requested_attributes(req: &IppMessage) -> (r: Option<Vec<String>>)
    ensures
        match r {
            Some(v) => requested_attributes_spec(req@.groups) == Some(
                crate::attributes::strings_view(v@),
            ),
            None => requested_attributes_spec(req@.groups) is None,
        },
{
    match find_first(req, Wanted::RequestedAttributes) {
        Some((g, a)) => {
            let at = &req.groups[g].attributes[a];
            proof {
                assert(req@.groups[g as int].attributes[a as int] == at@);
            }
            Some(keywords_in(&at.value))
        },
        None => None,
    }
}

/// The `identify-actions` keywords of an Identify-Printer request (empty
/// when absent).
pub open spec fn identify_actions_spec(groups: Seq<AttributeGroupV>) -> Seq<Seq<char>> {
    match find_wanted(groups, Wanted::IdentifyActions) {
        Some(a) => keywords_of(a.value),
        None => seq![],
    }
}

/// Collect `identify-actions` keywords from an Identify-Printer request.
pub fn extract_identify_actions(req: &IppMessage) -> (r: Vec<String>)
    ensures
        crate::attributes::strings_view(r@) == identify_actions_spec(req@.groups),
{
    match find_first(req, Wanted::IdentifyActions) {
        Some((g, a)) => {
            let at = &req.groups[g].attributes[a];
            proof {
                assert(req@.groups[g as int].attributes[a as int] == at@);
            }
            keywords_in(&at.value)
        },
        None => {
            let v: Vec<String> = Vec::new();
            proof {
                assert(crate::attributes::strings_view(v@) =~= Seq::<Seq<char>>::empty());
            }
            v
        },
    }
}

} // verus!
