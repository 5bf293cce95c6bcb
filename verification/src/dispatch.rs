//! The IPP request handler: request checks (RFC 8011 §4.1), operation
//! dispatch, and the job bookkeeping each operation does. What cannot be
//! decided here — running the print job, poking the device for
//! Identify-Printer — is handed back as a follow-up.

use vstd::prelude::*;

use crate::attributes::{
    apply_filter, apply_requested, build_get_jobs_response, build_job_attrs_response,
    get_printer_attributes, job_attribute_list, job_group, job_groups, ok_response,
    print_job_accepted, accepted_job_attributes, printer_attribute_list, printer_response,
    strings_view, validate_job,
};
use crate::datetime::{names_instant, CivilDateTime};
use crate::job::{
    cancel_unfinished, find_job, ids_increasing, lemma_find_after_create, lemma_find_after_update, is_terminal, jobs_view, update_job, with_state, JobId, JobRecord,
    JobRecordV, JobRegistry, JobState,
};
use crate::message::{
    empty_response, new_response, IppMessage, IppMessageV, STATUS_BAD_REQUEST, STATUS_NOT_FOUND,
    STATUS_NOT_POSSIBLE, STATUS_OK, STATUS_VERSION_NOT_SUPPORTED,
};
use crate::printer::{find_printer, printer_index, printer_uri_spec, PrinterRecord};
use crate::request::{
    copies_spec, document_format_spec, extract_copies, extract_document_format,
    extract_identify_actions, extract_job_id, extract_requested_attributes, has_operation_attr,
    has_operation_attr_spec, identify_actions_spec, job_id_spec, my_jobs_flag, my_jobs_spec,
    requested_attributes_spec, requesting_user, requesting_user_spec,
};
use crate::server::{operation_attributes_well_ordered, operation_attributes_well_ordered_spec};
use crate::text::{decimal, is_prefix, owned, push_decimal, push_str, str_eq};
use crate::wire::{
    encode_ipp_message, frames_message, has_header, ipp_operation_name, ipp_request_document,
    ipp_request_groups, ipp_values_sized, message_outline, message_writable, operation_name,
    outline_read, parse_ipp_request, read_back_groups, written_outline,
};

verus! {

/// How the HTTP request is answered.
#[derive(Debug)]
pub enum Reply {
    /// HTTP 200 carrying an IPP response.
    Ipp(IppMessage),
    /// An HTTP error status with a plain-text message.
    Http { status: u16, message: String },
}

/// Mathematical view of a [`Reply`].
pub enum ReplyV {
    Ipp(IppMessageV),
    Http { status: u16, message: Seq<char> },
}

impl View for Reply {
    type V = ReplyV;

    open spec fn view(&self) -> ReplyV {
        match self {
            Reply::Ipp(m) => ReplyV::Ipp(m@),
            Reply::Http { status, message } => ReplyV::Http { status: *status, message: message@ },
        }
    }
}

/// Work the caller does after answering.
#[derive(Debug)]
pub enum FollowUp {
    /// Nothing more.
    Nothing,
    /// Ask the device backend to identify the printer with these actions.
    Identify { actions: Vec<String> },
    /// Run `job` through the print callback with this many copies and
    /// document format.
    Print { job: JobRecord, copies: u32, document_format: String },
}

/// Mathematical view of a [`FollowUp`].
pub enum FollowUpV {
    Nothing,
    Identify { actions: Seq<Seq<char>> },
    Print { job: JobRecordV, copies: u32, document_format: Seq<char> },
}

impl View for FollowUp {
    type V = FollowUpV;

    open spec fn view(&self) -> FollowUpV {
        match self {
            FollowUp::Nothing => FollowUpV::Nothing,
            FollowUp::Identify { actions } => FollowUpV::Identify { actions: strings_view(actions@) },
            FollowUp::Print { job, copies, document_format } => FollowUpV::Print {
                job: job@,
                copies: *copies,
                document_format: document_format@,
            },
        }
    }
}

/// The answer to one request and the work left to do.
#[derive(Debug)]
pub struct Handled {
    pub reply: Reply,
    pub follow_up: FollowUp,
}

/// IPP operation codes the handler implements.
pub const OP_PRINT_JOB: u16 = 0x0002;
pub const OP_VALIDATE_JOB: u16 = 0x0004;
pub const OP_CREATE_JOB: u16 = 0x0005;
pub const OP_SEND_DOCUMENT: u16 = 0x0006;
pub const OP_CANCEL_JOB: u16 = 0x0008;
pub const OP_GET_JOB_ATTRIBUTES: u16 = 0x0009;
pub const OP_GET_JOBS: u16 = 0x000a;
pub const OP_GET_PRINTER_ATTRIBUTES: u16 = 0x000b;
pub const OP_CANCEL_MY_JOBS: u16 = 0x0039;
pub const OP_CLOSE_JOB: u16 = 0x003b;
pub const OP_IDENTIFY_PRINTER: u16 = 0x003c;

/// The text of the HTTP 400 answer to an operation the handler does not
/// implement, given the name the `ipp` crate has for its code.
pub open spec fn unsupported_message(name: Option<Seq<char>>) -> Seq<char> {
    match name {
        Some(n) => "unsupported IPP operation: "@ + n,
        None => "unknown IPP operation"@,
    }
}

/// The text of the answer to an operation the handler does not implement:
/// `unsupported IPP operation: <name>` for an operation the `ipp` crate
/// names, `unknown IPP operation` for any other code.
pub fn unsupported_operation_message(name: Option<String>) -> (r: String)
    ensures
        r@ == unsupported_message(
            match name {
                Some(n) => Some(n@),
                None => None,
            },
        ),
{
    match name {
        Some(n) => {
            let mut m = owned("unsupported IPP operation: ");
            push_str(&mut m, n.as_str());
            m
        },
        None => owned("unknown IPP operation"),
    }
}

/// The checks every request passes before dispatch, and the IPP answer
/// (version, status) to one that fails them: an IPP version outside the
/// 1.x / 2.x families (RFC 8011 §4.1.8), an operation group that does not
/// open with `attributes-charset` then `attributes-natural-language`
/// (§4.1.4), request-id 0 (§4.1.1), and neither `printer-uri` nor `job-uri`
/// in the operation attributes (§4.2).
pub open spec fn rejection(req: IppMessageV, body: Seq<u8>) -> Option<(u16, u16)> {
    let major = req.version / 256;
    if major != 1 && major != 2 {
        Some((0x0101u16, STATUS_VERSION_NOT_SUPPORTED))
    } else if !operation_attributes_well_ordered_spec(body) {
        Some((req.version, STATUS_BAD_REQUEST))
    } else if req.request_id == 0 {
        Some((req.version, STATUS_BAD_REQUEST))
    } else if !has_operation_attr_spec(req.groups, "printer-uri"@) && !has_operation_attr_spec(
        req.groups,
        "job-uri"@,
    ) {
        Some((req.version, STATUS_BAD_REQUEST))
    } else {
        None
    }
}

/// A request that passes the version, attribute-order and request-id checks
/// is refused only when its operation attributes carry neither `printer-uri`
/// nor `job-uri`, and then with client-error-bad-request (0x0400) at its own
/// version: a `job-uri` alone addresses a request.
pub proof fn lemma_target_uri_check(req: IppMessageV, body: Seq<u8>)
    requires
        req.version / 256 == 1 || req.version / 256 == 2,
        operation_attributes_well_ordered_spec(body),
        req.request_id != 0,
    ensures
        has_operation_attr_spec(req.groups, "job-uri"@) ==> rejection(req, body) is None,
        has_operation_attr_spec(req.groups, "printer-uri"@) ==> rejection(req, body) is None,
        !has_operation_attr_spec(req.groups, "printer-uri"@) && !has_operation_attr_spec(
            req.groups,
            "job-uri"@,
        ) ==> rejection(req, body) == Some((req.version, 0x0400u16)),
{
}

/// The filter a job query applies: the client's `requested-attributes`
/// unless it is empty or holds `all` (then everything); without one, the
/// operation's default set (empty meaning everything).
pub open spec fn effective_filter(
    requested: Option<Seq<Seq<char>>>,
    default: Seq<Seq<char>>,
) -> Option<Seq<Seq<char>>> {
    match requested {
        None => if default.len() > 0 {
            Some(default)
        } else {
            None
        },
        Some(set) => if set.len() == 0 || set.contains("all"@) {
            None
        } else {
            Some(set)
        },
    }
}

/// Resolve the effective attribute filter for a job query.
pub fn effective_filter_of(requested: Option<Vec<String>>, default: Vec<String>) -> (r: Option<
    Vec<String>,
>)
    ensures
        match r {
            Some(v) => effective_filter(
                match requested {
                    Some(q) => Some(strings_view(q@)),
                    None => None,
                },
                strings_view(default@),
            ) == Some(strings_view(v@)),
            None => effective_filter(
                match requested {
                    Some(q) => Some(strings_view(q@)),
                    None => None,
                },
                strings_view(default@),
            ) is None,
        },
{
    match requested {
        None => if default.len() > 0 {
            Some(default)
        } else {
            None
        },
        Some(set) => {
            if set.len() == 0 || crate::attributes::contains_name(&set, "all") {
                None
            } else {
                Some(set)
            }
        },
    }
}

/// The Get-Jobs default attribute set: `job-uri` and `job-id`.
pub open spec fn get_jobs_default() -> Seq<Seq<char>> {
    seq!["job-uri"@, "job-id"@]
}

/// Jobs of `printer`, restricted to `user`'s own when `mine` is set.
pub open spec fn listed_jobs(
    jobs: Seq<JobRecordV>,
    printer: Seq<char>,
    mine: bool,
    user: Seq<char>,
) -> Seq<JobRecordV> {
    let of_printer = jobs.filter(|j: JobRecordV| j.printer == printer);
    if mine {
        of_printer.filter(|j: JobRecordV| j.owner == user)
    } else {
        of_printer
    }
}

fn keep_owned_by(jobs: Vec<JobRecord>, user: &str) -> (r: Vec<JobRecord>)
    ensures
        jobs_view(r@) == jobs_view(jobs@).filter(|j: JobRecordV| j.owner == user@),
{
    let ghost all = jobs_view(jobs@);
    let mut items = jobs;
    let mut out: Vec<JobRecord> = Vec::new();
    let ghost mut done: Seq<JobRecordV> = seq![];
    while items.len() > 0
        invariant
            done + jobs_view(items@) == all,
            jobs_view(out@) == done.filter(|j: JobRecordV| j.owner == user@),
        decreases items@.len(),
    {
        let ghost before_items = items@;
        let ghost before_out = jobs_view(out@);
        let j = items.remove(0);
        let keep = str_eq(j.owner.as_str(), user);
        proof {
            assert(jobs_view(before_items) =~= seq![j@] + jobs_view(items@));
            assert(done.push(j@) + jobs_view(items@) =~= all);
            reveal_with_fuel(Seq::filter, 1);
            assert(done.push(j@).drop_last() =~= done);
            done = done.push(j@);
        }
        if keep {
            out.push(j);
            proof {
                assert(jobs_view(out@) =~= before_out.push(done.last()));
            }
        } else {
            proof {
                assert(jobs_view(out@) =~= before_out);
            }
        }
    }
    proof {
        assert(done =~= all);
    }
    out
}

/// Job timestamps are taken from the printer up-time, as IPP carries them.
pub open spec fn job_time(uptime: u64) -> i32 {
    uptime as i32
}

/// A response with only the operation group.
pub open spec fn status_reply(version: u16, status: u16, request_id: u32) -> ReplyV {
    ReplyV::Ipp(empty_response(version, status, request_id))
}

/// What the handler does for a request that passed the checks, addressed to
/// printer `rec` (`name`), given the jobs `before` (next id `next`): the
/// reply, the follow-up, and the jobs `after` (next id `after_next`).
pub open spec fn dispatched(
    rec: PrinterRecord,
    name: Seq<char>,
    before: Seq<JobRecordV>,
    next: JobId,
    after: Seq<JobRecordV>,
    after_next: JobId,
    req: IppMessageV,
    payload_present: bool,
    host: Seq<char>,
    port: u16,
    uptime: u64,
    now_unix: i64,
    reply: ReplyV,
    follow_up: FollowUpV,
) -> bool {
    let v = req.version;
    let rid = req.request_id;
    let op = req.code;
    let purl = printer_uri_spec(host, port, rec.config.name@);
    let unchanged = after == before && after_next == next;
    let now = job_time(uptime);
    if op == OP_CLOSE_JOB {
        // Jobs are finalized eagerly; Close-Job only acknowledges.
        &&& unchanged
        &&& follow_up == FollowUpV::Nothing
        &&& reply == status_reply(
            v,
            match job_id_spec(req.groups) {
                Some(id) => if find_job(before, id) is Some {
                    STATUS_OK
                } else {
                    STATUS_NOT_FOUND
                },
                None => STATUS_NOT_FOUND,
            },
            rid,
        )
    } else if op == OP_CANCEL_MY_JOBS {
        &&& after == cancel_unfinished(before, name, now)
        &&& after_next == next
        &&& follow_up == FollowUpV::Nothing
        &&& reply == status_reply(v, STATUS_OK, rid)
    } else if op == OP_IDENTIFY_PRINTER {
        &&& unchanged
        &&& follow_up == (FollowUpV::Identify { actions: identify_actions_spec(req.groups) })
        &&& reply == status_reply(v, STATUS_OK, rid)
    } else if op == OP_GET_PRINTER_ATTRIBUTES {
        &&& unchanged
        &&& follow_up == FollowUpV::Nothing
        &&& exists|t: CivilDateTime|
            names_instant(t, now_unix as int) && reply == ReplyV::Ipp(
                printer_response(
                    v,
                    rid,
                    apply_requested(
                        printer_attribute_list(rec, host, port, uptime, t),
                        requested_attributes_spec(req.groups),
                    ),
                ),
            )
    } else if op == OP_VALIDATE_JOB {
        &&& unchanged
        &&& follow_up == FollowUpV::Nothing
        &&& exists|t: CivilDateTime|
            names_instant(t, now_unix as int) && reply == ReplyV::Ipp(
                printer_response(v, rid, printer_attribute_list(rec, host, port, uptime, t)),
            )
    } else if op == OP_PRINT_JOB || op == OP_CREATE_JOB {
        if next == JobId::MAX {
            &&& unchanged
            &&& follow_up == FollowUpV::Nothing
            &&& reply == (ReplyV::Http { status: 503, message: "job ids exhausted"@ })
        } else {
            let job = JobRecordV {
                id: next,
                printer: name,
                owner: requesting_user_spec(req.groups),
                state: JobState::Pending,
                reasons: 0,
                message: Seq::empty(),
                created: now,
                completed: None,
            };
            &&& after == before.push(job)
            &&& after_next == next + 1
            &&& reply == ReplyV::Ipp(
                ok_response(v, rid, seq![job_group(accepted_job_attributes(job, purl))]),
            )
            &&& follow_up == if op == OP_PRINT_JOB {
                FollowUpV::Print {
                    job,
                    copies: copies_spec(req.groups),
                    document_format: document_format_spec(req.groups),
                }
            } else {
                FollowUpV::Nothing
            }
        }
    } else if op == OP_SEND_DOCUMENT {
        &&& unchanged
        &&& if !has_operation_attr_spec(req.groups, "last-document"@) {
            follow_up == FollowUpV::Nothing && reply == status_reply(v, STATUS_BAD_REQUEST, rid)
        } else {
            match job_id_spec(req.groups) {
                None => follow_up == FollowUpV::Nothing && reply == (ReplyV::Http {
                    status: 400,
                    message: "Send-Document missing job-id"@,
                }),
                Some(id) => match find_job(before, id) {
                    None => follow_up == FollowUpV::Nothing && reply == (ReplyV::Http {
                        status: 404,
                        message: "job not found: "@ + decimal(id as nat),
                    }),
                    Some(job) => {
                        &&& reply == ReplyV::Ipp(
                            ok_response(
                                v,
                                rid,
                                seq![job_group(job_attribute_list(job, purl, uptime))],
                            ),
                        )
                        &&& follow_up == if payload_present {
                            FollowUpV::Print {
                                job,
                                copies: copies_spec(req.groups),
                                document_format: document_format_spec(req.groups),
                            }
                        } else {
                            FollowUpV::Nothing
                        }
                    },
                },
            }
        }
    } else if op == OP_GET_JOBS {
        &&& unchanged
        &&& follow_up == FollowUpV::Nothing
        &&& reply == ReplyV::Ipp(
            ok_response(
                v,
                rid,
                job_groups(
                    listed_jobs(before, name, my_jobs_spec(req.groups), requesting_user_spec(req.groups)),
                    purl,
                    effective_filter(requested_attributes_spec(req.groups), get_jobs_default()),
                    uptime,
                ),
            ),
        )
    } else if op == OP_GET_JOB_ATTRIBUTES {
        &&& unchanged
        &&& follow_up == FollowUpV::Nothing
        &&& match job_id_spec(req.groups) {
            None => reply == (ReplyV::Http {
                status: 400,
                message: "Get-Job-Attributes missing job-id"@,
            }),
            Some(id) => match find_job(before, id) {
                None => reply == (ReplyV::Http {
                    status: 404,
                    message: "job not found: "@ + decimal(id as nat),
                }),
                Some(job) => reply == ReplyV::Ipp(
                    ok_response(
                        v,
                        rid,
                        seq![
                            job_group(
                                apply_filter(
                                    job_attribute_list(job, purl, uptime),
                                    effective_filter(requested_attributes_spec(req.groups), seq![]),
                                ),
                            ),
                        ],
                    ),
                ),
            },
        }
    } else if op == OP_CANCEL_JOB {
        &&& after_next == next
        &&& follow_up == FollowUpV::Nothing
        &&& match job_id_spec(req.groups) {
            None => after == before && reply == (ReplyV::Http {
                status: 400,
                message: "Cancel-Job missing job-id"@,
            }),
            Some(id) => match find_job(before, id) {
                None => after == before && reply == status_reply(v, STATUS_NOT_FOUND, rid),
                Some(j) => if is_terminal(j.state) {
                    after == before && reply == status_reply(
                        v,
                        if j.state == JobState::Canceled {
                            STATUS_OK
                        } else {
                            STATUS_NOT_POSSIBLE
                        },
                        rid,
                    )
                } else {
                    after == update_job(
                        before,
                        id,
                        |j: JobRecordV| with_state(j, JobState::Canceled, now),
                    ) && reply == status_reply(v, STATUS_OK, rid)
                },
            },
        }
    } else {
        &&& unchanged
        &&& follow_up == FollowUpV::Nothing
        &&& reply == (ReplyV::Http { status: 400, message: unsupported_message(ipp_operation_name(op)) })
    }
}

/// A job submitted with Print-Job or Create-Job reads back by its id as it
/// was created (pending, owned by the requesting user, on this printer),
/// every job already there reads back unchanged, and the next job gets the
/// next id.
pub proof fn lemma_submitted_job_reads_back(
    rec: PrinterRecord,
    name: Seq<char>,
    before: Seq<JobRecordV>,
    next: JobId,
    after: Seq<JobRecordV>,
    after_next: JobId,
    req: IppMessageV,
    payload_present: bool,
    host: Seq<char>,
    port: u16,
    uptime: u64,
    now_unix: i64,
    reply: ReplyV,
    follow_up: FollowUpV,
    other: JobId,
)
    requires
        dispatched(rec, name, before, next, after, after_next, req, payload_present, host, port,
            uptime, now_unix, reply, follow_up),
        req.code == OP_PRINT_JOB || req.code == OP_CREATE_JOB,
        next < JobId::MAX,
        ids_increasing(before),
        forall|i: int| 0 <= i < before.len() ==> #[trigger] before[i].id < next,
    ensures
        find_job(after, next) == Some(
            JobRecordV {
                id: next,
                printer: name,
                owner: requesting_user_spec(req.groups),
                state: JobState::Pending,
                reasons: 0,
                message: Seq::empty(),
                created: job_time(uptime),
                completed: None,
            },
        ),
        other != next ==> find_job(after, other) == find_job(before, other),
        after_next == next + 1,
        reply is Ipp,
{
    let job = JobRecordV {
        id: next,
        printer: name,
        owner: requesting_user_spec(req.groups),
        state: JobState::Pending,
        reasons: 0,
        message: Seq::empty(),
        created: job_time(uptime),
        completed: None,
    };
    lemma_find_after_create(before, job, other);
}

/// Cancel-Job on a job that has not finished cancels it: the job then reads
/// back `canceled` (stamped with the up-time), the answer is successful-ok
/// and every other job reads back unchanged. A finished job is left as it
/// is, and only an already canceled one is answered successful-ok.
pub proof fn lemma_cancel_job_reads_back(
    rec: PrinterRecord,
    name: Seq<char>,
    before: Seq<JobRecordV>,
    next: JobId,
    after: Seq<JobRecordV>,
    after_next: JobId,
    req: IppMessageV,
    payload_present: bool,
    host: Seq<char>,
    port: u16,
    uptime: u64,
    now_unix: i64,
    reply: ReplyV,
    follow_up: FollowUpV,
    id: JobId,
    other: JobId,
)
    requires
        dispatched(rec, name, before, next, after, after_next, req, payload_present, host, port,
            uptime, now_unix, reply, follow_up),
        req.code == OP_CANCEL_JOB,
        job_id_spec(req.groups) == Some(id),
        find_job(before, id) is Some,
        ids_increasing(before),
    ensures
        ({
            let j = find_job(before, id)->Some_0;
            if is_terminal(j.state) {
                &&& after == before
                &&& (reply == status_reply(req.version, STATUS_OK, req.request_id)) == (j.state
                    == JobState::Canceled)
            } else {
                &&& find_job(after, id) == Some(with_state(j, JobState::Canceled, job_time(uptime)))
                &&& other != id ==> find_job(after, other) == find_job(before, other)
                &&& reply == status_reply(req.version, STATUS_OK, req.request_id)
            }
        }),
{
    lemma_find_after_update(
        before,
        id,
        other,
        |j: JobRecordV| with_state(j, JobState::Canceled, job_time(uptime)),
    );
    let j = find_job(before, id)->Some_0;
    if is_terminal(j.state) && j.state != JobState::Canceled {
        assert(empty_response(req.version, STATUS_NOT_POSSIBLE, req.request_id).code
            != empty_response(req.version, STATUS_OK, req.request_id).code);
    }
}

/// The answer to a request with raw bytes `body` and parsed form `req`,
/// addressed to printer `name` of `printers`, given the jobs `before` (next
/// id `next`): a request that fails the checks is answered with the IPP
/// status [`rejection`] gives and changes nothing; one for an unknown
/// printer is an HTTP 404 and changes nothing; any other is [`dispatched`].
pub open spec fn answered(
    printers: Seq<PrinterRecord>,
    name: Seq<char>,
    before: Seq<JobRecordV>,
    next: JobId,
    after: Seq<JobRecordV>,
    after_next: JobId,
    req: IppMessageV,
    body: Seq<u8>,
    payload_present: bool,
    host: Seq<char>,
    port: u16,
    uptime: u64,
    now_unix: i64,
    reply: ReplyV,
    follow_up: FollowUpV,
) -> bool {
    match rejection(req, body) {
        Some((v, st)) => reply == status_reply(v, st, req.request_id) && follow_up
            == FollowUpV::Nothing && after == before && after_next == next,
        None => match printer_index(printers, name) {
            None => reply == (ReplyV::Http { status: 404, message: "printer not found: "@ + name })
                && follow_up == FollowUpV::Nothing && after == before && after_next == next,
            Some(i) => dispatched(
                printers[i],
                name,
                before,
                next,
                after,
                after_next,
                req,
                payload_present,
                host,
                port,
                uptime,
                now_unix,
                reply,
                follow_up,
            ),
        },
    }
}

fn http(status: u16, message: String) -> (r: Handled)
    ensures
        r.reply@ == (ReplyV::Http { status, message: message@ }),
        r.follow_up@ == FollowUpV::Nothing,
{
    Handled { reply: Reply::Http { status, message }, follow_up: FollowUp::Nothing }
}

fn ipp_status(version: u16, status: u16, request_id: u32) -> (r: Handled)
    ensures
        r.reply@ == status_reply(version, status, request_id),
        r.follow_up@ == FollowUpV::Nothing,
{
    Handled { reply: Reply::Ipp(new_response(version, status, request_id)), follow_up: FollowUp::Nothing }
}

fn job_not_found(id: JobId) -> (r: Handled)
    ensures
        r.reply@ == (ReplyV::Http { status: 404, message: "job not found: "@ + decimal(id as nat) }),
        r.follow_up@ == FollowUpV::Nothing,
{
    let mut m = owned("job not found: ");
    push_decimal(&mut m, id as u64);
    http(404, m)
}

/// Answer one IPP request addressed to printer `name` (the `/ipp/print/<name>`
/// path). `body` is the raw request, `req` its parsed form and
/// `payload_present` whether a document follows the attributes. `host` and
/// `port` are where the server listens, `uptime` the printer up-time in
/// seconds and `now_unix` the wall-clock time.
pub fn handle_ipp(
    printers: &Vec<PrinterRecord>,
    jobs: &mut JobRegistry,
    name: &str,
    req: &IppMessage,
    body: &[u8],
    payload_present: bool,
    host: &str,
    port: u16,
    uptime: u64,
    now_unix: i64,
) -> (h: Handled)
    requires
        old(jobs).wf(),
    ensures
        final(jobs).wf(),
        answered(
            printers@,
            name@,
            old(jobs).jobs(),
            old(jobs).next_id(),
            final(jobs).jobs(),
            final(jobs).next_id(),
            req@,
            body@,
            payload_present,
            host@,
            port,
            uptime,
            now_unix,
            h.reply@,
            h.follow_up@,
        ),
{
    let version = req.version;
    let rid = req.request_id;
    let op = req.code;
    let major = version / 256;
    if major != 1 && major != 2 {
        return ipp_status(0x0101, STATUS_VERSION_NOT_SUPPORTED, rid);
    }
    if !operation_attributes_well_ordered(body) {
        return ipp_status(version, STATUS_BAD_REQUEST, rid);
    }
    if rid == 0 {
        return ipp_status(version, STATUS_BAD_REQUEST, rid);
    }
    if !has_operation_attr(req, "printer-uri") && !has_operation_attr(req, "job-uri") {
        return ipp_status(version, STATUS_BAD_REQUEST, rid);
    }
    let pi = match find_printer(printers, name) {
        Some(i) => i,
        None => {
            let mut m = owned("printer not found: ");
            push_str(&mut m, name);
            return http(404, m);
        },
    };
    proof {
        crate::printer::lemma_printer_index_from(printers@, name@, 0);
    }
    let record = &printers[pi];
    let now: i32 = uptime as i32;
    if op == OP_CLOSE_JOB {
        let status = match extract_job_id(req) {
            Some(id) => match jobs.get(id) {
                Some(_) => STATUS_OK,
                None => STATUS_NOT_FOUND,
            },
            None => STATUS_NOT_FOUND,
        };
        ipp_status(version, status, rid)
    } else if op == OP_CANCEL_MY_JOBS {
        jobs.cancel_printer_jobs(name, now);
        ipp_status(version, STATUS_OK, rid)
    } else if op == OP_IDENTIFY_PRINTER {
        let actions = extract_identify_actions(req);
        Handled {
            reply: Reply::Ipp(new_response(version, STATUS_OK, rid)),
            follow_up: FollowUp::Identify { actions },
        }
    } else if op == OP_GET_PRINTER_ATTRIBUTES {
        let requested = extract_requested_attributes(req);
        let resp = get_printer_attributes(
            version,
            rid,
            record,
            host,
            port,
            requested.as_ref(),
            uptime,
            now_unix,
        );
        Handled { reply: Reply::Ipp(resp), follow_up: FollowUp::Nothing }
    } else if op == OP_VALIDATE_JOB {
        let resp = validate_job(version, rid, record, host, port, uptime, now_unix);
        Handled { reply: Reply::Ipp(resp), follow_up: FollowUp::Nothing }
    } else if op == OP_PRINT_JOB || op == OP_CREATE_JOB {
        let copies = extract_copies(req);
        let format = extract_document_format(req);
        let owner = requesting_user(req);
        match jobs.create(owned(name), owner, now) {
            None => http(503, owned("job ids exhausted")),
            Some(job) => {
                let purl = record.config.printer_uri(host, port);
                let accepted = print_job_accepted(version, rid, &job, purl.as_str());
                let follow_up = if op == OP_PRINT_JOB {
                    FollowUp::Print { job, copies, document_format: format }
                } else {
                    FollowUp::Nothing
                };
                Handled { reply: Reply::Ipp(accepted), follow_up }
            },
        }
    } else if op == OP_SEND_DOCUMENT {
        if !has_operation_attr(req, "last-document") {
            return ipp_status(version, STATUS_BAD_REQUEST, rid);
        }
        let id = match extract_job_id(req) {
            Some(id) => id,
            None => {
                return http(400, owned("Send-Document missing job-id"));
            },
        };
        let job = match jobs.get(id) {
            Some(j) => j,
            None => {
                return job_not_found(id);
            },
        };
        let copies = extract_copies(req);
        let format = extract_document_format(req);
        let purl = record.config.printer_uri(host, port);
        let resp = build_job_attrs_response(version, rid, &job, purl.as_str(), None, uptime);
        let follow_up = if payload_present {
            FollowUp::Print { job, copies, document_format: format }
        } else {
            FollowUp::Nothing
        };
        Handled { reply: Reply::Ipp(resp), follow_up }
    } else if op == OP_GET_JOBS {
        let purl = record.config.printer_uri(host, port);
        let mut listed = jobs.jobs_for_printer(name);
        if my_jobs_flag(req) {
            let user = requesting_user(req);
            listed = keep_owned_by(listed, user.as_str());
        }
        let requested = extract_requested_attributes(req);
        let mut default: Vec<String> = Vec::new();
        default.push(owned("job-uri"));
        default.push(owned("job-id"));
        proof {
            assert(strings_view(default@) =~= get_jobs_default());
        }
        let filter = effective_filter_of(requested, default);
        let resp = build_get_jobs_response(version, rid, &listed, purl.as_str(), filter.as_ref(), uptime);
        Handled { reply: Reply::Ipp(resp), follow_up: FollowUp::Nothing }
    } else if op == OP_GET_JOB_ATTRIBUTES {
        let purl = record.config.printer_uri(host, port);
        let id = match extract_job_id(req) {
            Some(id) => id,
            None => {
                return http(400, owned("Get-Job-Attributes missing job-id"));
            },
        };
        let job = match jobs.get(id) {
            Some(j) => j,
            None => {
                return job_not_found(id);
            },
        };
        let requested = extract_requested_attributes(req);
        let none: Vec<String> = Vec::new();
        proof {
            assert(strings_view(none@) =~= Seq::<Seq<char>>::empty());
        }
        let filter = effective_filter_of(requested, none);
        let resp = build_job_attrs_response(version, rid, &job, purl.as_str(), filter.as_ref(), uptime);
        Handled { reply: Reply::Ipp(resp), follow_up: FollowUp::Nothing }
    } else if op == OP_CANCEL_JOB {
        let id = match extract_job_id(req) {
            Some(id) => id,
            None => {
                return http(400, owned("Cancel-Job missing job-id"));
            },
        };
        let status = match jobs.cancel(id, now) {
            None => STATUS_NOT_FOUND,
            Some(JobState::Canceled) => STATUS_OK,
            Some(_) => STATUS_NOT_POSSIBLE,
        };
        ipp_status(version, status, rid)
    } else {
        http(400, unsupported_operation_message(operation_name(op)))
    }
}

/// One exchange on `/ipp/print/<name>`: the request as parsed, the document
/// that came with it, the answer and the work left to do, and the answer's
/// bytes when it is an IPP response.
#[derive(Debug)]
pub struct Exchange {
    /// The parsed request; `None` when the body is not an IPP request.
    pub request: Option<IppMessage>,
    /// The document that followed the request's attributes (empty if none).
    pub document: Vec<u8>,
    /// The answer and the follow-up.
    pub handled: Handled,
    /// The serialised IPP response, when the answer is one.
    pub encoded: Option<Vec<u8>>,
}

/// Answer one HTTP request on `/ipp/print/<name>` whose body is `body`:
/// parse it (a body that is not an IPP request is an HTTP 400 and changes
/// nothing), answer it as [`handle_ipp`] does with the document's presence,
/// and serialise an IPP answer: a writable answer is serialised so that the
/// `ipp` parser reads back its groups, names and values (see
/// [`encode_ipp_message`]).
pub fn handle_ipp_request(
    printers: &Vec<PrinterRecord>,
    jobs: &mut JobRegistry,
    name: &str,
    body: &[u8],
    host: &str,
    port: u16,
    uptime: u64,
    now_unix: i64,
) -> (x: Exchange)
    requires
        old(jobs).wf(),
    ensures
        final(jobs).wf(),
        (x.request is Some) == (ipp_values_sized(body@) && ipp_request_document(body@) is Some),
        match x.request {
            None => {
                &&& x.handled.reply@ matches ReplyV::Http { status, message } && status == 400
                    && is_prefix("IPP parse error: "@, message)
                &&& x.handled.follow_up@ == FollowUpV::Nothing
                &&& final(jobs).jobs() == old(jobs).jobs()
                &&& final(jobs).next_id() == old(jobs).next_id()
            },
            Some(m) => {
                &&& has_header(body@, m.version, m.code, m.request_id)
                &&& ipp_request_document(body@) == Some(x.document@)
                &&& read_back_groups(m@.groups, ipp_request_groups(body@))
                &&& answered(
                    printers@,
                    name@,
                    old(jobs).jobs(),
                    old(jobs).next_id(),
                    final(jobs).jobs(),
                    final(jobs).next_id(),
                    m@,
                    body@,
                    x.document@.len() > 0,
                    host@,
                    port,
                    uptime,
                    now_unix,
                    x.handled.reply@,
                    x.handled.follow_up@,
                )
            },
        },
        match x.handled.reply@ {
            ReplyV::Ipp(msg) => x.encoded matches Some(b) && frames_message(
                b@,
                msg.version,
                msg.code,
                msg.request_id,
            ) && (message_writable(msg) ==> {
                &&& ipp_values_sized(b@)
                &&& ipp_request_document(b@) == Some(Seq::<u8>::empty())
                &&& outline_read(ipp_request_groups(b@), written_outline(message_outline(msg)))
            }),
            ReplyV::Http { .. } => x.encoded is None,
        },
{
    match parse_ipp_request(body) {
        Err(e) => Exchange {
            request: None,
            document: Vec::new(),
            handled: http(400, e),
            encoded: None,
        },
        Ok((req, document)) => {
            let present = document.len() > 0;
            let handled = handle_ipp(
                printers,
                jobs,
                name,
                &req,
                body,
                present,
                host,
                port,
                uptime,
                now_unix,
            );
            let encoded = match &handled.reply {
                Reply::Ipp(msg) => Some(encode_ipp_message(msg)),
                Reply::Http { .. } => None,
            };
            Exchange { request: Some(req), document, handled, encoded }
        },
    }
}

} // verus!
