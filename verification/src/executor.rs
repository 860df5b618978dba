//! The execution of one statement, as a state machine.
//!
//! A statement is submitted, answered at once or after polling, and its
//! payload is then reassembled; a staging statement is answered with the
//! description of a transfer instead. Every step that talks to the outside
//! is an action that the machine hands to its driver, and what came of it is
//! an event that the driver hands back. The machine itself only decides.
//!
//! ```text
//! Submitted -> AsyncPending* -> { FetchingJson | FetchingBinary }? -> Finished
//! Submitted -> Expanding -> Uploading -> Finished
//! ```

use crate::bindings::{bytes_content, json_array_items, json_from_items, json_into_items};
use crate::error::SnowflakeApiError;
use crate::resolver::{join_chunks, join_rows, joined_chunks, joined_rows};
use crate::responses::{
    is_async_code, BaseRestResponse, CommandType, ExecErrorResponse, ExecResponse,
    ExecResponseChunk, ExecResponseRowType, ProcessedRestResponse, PutGetResponseData,
    QueryContext, QueryExecResponseData, SyncQueryExecResponseData,
};
use crate::results::{
    schema_from_rowtype, schema_of, BytesResult, EmptyJsonResult, FieldSchema, JsonResult,
    QueryResult, RawQueryResult,
};
use crate::stage::{
    download_capability, plan_outcome, plan_upload, LocalFile, StageTransfer, UploadPlan,
};
use std::collections::HashMap;
use vstd::prelude::*;

verus! {

/// The endpoints of the service.
#[derive(Debug)]
pub enum QueryType {
    LoginRequest,
    TokenRequest,
    CloseSession,
    /// Statement execution with the rows as JSON.
    JsonQuery,
    /// Statement execution with the rows as columnar streams.
    ArrowQuery,
}

/// The body of an execution request.
#[derive(Debug)]
pub struct ExecRequest {
    pub sql_text: String,
    pub async_exec: bool,
    pub sequence_id: u64,
    pub is_internal: bool,
}

/// The envelope of an answer without its data.
#[derive(Debug)]
pub struct ResponseHead {
    pub code: Option<String>,
    pub message: Option<String>,
    pub success: bool,
}

/// What every result carries besides its rows.
#[derive(Debug)]
pub struct ResultTag {
    pub query_id: String,
    pub send_result_time: usize,
    pub query_context: QueryContext,
}

/// Where the execution of a statement stands.
#[derive(Debug)]
pub enum QueryState {
    /// The statement is sent and its first answer is awaited. `staging` says
    /// that the statement transfers files.
    Submitted { staging: bool },
    /// The service handed out a poll handle; one poll is under way.
    AsyncPending { head: ResponseHead },
    /// A JSON payload is resolved and its remote chunks are being fetched.
    FetchingJson {
        head: ResponseHead,
        rows: Vec<serde_json::Value>,
        schema: Vec<FieldSchema>,
        tag: ResultTag,
        slots: Vec<Option<bytes::Bytes>>,
    },
    /// A binary payload is resolved and its remote chunks are being fetched.
    FetchingBinary {
        head: ResponseHead,
        inline: Option<String>,
        tag: ResultTag,
        slots: Vec<Option<bytes::Bytes>>,
    },
    /// A transfer is described and its source patterns are being expanded.
    Expanding { head: ResponseHead, transfer: StageTransfer, tag: ResultTag },
    /// The files of a transfer are being sent.
    Uploading { head: ResponseHead, tag: ResultTag },
    /// The statement has its result or its error.
    Finished,
}

/// What the driver reports.
#[derive(Debug)]
pub enum QueryEvent {
    /// The answer to the submission or to a poll.
    Response(ExecResponse),
    /// The body of the chunk declared at position `index`.
    Chunk { index: usize, body: bytes::Bytes },
    /// The local files that the source patterns matched.
    Sources(Vec<LocalFile>),
    /// Every file of the plan is sent.
    Uploaded,
    /// An action could not be carried out.
    Failed(SnowflakeApiError),
}

/// What the driver is to do next.
#[derive(Debug)]
pub enum QueryAction {
    /// Ask for the result at the address the service gave.
    Poll { url: String },
    /// Fetch every chunk, each with the headers, and report each body with
    /// the position of its chunk in this list.
    FetchChunks { chunks: Vec<ExecResponseChunk>, headers: HashMap<String, String> },
    /// Go on reporting: chunks are still missing.
    Pending,
    /// Expand the source patterns into the local files they match.
    ExpandSources { patterns: Vec<String> },
    /// Send the files of the plan.
    Upload(UploadPlan),
    /// Hand the result to the caller.
    Complete(ProcessedRestResponse),
    /// Hand the error to the caller.
    Fail(SnowflakeApiError),
}

/// The tag of a result.
pub open spec fn tag_of(data: SyncQueryExecResponseData) -> ResultTag {
    ResultTag {
        query_id: data.query_id,
        send_result_time: data.send_result_time,
        query_context: data.query_context,
    }
}

/// Whether `err` is the rejection that the service expressed in `e`.
pub open spec fn is_api_error(e: ExecErrorResponse, err: SnowflakeApiError) -> bool {
    &&& err matches SnowflakeApiError::ApiError { code, message, query_id }
    &&& code == e.data.error_code
    &&& query_id == e.data.query_id
    &&& message@ == match e.message {
        Some(m) => m@,
        None => Seq::<char>::empty(),
    }
}

/// Whether `answer` comes in the envelope `head`.
pub open spec fn has_head(answer: ProcessedRestResponse, head: ResponseHead) -> bool {
    answer.code == head.code && answer.message == head.message && answer.success == head.success
}

/// The envelope of an answer.
pub open spec fn head_of<D>(answer: BaseRestResponse<D>) -> ResponseHead {
    ResponseHead { code: answer.code, message: answer.message, success: answer.success }
}

/// The tag of the result of a transfer.
pub open spec fn transfer_tag(data: PutGetResponseData) -> ResultTag {
    ResultTag {
        query_id: data.query_id,
        send_result_time: data.send_result_time,
        query_context: data.query_context,
    }
}

/// What a transfer is planned from.
pub open spec fn transfer_of(data: PutGetResponseData) -> StageTransfer {
    StageTransfer {
        command: data.command,
        parallel: data.parallel,
        threshold: data.threshold,
        auto_compress: data.auto_compress,
        overwrite: data.overwrite,
        source_compression: data.source_compression,
        stage_info: data.stage_info,
        encryption_material: data.encryption_material,
    }
}

/// Whether `raw` is the empty result of `data`: without rows, with the
/// schema where the answer has one.
pub open spec fn is_empty_result(raw: RawQueryResult, tag: ResultTag, schema: Option<
    Seq<FieldSchema>,
>) -> bool {
    &&& raw matches RawQueryResult::Empty(e)
    &&& e.query_id == tag.query_id
    &&& e.send_result_time == tag.send_result_time
    &&& e.query_context == tag.query_context
    &&& match schema {
        Some(s) => e.schema matches Some(v) && v@ == s,
        None => e.schema is None,
    }
}

/// Whether `raw` is the JSON result with these rows and this schema.
pub open spec fn is_json_result(
    raw: RawQueryResult,
    tag: ResultTag,
    rows: Seq<serde_json::Value>,
    schema: Seq<FieldSchema>,
) -> bool {
    &&& raw matches RawQueryResult::Json(j)
    &&& json_array_items(j.value) == Some(rows)
    &&& j.schema@ == schema
    &&& j.query_id == tag.query_id
    &&& j.send_result_time == tag.send_result_time
    &&& j.query_context == tag.query_context
}

/// Whether `raw` is the binary result with these chunks.
pub open spec fn is_bytes_result(raw: RawQueryResult, tag: ResultTag, chunks: Seq<Seq<u8>>) -> bool {
    &&& raw matches RawQueryResult::Bytes(b)
    &&& b.chunks@.map_values(|c: bytes::Bytes| bytes_content(c)) == chunks
    &&& b.query_id == tag.query_id
    &&& b.send_result_time == tag.send_result_time
    &&& b.query_context == tag.query_context
}

/// The schema of an answer, where it has one.
pub open spec fn schema_option(rowtype: Option<Vec<ExecResponseRowType>>) -> Option<
    Seq<FieldSchema>,
> {
    match rowtype {
        Some(t) => Some(schema_of(t@)),
        None => None,
    }
}

/// The schema of an answer; without columns where it has none.
pub open spec fn schema_or_none(rowtype: Option<Vec<ExecResponseRowType>>) -> Seq<FieldSchema> {
    match rowtype {
        Some(t) => schema_of(t@),
        None => Seq::empty(),
    }
}

/// The rows that an answer carries inline: its rowset where that is a JSON
/// array.
pub open spec fn inline_rows(rowset: Option<serde_json::Value>) -> Option<
    Seq<serde_json::Value>,
> {
    match rowset {
        Some(v) => json_array_items(v),
        None => None,
    }
}

/// No chunk has been reported yet.
pub open spec fn no_bodies(n: nat) -> Seq<Option<bytes::Bytes>> {
    Seq::new(n, |i: int| None::<bytes::Bytes>)
}

/// Every chunk has been reported.
pub open spec fn all_present(slots: Seq<Option<bytes::Bytes>>) -> bool {
    forall|i: int| 0 <= i < slots.len() ==> (#[trigger] slots[i]) is Some
}

/// The bodies of the chunks in the order in which the chunks were declared.
pub open spec fn bodies_of(slots: Seq<Option<bytes::Bytes>>) -> Seq<bytes::Bytes> {
    slots.map_values(|s: Option<bytes::Bytes>| s->0)
}

/// The rejection of an event that the state has no use for.
pub open spec fn rejected(next: QueryState, action: QueryAction) -> bool {
    next is Finished && action matches QueryAction::Fail(SnowflakeApiError::UnexpectedResponse)
}

/// The end of a JSON result: the rows of all chunks joined to the inline
/// rows, or a broken answer where a chunk has no rows to give.
pub open spec fn json_finished(
    head: ResponseHead,
    rows: Seq<serde_json::Value>,
    schema: Seq<FieldSchema>,
    tag: ResultTag,
    bodies: Seq<bytes::Bytes>,
    next: QueryState,
    action: QueryAction,
) -> bool {
    &&& next is Finished
    &&& match joined_rows(rows, bodies) {
        Some(all) => action matches QueryAction::Complete(answer) && has_head(answer, head)
            && is_json_result(answer.data, tag, all, schema),
        None => action matches QueryAction::Fail(SnowflakeApiError::BrokenResponse),
    }
}

/// The end of a binary result: the remote chunks in order and the inline
/// blob after them, or the error of the blob.
pub open spec fn binary_finished(
    head: ResponseHead,
    inline: Option<String>,
    tag: ResultTag,
    bodies: Seq<bytes::Bytes>,
    next: QueryState,
    action: QueryAction,
) -> bool {
    &&& next is Finished
    &&& match joined_chunks(bodies, inline) {
        Ok(chunks) => action matches QueryAction::Complete(answer) && has_head(answer, head)
            && is_bytes_result(answer.data, tag, chunks),
        Err(e) => action matches QueryAction::Fail(
            SnowflakeApiError::ResponseDeserializationError(f),
        ) && f == e,
    }
}

/// What becomes of a payload that came in the same answer.
///
/// In this order: no rows returned gives the empty result; an inline JSON
/// array gives a JSON result; an inline blob or a list of chunks gives a
/// binary result; anything else is a broken answer. Where there are chunks
/// to fetch, the result has to wait for them.
pub open spec fn sync_resolved(
    head: ResponseHead,
    data: SyncQueryExecResponseData,
    next: QueryState,
    action: QueryAction,
) -> bool {
    let tag = tag_of(data);
    if data.returned == 0 {
        &&& next is Finished
        &&& action matches QueryAction::Complete(answer)
        &&& has_head(answer, head)
        &&& is_empty_result(answer.data, tag, schema_option(data.rowtype))
    } else if inline_rows(data.rowset) is Some {
        let rows = inline_rows(data.rowset)->0;
        let schema = schema_or_none(data.rowtype);
        if data.chunks@.len() == 0 {
            json_finished(head, rows, schema, tag, Seq::empty(), next, action)
        } else {
            &&& next matches QueryState::FetchingJson { head: h, rows: r, schema: s, tag: t, slots }
            &&& h == head
            &&& r@ == rows
            &&& s@ == schema
            &&& t == tag
            &&& slots@ == no_bodies(data.chunks@.len())
            &&& action matches QueryAction::FetchChunks { chunks, headers }
            &&& chunks == data.chunks
            &&& headers == data.chunk_headers
        }
    } else if data.rowset_base64 is Some || data.chunks@.len() > 0 {
        if data.chunks@.len() == 0 {
            binary_finished(head, data.rowset_base64, tag, Seq::empty(), next, action)
        } else {
            &&& next matches QueryState::FetchingBinary { head: h, inline, tag: t, slots }
            &&& h == head
            &&& inline == data.rowset_base64
            &&& t == tag
            &&& slots@ == no_bodies(data.chunks@.len())
            &&& action matches QueryAction::FetchChunks { chunks, headers }
            &&& chunks == data.chunks
            &&& headers == data.chunk_headers
        }
    } else {
        next is Finished && action matches QueryAction::Fail(SnowflakeApiError::BrokenResponse)
    }
}

/// Takes the rejection of a statement out of the answer that carries it.
pub fn api_error(e: ExecErrorResponse) -> (err: SnowflakeApiError)
    ensures
        is_api_error(e, err),
{
    let BaseRestResponse { code: _, message, success: _, data } = e;
    let message = match message {
        Some(m) => m,
        None => String::new(),
    };
    SnowflakeApiError::ApiError { code: data.error_code, message, query_id: data.query_id }
}

/// Puts a result into the envelope of the answer it belongs to.
pub fn in_head(head: ResponseHead, raw: RawQueryResult) -> (answer: ProcessedRestResponse)
    ensures
        has_head(answer, head),
        answer.data == raw,
{
    BaseRestResponse { code: head.code, message: head.message, success: head.success, data: raw }
}

/// As many empty places as there are chunks.
pub fn empty_slots(n: usize) -> (slots: Vec<Option<bytes::Bytes>>)
    ensures
        slots@ == no_bodies(n as nat),
{
    let mut slots: Vec<Option<bytes::Bytes>> = Vec::new();
    let mut i: usize = 0;
    while i < n
        invariant
            i <= n,
            slots@ == no_bodies(i as nat),
        decreases n - i,
    {
        slots.push(None);
        proof {
            assert(slots@ =~= no_bodies((i + 1) as nat));
        }
        i += 1;
    }
    slots
}

/// Whether every chunk has been reported.
pub fn is_complete(slots: &Vec<Option<bytes::Bytes>>) -> (r: bool)
    ensures
        r == all_present(slots@),
{
    let mut i: usize = 0;
    while i < slots.len()
        invariant
            i <= slots@.len(),
            forall|k: int| 0 <= k < i ==> (#[trigger] slots@[k]) is Some,
        decreases slots@.len() - i,
    {
        if slots[i].is_none() {
            return false;
        }
        i += 1;
    }
    true
}

/// The bodies of the chunks, in the order in which the chunks were declared.
pub fn take_bodies(slots: Vec<Option<bytes::Bytes>>) -> (bodies: Vec<bytes::Bytes>)
    requires
        all_present(slots@),
    ensures
        bodies@ == bodies_of(slots@),
{
    let ghost all = slots@;
    let mut rest = slots;
    let mut reversed: Vec<bytes::Bytes> = Vec::new();
    while rest.len() > 0
        invariant
            all_present(all),
            rest@.len() <= all.len(),
            rest@ == all.subrange(0, rest@.len() as int),
            reversed@.len() == all.len() - rest@.len(),
            forall|k: int|
                0 <= k < reversed@.len() ==> Some(#[trigger] reversed@[k]) == all[all.len() - 1
                    - k],
        decreases rest@.len(),
    {
        let last = rest.pop().unwrap();
        assert(last == all[rest@.len() as int]);
        reversed.push(last.unwrap());
    }
    let mut bodies: Vec<bytes::Bytes> = Vec::new();
    while reversed.len() > 0
        invariant
            reversed@.len() + bodies@.len() == all.len(),
            forall|k: int|
                0 <= k < reversed@.len() ==> Some(#[trigger] reversed@[k]) == all[all.len() - 1
                    - k],
            forall|k: int| 0 <= k < bodies@.len() ==> Some(#[trigger] bodies@[k]) == all[k],
        decreases reversed@.len(),
    {
        let next = reversed.pop().unwrap();
        bodies.push(next);
    }
    assert(bodies@ =~= bodies_of(all));
    bodies
}

/// Ends a JSON result once the bodies of all its chunks are there.
pub fn finish_json(
    head: ResponseHead,
    rows: Vec<serde_json::Value>,
    schema: Vec<FieldSchema>,
    tag: ResultTag,
    bodies: &Vec<bytes::Bytes>,
) -> (r: (QueryState, QueryAction))
    ensures
        json_finished(head, rows@, schema@, tag, bodies@, r.0, r.1),
{
    match join_rows(rows, bodies) {
        Some(all) => {
            let value = json_from_items(all);
            let raw = RawQueryResult::Json(
                JsonResult {
                    value,
                    schema,
                    query_id: tag.query_id,
                    send_result_time: tag.send_result_time,
                    query_context: tag.query_context,
                },
            );
            (QueryState::Finished, QueryAction::Complete(in_head(head, raw)))
        },
        None => (QueryState::Finished, QueryAction::Fail(SnowflakeApiError::BrokenResponse)),
    }
}

/// Ends a binary result once the bodies of all its chunks are there.
pub fn finish_binary(
    head: ResponseHead,
    inline: Option<String>,
    tag: ResultTag,
    bodies: Vec<bytes::Bytes>,
) -> (r: (QueryState, QueryAction))
    ensures
        binary_finished(head, inline, tag, bodies@, r.0, r.1),
{
    match join_chunks(bodies, inline) {
        Ok(chunks) => {
            let raw = RawQueryResult::Bytes(
                BytesResult {
                    chunks,
                    query_id: tag.query_id,
                    send_result_time: tag.send_result_time,
                    query_context: tag.query_context,
                },
            );
            (QueryState::Finished, QueryAction::Complete(in_head(head, raw)))
        },
        Err(e) => (
            QueryState::Finished,
            QueryAction::Fail(SnowflakeApiError::ResponseDeserializationError(e)),
        ),
    }
}

/// Classifies a payload that came in the same answer, and either ends the
/// statement or asks for the chunks of the payload.
pub fn resolve_sync(head: ResponseHead, data: SyncQueryExecResponseData) -> (r: (
    QueryState,
    QueryAction,
))
    ensures
        sync_resolved(head, data, r.0, r.1),
{
    let SyncQueryExecResponseData {
        rowtype,
        rowset,
        rowset_base64,
        returned,
        query_id,
        chunks,
        chunk_headers,
        send_result_time,
        query_context,
        ..
    } = data;
    let tag = ResultTag { query_id, send_result_time, query_context };
    if returned == 0 {
        let schema = match rowtype {
            Some(t) => Some(schema_from_rowtype(t)),
            None => None,
        };
        let raw = RawQueryResult::Empty(
            EmptyJsonResult {
                schema,
                query_id: tag.query_id,
                send_result_time: tag.send_result_time,
                query_context: tag.query_context,
            },
        );
        return (QueryState::Finished, QueryAction::Complete(in_head(head, raw)));
    }
    let inline = match rowset {
        Some(v) => json_into_items(v),
        None => None,
    };
    match inline {
        Some(rows) => {
            let schema = match rowtype {
                Some(t) => schema_from_rowtype(t),
                None => Vec::new(),
            };
            if chunks.len() == 0 {
                let none: Vec<bytes::Bytes> = Vec::new();
                finish_json(head, rows, schema, tag, &none)
            } else {
                let slots = empty_slots(chunks.len());
                (
                    QueryState::FetchingJson { head, rows, schema, tag, slots },
                    QueryAction::FetchChunks { chunks, headers: chunk_headers },
                )
            }
        },
        None => {
            if rowset_base64.is_some() || chunks.len() > 0 {
                if chunks.len() == 0 {
                    finish_binary(head, rowset_base64, tag, Vec::new())
                } else {
                    let slots = empty_slots(chunks.len());
                    (
                        QueryState::FetchingBinary { head, inline: rowset_base64, tag, slots },
                        QueryAction::FetchChunks { chunks, headers: chunk_headers },
                    )
                }
            } else {
                (QueryState::Finished, QueryAction::Fail(SnowflakeApiError::BrokenResponse))
            }
        },
    }
}

/// The answer says one thing about asynchrony and carries another.
pub open spec fn mismatched(next: QueryState, action: QueryAction) -> bool {
    next is Finished && action matches QueryAction::Fail(
        SnowflakeApiError::UnexpectedAsyncQueryResponse,
    )
}

/// What becomes of the answer to a query or to a poll. `first` is the
/// envelope of the first answer where this is the answer to a poll: the
/// result comes in the envelope of the first answer.
///
/// An answer marked as asynchronous never ends the statement with a result:
/// it is polled again.
pub open spec fn answered(
    first: Option<ResponseHead>,
    response: ExecResponse,
    next: QueryState,
    action: QueryAction,
) -> bool {
    match response {
        ExecResponse::Error(e) => {
            &&& next is Finished
            &&& action matches QueryAction::Fail(err)
            &&& is_api_error(e, err)
        },
        ExecResponse::PutGet(_) => rejected(next, action),
        ExecResponse::Query(q) => {
            let head = match first {
                Some(h) => h,
                None => head_of(q),
            };
            match q.data {
                QueryExecResponseData::Async(handle) => if is_async_code(q.code) {
                    next == (QueryState::AsyncPending { head }) && action == (QueryAction::Poll {
                        url: handle.get_result_url,
                    })
                } else {
                    mismatched(next, action)
                },
                QueryExecResponseData::Sync(data) => if is_async_code(q.code) {
                    mismatched(next, action)
                } else {
                    sync_resolved(head, data, next, action)
                },
            }
        },
    }
}

/// What becomes of the answer to a staging statement.
pub open spec fn staged(response: ExecResponse, next: QueryState, action: QueryAction) -> bool {
    match response {
        ExecResponse::Error(e) => {
            &&& next is Finished
            &&& action matches QueryAction::Fail(err)
            &&& is_api_error(e, err)
        },
        ExecResponse::Query(_) => rejected(next, action),
        ExecResponse::PutGet(p) => if p.data.command is Download {
            &&& next is Finished
            &&& action matches QueryAction::Fail(SnowflakeApiError::Unimplemented(what))
            &&& what@ == download_capability()
        } else {
            next == (QueryState::Expanding {
                head: head_of(p),
                transfer: transfer_of(p.data),
                tag: transfer_tag(p.data),
            }) && action == (QueryAction::ExpandSources { patterns: p.data.src_locations })
        },
    }
}

/// Whether the body of the chunk at `index` can be taken: there is such a
/// chunk and its body has not been reported before.
pub open spec fn takes_body(slots: Seq<Option<bytes::Bytes>>, index: int) -> bool {
    0 <= index < slots.len() && slots[index] is None
}

/// What a step of the machine does: the state and the action that follow
/// from a state and an event.
pub open spec fn transition(
    state: QueryState,
    event: QueryEvent,
    next: QueryState,
    action: QueryAction,
) -> bool {
    match event {
        QueryEvent::Failed(e) => next is Finished && action == QueryAction::Fail(e),
        QueryEvent::Response(response) => match state {
            QueryState::Submitted { staging } => if staging {
                staged(response, next, action)
            } else {
                answered(None, response, next, action)
            },
            QueryState::AsyncPending { head } => answered(Some(head), response, next, action),
            _ => rejected(next, action),
        },
        QueryEvent::Chunk { index, body } => match state {
            QueryState::FetchingJson { head, rows, schema, tag, slots } => if !takes_body(
                slots@,
                index as int,
            ) {
                rejected(next, action)
            } else {
                let filled = slots@.update(index as int, Some(body));
                if all_present(filled) {
                    json_finished(head, rows@, schema@, tag, bodies_of(filled), next, action)
                } else {
                    &&& action is Pending
                    &&& next matches QueryState::FetchingJson {
                        head: h,
                        rows: r,
                        schema: s,
                        tag: t,
                        slots: l,
                    }
                    &&& h == head
                    &&& r == rows
                    &&& s == schema
                    &&& t == tag
                    &&& l@ == filled
                }
            },
            QueryState::FetchingBinary { head, inline, tag, slots } => if !takes_body(
                slots@,
                index as int,
            ) {
                rejected(next, action)
            } else {
                let filled = slots@.update(index as int, Some(body));
                if all_present(filled) {
                    binary_finished(head, inline, tag, bodies_of(filled), next, action)
                } else {
                    &&& action is Pending
                    &&& next matches QueryState::FetchingBinary {
                        head: h,
                        inline: b,
                        tag: t,
                        slots: l,
                    }
                    &&& h == head
                    &&& b == inline
                    &&& t == tag
                    &&& l@ == filled
                }
            },
            _ => rejected(next, action),
        },
        QueryEvent::Sources(files) => match state {
            QueryState::Expanding { head, transfer, tag } => {
                ||| {
                    &&& action matches QueryAction::Upload(plan)
                    &&& plan_outcome(transfer, files@, Ok(plan))
                    &&& next == (QueryState::Uploading { head, tag })
                }
                ||| {
                    &&& action matches QueryAction::Fail(e)
                    &&& plan_outcome(transfer, files@, Err(e))
                    &&& next is Finished
                }
            },
            _ => rejected(next, action),
        },
        QueryEvent::Uploaded => match state {
            QueryState::Uploading { head, tag } => {
                &&& next is Finished
                &&& action matches QueryAction::Complete(answer)
                &&& has_head(answer, head)
                &&& is_empty_result(answer.data, tag, None)
            },
            _ => rejected(next, action),
        },
    }
}

/// Refuses an event that the state has no use for.
fn reject() -> (r: (QueryState, QueryAction))
    ensures
        rejected(r.0, r.1),
{
    (QueryState::Finished, QueryAction::Fail(SnowflakeApiError::UnexpectedResponse))
}

/// Handles the answer to a query or to a poll.
fn on_answer(first: Option<ResponseHead>, response: ExecResponse) -> (r: (QueryState, QueryAction))
    ensures
        answered(first, response, r.0, r.1),
{
    match response {
        ExecResponse::Error(e) => (QueryState::Finished, QueryAction::Fail(api_error(e))),
        ExecResponse::PutGet(_) => reject(),
        ExecResponse::Query(q) => {
            let is_async = q.is_async();
            let BaseRestResponse { code, message, success, data } = q;
            let head = match first {
                Some(h) => h,
                None => ResponseHead { code, message, success },
            };
            match data {
                QueryExecResponseData::Async(handle) => {
                    if is_async {
                        (
                            QueryState::AsyncPending { head },
                            QueryAction::Poll { url: handle.get_result_url },
                        )
                    } else {
                        (
                            QueryState::Finished,
                            QueryAction::Fail(SnowflakeApiError::UnexpectedAsyncQueryResponse),
                        )
                    }
                },
                QueryExecResponseData::Sync(data) => {
                    if is_async {
                        (
                            QueryState::Finished,
                            QueryAction::Fail(SnowflakeApiError::UnexpectedAsyncQueryResponse),
                        )
                    } else {
                        resolve_sync(head, data)
                    }
                },
            }
        },
    }
}

/// Handles the answer to a staging statement.
fn on_staged(response: ExecResponse) -> (r: (QueryState, QueryAction))
    ensures
        staged(response, r.0, r.1),
{
    match response {
        ExecResponse::Error(e) => (QueryState::Finished, QueryAction::Fail(api_error(e))),
        ExecResponse::Query(_) => reject(),
        ExecResponse::PutGet(p) => {
            let BaseRestResponse { code, message, success, data } = p;
            let PutGetResponseData {
                command,
                src_locations,
                parallel,
                threshold,
                auto_compress,
                overwrite,
                source_compression,
                stage_info,
                encryption_material,
                query_id,
                send_result_time,
                query_context,
                ..
            } = data;
            match command {
                CommandType::Download => (
                    QueryState::Finished,
                    QueryAction::Fail(SnowflakeApiError::Unimplemented("GET".to_owned())),
                ),
                CommandType::Upload => (
                    QueryState::Expanding {
                        head: ResponseHead { code, message, success },
                        transfer: StageTransfer {
                            command,
                            parallel,
                            threshold,
                            auto_compress,
                            overwrite,
                            source_compression,
                            stage_info,
                            encryption_material,
                        },
                        tag: ResultTag { query_id, send_result_time, query_context },
                    },
                    QueryAction::ExpandSources { patterns: src_locations },
                ),
            }
        },
    }
}

impl QueryState {
    /// Takes one event and says what to do next.
    ///
    /// A failure that the driver reports ends the statement with that very
    /// failure. An event that the state has no use for ends it with
    /// `UnexpectedResponse`. The body of a chunk goes to the place of its
    /// chunk, whenever it arrives; the result is put together only when no
    /// place is empty, in the order of the places.
    pub fn step(self, event: QueryEvent) -> (r: (QueryState, QueryAction))
        ensures
            transition(self, event, r.0, r.1),
    {
        match event {
            QueryEvent::Failed(e) => (QueryState::Finished, QueryAction::Fail(e)),
            QueryEvent::Response(response) => match self {
                QueryState::Submitted { staging } => {
                    if staging {
                        on_staged(response)
                    } else {
                        on_answer(None, response)
                    }
                },
                QueryState::AsyncPending { head } => on_answer(Some(head), response),
                _ => reject(),
            },
            QueryEvent::Chunk { index, body } => match self {
                QueryState::FetchingJson { head, rows, schema, tag, slots } => {
                    let mut slots = slots;
                    if index >= slots.len() || slots[index].is_some() {
                        return reject();
                    }
                    slots.set(index, Some(body));
                    if is_complete(&slots) {
                        let bodies = take_bodies(slots);
                        finish_json(head, rows, schema, tag, &bodies)
                    } else {
                        (
                            QueryState::FetchingJson { head, rows, schema, tag, slots },
                            QueryAction::Pending,
                        )
                    }
                },
                QueryState::FetchingBinary { head, inline, tag, slots } => {
                    let mut slots = slots;
                    if index >= slots.len() || slots[index].is_some() {
                        return reject();
                    }
                    slots.set(index, Some(body));
                    if is_complete(&slots) {
                        let bodies = take_bodies(slots);
                        finish_binary(head, inline, tag, bodies)
                    } else {
                        (
                            QueryState::FetchingBinary { head, inline, tag, slots },
                            QueryAction::Pending,
                        )
                    }
                },
                _ => reject(),
            },
            QueryEvent::Sources(files) => match self {
                QueryState::Expanding { head, transfer, tag } => {
                    match plan_upload(transfer, &files) {
                        Ok(plan) => (QueryState::Uploading { head, tag }, QueryAction::Upload(plan)),
                        Err(e) => (QueryState::Finished, QueryAction::Fail(e)),
                    }
                },
                _ => reject(),
            },
            QueryEvent::Uploaded => match self {
                QueryState::Uploading { head, tag } => {
                    let raw = RawQueryResult::Empty(
                        EmptyJsonResult {
                            schema: None,
                            query_id: tag.query_id,
                            send_result_time: tag.send_result_time,
                            query_context: tag.query_context,
                        },
                    );
                    (QueryState::Finished, QueryAction::Complete(in_head(head, raw)))
                },
                _ => reject(),
            },
        }
    }
}

/// The places of the chunks after the bodies in `arrivals` have been put
/// where they belong, one after the other. An arrival is the position of a
/// chunk and its body; one that names no chunk changes nothing.
pub open spec fn delivered(
    slots: Seq<Option<bytes::Bytes>>,
    arrivals: Seq<(usize, bytes::Bytes)>,
) -> Seq<Option<bytes::Bytes>>
    decreases arrivals.len(),
{
    if arrivals.len() == 0 {
        slots
    } else {
        let before = delivered(slots, arrivals.drop_last());
        if arrivals.last().0 < before.len() {
            before.update(arrivals.last().0 as int, Some(arrivals.last().1))
        } else {
            before
        }
    }
}

/// Whether the body of the chunk at `place` is among the arrivals.
pub open spec fn arrives(arrivals: Seq<(usize, bytes::Bytes)>, place: int) -> bool {
    exists|j: int| 0 <= j < arrivals.len() && (#[trigger] arrivals[j]).0 == place
}

/// Whether every arrival carries the body of a chunk of `bodies`, and no
/// chunk arrives twice.
pub open spec fn arrivals_of(arrivals: Seq<(usize, bytes::Bytes)>, bodies: Seq<bytes::Bytes>) -> bool {
    &&& forall|j: int|
        0 <= j < arrivals.len() ==> (#[trigger] arrivals[j]).0 < bodies.len() && arrivals[j].1
            == bodies[arrivals[j].0 as int]
    &&& forall|j: int, k: int|
        0 <= j < k < arrivals.len() ==> (#[trigger] arrivals[j]).0 != (#[trigger] arrivals[k]).0
}

/// Whether `state` is the fetch that `origin` is, with the places `slots`.
pub open spec fn fetching_with(
    origin: QueryState,
    state: QueryState,
    slots: Seq<Option<bytes::Bytes>>,
) -> bool {
    match origin {
        QueryState::FetchingJson { head, rows, schema, tag, slots: _ } => {
            &&& state matches QueryState::FetchingJson { head: h, rows: r, schema: s, tag: t, slots: l }
            &&& h == head
            &&& r == rows
            &&& s == schema
            &&& t == tag
            &&& l@ == slots
        },
        QueryState::FetchingBinary { head, inline, tag, slots: _ } => {
            &&& state matches QueryState::FetchingBinary { head: h, inline: b, tag: t, slots: l }
            &&& h == head
            &&& b == inline
            &&& t == tag
            &&& l@ == slots
        },
        _ => false,
    }
}

/// The end of the fetch that `origin` is, with the bodies of its chunks.
pub open spec fn fetch_finished(
    origin: QueryState,
    bodies: Seq<bytes::Bytes>,
    next: QueryState,
    action: QueryAction,
) -> bool {
    match origin {
        QueryState::FetchingJson { head, rows, schema, tag, slots: _ } => json_finished(
            head,
            rows@,
            schema@,
            tag,
            bodies,
            next,
            action,
        ),
        QueryState::FetchingBinary { head, inline, tag, slots: _ } => binary_finished(
            head,
            inline,
            tag,
            bodies,
            next,
            action,
        ),
        _ => false,
    }
}

/// The machine takes the arrivals one after the other, is left waiting by
/// each but the last, and answers the last with `action`.
pub open spec fn fed(
    state: QueryState,
    arrivals: Seq<(usize, bytes::Bytes)>,
    last: QueryState,
    action: QueryAction,
) -> bool
    decreases arrivals.len(),
{
    if arrivals.len() == 0 {
        false
    } else {
        let event = QueryEvent::Chunk { index: arrivals[0].0, body: arrivals[0].1 };
        if arrivals.len() == 1 {
            transition(state, event, last, action)
        } else {
            exists|next: QueryState| #[trigger]
                transition(state, event, next, QueryAction::Pending) && fed(
                    next,
                    arrivals.skip(1),
                    last,
                    action,
                )
        }
    }
}

/// A result without rows is the empty result, whatever else the answer
/// carries, and it is handed on whatever decoding came to: no chunk is
/// read for it.
pub proof fn law_no_rows_is_empty(
    head: ResponseHead,
    data: SyncQueryExecResponseData,
    next: QueryState,
    action: QueryAction,
    decoded: Seq<Result<Vec<crate::bindings::ArrowBatch>, arrow::error::ArrowError>>,
    r: Result<QueryResult, arrow::error::ArrowError>,
)
    requires
        data.returned == 0,
        sync_resolved(head, data, next, action),
        action matches QueryAction::Complete(answer) ==> answer.data.materialized(decoded, r),
    ensures
        next is Finished,
        action matches QueryAction::Complete(answer) && answer.data is Empty,
        r matches Ok(QueryResult::Empty(e)) && e.query_id == data.query_id,
{
}

/// An answer marked as asynchronous never ends a statement with a result.
/// Where it carries a poll handle, the statement is polled at that handle
/// and goes on waiting.
pub proof fn law_async_is_polled(
    state: QueryState,
    response: ExecResponse,
    next: QueryState,
    action: QueryAction,
)
    requires
        response.spec_is_async(),
        transition(state, QueryEvent::Response(response), next, action),
    ensures
        !(action is Complete),
        action is Poll ==> next is AsyncPending,
        response matches ExecResponse::Query(q) ==> (q.data matches QueryExecResponseData::Async(
            handle,
        ) ==> (state is AsyncPending || state == (QueryState::Submitted { staging: false }))
            ==> action == (QueryAction::Poll { url: handle.get_result_url })),
{
}

/// A statement ends with a result only on an answer that is not marked as
/// asynchronous, on the body of a chunk, or on the end of a transfer.
pub proof fn law_result_needs_sync(
    state: QueryState,
    event: QueryEvent,
    next: QueryState,
    action: QueryAction,
)
    requires
        transition(state, event, next, action),
        action is Complete,
    ensures
        next is Finished,
        event matches QueryEvent::Response(r) ==> !r.spec_is_async(),
        event matches QueryEvent::Response(r) ==> (r matches ExecResponse::Query(q) && q.data is Sync),
        !(event is Failed) && !(event is Sources),
{
}

/// A failure that the driver reports is handed to the caller as it is.
pub proof fn law_failure_is_passed_on(
    state: QueryState,
    error: SnowflakeApiError,
    next: QueryState,
    action: QueryAction,
)
    requires
        transition(state, QueryEvent::Failed(error), next, action),
    ensures
        next is Finished,
        action == QueryAction::Fail(error),
{
}

/// The machine takes the answers one after the other, polls after each but
/// the last, and answers the last with `action`.
pub open spec fn polled(
    state: QueryState,
    answers: Seq<ExecResponse>,
    last: QueryState,
    action: QueryAction,
) -> bool
    decreases answers.len(),
{
    if answers.len() == 0 {
        false
    } else if answers.len() == 1 {
        transition(state, QueryEvent::Response(answers[0]), last, action)
    } else {
        exists|next: QueryState, url: String| #[trigger]
            transition(
                state,
                QueryEvent::Response(answers[0]),
                next,
                QueryAction::Poll { url },
            ) && polled(next, answers.skip(1), last, action)
    }
}

/// The step of the induction behind `law_polled_until_resolved`.
proof fn lemma_polled(
    head: ResponseHead,
    answers: Seq<ExecResponse>,
    k: int,
    state: QueryState,
    data: SyncQueryExecResponseData,
    last: QueryState,
    action: QueryAction,
)
    requires
        0 <= k < answers.len(),
        state == (QueryState::AsyncPending { head }),
        forall|i: int| 0 <= i < answers.len() - 1 ==> (#[trigger] answers[i]).spec_is_async(),
        answers.last() matches ExecResponse::Query(q) && !is_async_code(q.code) && q.data
            == QueryExecResponseData::Sync(data),
        polled(state, answers.skip(k), last, action),
    ensures
        sync_resolved(head, data, last, action),
    decreases answers.len() - k,
{
    let rest = answers.skip(k);
    assert(rest[0] == answers[k]);
    if rest.len() == 1 {
        assert(answers[k] == answers.last());
    } else {
        let (next, url) = choose|next: QueryState, url: String| #[trigger]
            transition(
                state,
                QueryEvent::Response(rest[0]),
                next,
                QueryAction::Poll { url },
            ) && polled(next, rest.skip(1), last, action);
        assert(answers[k].spec_is_async());
        assert(rest.skip(1) =~= answers.skip(k + 1));
        lemma_polled(head, answers, k + 1, next, data, last, action);
    }
}

/// A statement that is answered with a poll handle is polled until an
/// answer comes that is not marked as asynchronous, and that answer is
/// resolved in the envelope of the first one.
pub proof fn law_polled_until_resolved(
    answers: Seq<ExecResponse>,
    data: SyncQueryExecResponseData,
    last: QueryState,
    action: QueryAction,
)
    requires
        answers.len() >= 2,
        forall|i: int| 0 <= i < answers.len() - 1 ==> (#[trigger] answers[i]).spec_is_async(),
        answers.last() matches ExecResponse::Query(q) && !is_async_code(q.code) && q.data
            == QueryExecResponseData::Sync(data),
        polled(QueryState::Submitted { staging: false }, answers, last, action),
    ensures
        answers[0] matches ExecResponse::Query(first) && sync_resolved(
            head_of(first),
            data,
            last,
            action,
        ),
{
    let start = QueryState::Submitted { staging: false };
    let (next, url) = choose|next: QueryState, url: String| #[trigger]
        transition(
            start,
            QueryEvent::Response(answers[0]),
            next,
            QueryAction::Poll { url },
        ) && polled(next, answers.skip(1), last, action);
    assert(answers[0].spec_is_async());
    let first = answers[0]->Query_0;
    lemma_polled(head_of(first), answers, 1, next, data, last, action);
}

/// Putting bodies in place does not change the number of places.
pub proof fn lemma_delivered_len(
    slots: Seq<Option<bytes::Bytes>>,
    arrivals: Seq<(usize, bytes::Bytes)>,
)
    ensures
        delivered(slots, arrivals).len() == slots.len(),
    decreases arrivals.len(),
{
    if arrivals.len() > 0 {
        lemma_delivered_len(slots, arrivals.drop_last());
    }
}

/// Putting bodies in place leaves a place that no arrival names as it was.
pub proof fn lemma_delivered_elsewhere(
    slots: Seq<Option<bytes::Bytes>>,
    arrivals: Seq<(usize, bytes::Bytes)>,
    place: int,
)
    requires
        0 <= place < slots.len(),
        forall|j: int| 0 <= j < arrivals.len() ==> (#[trigger] arrivals[j]).0 != place,
    ensures
        delivered(slots, arrivals)[place] == slots[place],
    decreases arrivals.len(),
{
    if arrivals.len() > 0 {
        let before = arrivals.drop_last();
        assert forall|j: int| 0 <= j < before.len() implies (#[trigger] before[j]).0 != place by {
            assert(before[j] == arrivals[j]);
        }
        lemma_delivered_elsewhere(slots, before, place);
        lemma_delivered_len(slots, before);
        assert(arrivals.last() == arrivals[arrivals.len() - 1]);
    }
}

/// Where every arrival carries the body of the chunk it names, a place that
/// some arrival names holds the body of its chunk.
pub proof fn lemma_delivered_here(
    bodies: Seq<bytes::Bytes>,
    arrivals: Seq<(usize, bytes::Bytes)>,
    place: int,
)
    requires
        0 <= place < bodies.len(),
        forall|j: int|
            0 <= j < arrivals.len() ==> (#[trigger] arrivals[j]).0 < bodies.len() && arrivals[j].1
                == bodies[arrivals[j].0 as int],
        arrives(arrivals, place),
    ensures
        delivered(no_bodies(bodies.len()), arrivals)[place] == Some(bodies[place]),
    decreases arrivals.len(),
{
    let before = arrivals.drop_last();
    let last = arrivals.last();
    assert(last == arrivals[arrivals.len() - 1]);
    lemma_delivered_len(no_bodies(bodies.len()), before);
    if last.0 != place {
        let j = choose|j: int| 0 <= j < arrivals.len() && (#[trigger] arrivals[j]).0 == place;
        assert(before[j] == arrivals[j]);
        assert forall|k: int| 0 <= k < before.len() implies (#[trigger] before[k]).0
            < bodies.len() && before[k].1 == bodies[before[k].0 as int] by {
            assert(before[k] == arrivals[k]);
        }
        lemma_delivered_here(bodies, before, place);
    }
}

/// Once every chunk has arrived, each with its own body, the bodies stand
/// in the order in which the chunks were declared, whatever the order of
/// the arrivals.
pub proof fn law_arrival_order_is_irrelevant(
    bodies: Seq<bytes::Bytes>,
    arrivals: Seq<(usize, bytes::Bytes)>,
)
    requires
        forall|j: int|
            0 <= j < arrivals.len() ==> (#[trigger] arrivals[j]).0 < bodies.len() && arrivals[j].1
                == bodies[arrivals[j].0 as int],
        forall|i: int| 0 <= i < bodies.len() ==> #[trigger] arrives(arrivals, i),
    ensures
        all_present(delivered(no_bodies(bodies.len()), arrivals)),
        bodies_of(delivered(no_bodies(bodies.len()), arrivals)) == bodies,
{
    let places = delivered(no_bodies(bodies.len()), arrivals);
    lemma_delivered_len(no_bodies(bodies.len()), arrivals);
    assert forall|i: int| 0 <= i < places.len() implies (#[trigger] places[i]) == Some(
        bodies[i],
    ) by {
        assert(arrives(arrivals, i));
        lemma_delivered_here(bodies, arrivals, i);
    }
    assert(bodies_of(places) =~= bodies);
}

/// The step of the induction behind `law_chunks_in_any_order`: the machine
/// has taken the first `k` arrivals and takes the others.
proof fn lemma_fed(
    origin: QueryState,
    bodies: Seq<bytes::Bytes>,
    arrivals: Seq<(usize, bytes::Bytes)>,
    k: int,
    state: QueryState,
    last: QueryState,
    action: QueryAction,
)
    requires
        arrivals_of(arrivals, bodies),
        forall|i: int| 0 <= i < bodies.len() ==> #[trigger] arrives(arrivals, i),
        0 <= k < arrivals.len(),
        fetching_with(origin, state, delivered(no_bodies(bodies.len()), arrivals.take(k))),
        fed(state, arrivals.skip(k), last, action),
    ensures
        fetch_finished(origin, bodies, last, action),
    decreases arrivals.len() - k,
{
    let empty = no_bodies(bodies.len());
    let taken = arrivals.take(k);
    let slots = delivered(empty, taken);
    let current = arrivals[k];
    let rest = arrivals.skip(k);
    lemma_delivered_len(empty, taken);
    assert forall|j: int| 0 <= j < taken.len() implies (#[trigger] taken[j]).0 != current.0 by {
        assert(taken[j] == arrivals[j]);
    }
    lemma_delivered_elsewhere(empty, taken, current.0 as int);
    assert(takes_body(slots, current.0 as int));
    let filled = slots.update(current.0 as int, Some(current.1));
    assert(filled == delivered(empty, arrivals.take(k + 1))) by {
        assert(arrivals.take(k + 1).drop_last() =~= taken);
        assert(arrivals.take(k + 1).last() == current);
    }
    assert(rest[0] == current);
    if rest.len() == 1 {
        assert(arrivals.take(k + 1) =~= arrivals);
        law_arrival_order_is_irrelevant(bodies, arrivals);
    } else {
        let event = QueryEvent::Chunk { index: rest[0].0, body: rest[0].1 };
        let next = choose|next: QueryState| #[trigger]
            transition(state, event, next, QueryAction::Pending) && fed(
                next,
                rest.skip(1),
                last,
                action,
            );
        assert(rest.skip(1) =~= arrivals.skip(k + 1));
        lemma_fed(origin, bodies, arrivals, k + 1, next, last, action);
    }
}

/// The chunks of a result may arrive in any order: once the machine has
/// taken the body of every chunk, each once, it ends the statement with the
/// bodies in the order in which the chunks were declared.
pub proof fn law_chunks_in_any_order(
    origin: QueryState,
    bodies: Seq<bytes::Bytes>,
    arrivals: Seq<(usize, bytes::Bytes)>,
    last: QueryState,
    action: QueryAction,
)
    requires
        fetching_with(origin, origin, no_bodies(bodies.len())),
        bodies.len() > 0,
        arrivals_of(arrivals, bodies),
        forall|i: int| 0 <= i < bodies.len() ==> #[trigger] arrives(arrivals, i),
        fed(origin, arrivals, last, action),
    ensures
        fetch_finished(origin, bodies, last, action),
{
    assert(arrivals.take(0) =~= Seq::<(usize, bytes::Bytes)>::empty());
    assert(arrivals.skip(0) =~= arrivals);
    lemma_fed(origin, bodies, arrivals, 0, origin, last, action);
}

} // verus!
