//! Results: the raw form the resolver produces, and the form the caller gets.

use crate::bindings::{
    arrow_ipc_error, arrow_stream_batches, bytes_as_slice, bytes_content, bytes_to_batches,
    ipc_error, json_text, json_to_text, ArrowBatch,
};
use crate::ipc::{is_sound_stream, sound_stream};
use crate::error::SnowflakeApiError;
use crate::responses::{
    BaseRestResponse, ExecResponseRowType, ExecRestResponse, QueryContext, SnowflakeType,
};
use vstd::prelude::*;
use vstd::std_specs::convert::FromSpecImpl;

verus! {

/// One column of a result. The position of a field in its schema is the
/// position of the column in every row.
#[derive(Debug)]
pub struct FieldSchema {
    pub name: String,
    pub type_: SnowflakeType,
    pub scale: Option<i64>,
    pub precision: Option<i64>,
    pub nullable: bool,
}

impl From<ExecResponseRowType> for FieldSchema {
    fn from(value: ExecResponseRowType) -> (r: Self) {
        FieldSchema {
            name: value.name,
            type_: value.type_,
            scale: value.scale,
            precision: value.precision,
            nullable: value.nullable,
        }
    }
}

impl FromSpecImpl<ExecResponseRowType> for FieldSchema {
    open spec fn obeys_from_spec() -> bool {
        true
    }

    open spec fn from_spec(value: ExecResponseRowType) -> Self {
        field_of(value)
    }
}

/// The field that one column description stands for.
pub open spec fn field_of(column: ExecResponseRowType) -> FieldSchema {
    FieldSchema {
        name: column.name,
        type_: column.type_,
        scale: column.scale,
        precision: column.precision,
        nullable: column.nullable,
    }
}

/// The schema that a row type describes: one field per column, in order.
pub open spec fn schema_of(rowtype: Seq<ExecResponseRowType>) -> Seq<FieldSchema> {
    rowtype.map_values(|t: ExecResponseRowType| field_of(t))
}

/// Turns a row type into a schema, keeping the order of the columns.
pub fn schema_from_rowtype(rowtype: Vec<ExecResponseRowType>) -> (schema: Vec<FieldSchema>)
    ensures
        schema@ == schema_of(rowtype@),
{
    let ghost all = rowtype@;
    let mut rest = rowtype;
    let mut reversed: Vec<FieldSchema> = Vec::new();
    while rest.len() > 0
        invariant
            rest@.len() <= all.len(),
            rest@ == all.subrange(0, rest@.len() as int),
            reversed@.len() == all.len() - rest@.len(),
            forall|k: int|
                0 <= k < reversed@.len() ==> reversed@[k] == field_of(all[all.len() - 1 - k]),
        decreases rest@.len(),
    {
        let last = rest.pop().unwrap();
        reversed.push(FieldSchema::from(last));
    }
    let mut schema: Vec<FieldSchema> = Vec::new();
    while reversed.len() > 0
        invariant
            reversed@.len() + schema@.len() == all.len(),
            forall|k: int|
                0 <= k < reversed@.len() ==> reversed@[k] == field_of(all[all.len() - 1 - k]),
            forall|k: int| 0 <= k < schema@.len() ==> schema@[k] == field_of(all[k]),
        decreases reversed@.len(),
    {
        let next = reversed.pop().unwrap();
        schema.push(next);
    }
    assert(schema@ =~= schema_of(all));
    schema
}

/// A result without rows.
#[derive(Debug)]
pub struct EmptyJsonResult {
    pub schema: Option<Vec<FieldSchema>>,
    pub query_id: String,
    pub send_result_time: usize,
    pub query_context: QueryContext,
}

/// A result whose rows came as JSON: `value` is an array of rows, each an
/// array in schema order.
#[derive(Debug)]
pub struct JsonResult {
    pub value: serde_json::Value,
    pub schema: Vec<FieldSchema>,
    pub query_id: String,
    pub send_result_time: usize,
    pub query_context: QueryContext,
}

impl JsonResult {
    /// The rows as JSON text.
    pub fn to_text(&self) -> (text: String)
        ensures
            text@ == json_text(self.value),
    {
        json_to_text(&self.value)
    }
}

/// A result whose rows came as columnar streams, not yet decoded.
#[derive(Debug)]
pub struct BytesResult {
    pub chunks: Vec<bytes::Bytes>,
    pub query_id: String,
    pub send_result_time: usize,
    pub query_context: QueryContext,
}

/// A result decoded into columnar batches.
#[derive(Debug)]
pub struct ArrowResult {
    pub batches: Vec<ArrowBatch>,
    pub query_id: String,
    pub send_result_time: usize,
    pub query_context: QueryContext,
}

/// What the caller gets.
#[derive(Debug)]
pub enum QueryResult {
    Arrow(ArrowResult),
    Json(JsonResult),
    Empty(EmptyJsonResult),
}

/// What the resolver produces: the caller's result with the binary payload
/// still undecoded.
#[derive(Debug)]
pub enum RawQueryResult {
    Bytes(BytesResult),
    Json(JsonResult),
    Empty(EmptyJsonResult),
}

/// What an unsound stream is refused with.
pub open spec fn unsound_stream_message() -> Seq<char> {
    "A buffer of the stream does not lie inside the body of its message"@
}

/// Whether the decoder returns on a chunk that reaches it. A chunk that is
/// not sound never reaches it.
pub open spec fn reader_returns(content: Seq<u8>) -> bool {
    sound_stream(content) ==> arrow_stream_batches(content) is Some
}

/// The batches of one chunk, read as one stream. A stream that is not
/// sound is refused before it is read. Of a chunk on which the decoder
/// does not return nothing is said.
pub open spec fn chunk_batches(content: Seq<u8>) -> Result<Seq<ArrowBatch>, arrow::error::ArrowError> {
    if sound_stream(content) {
        match arrow_stream_batches(content) {
            Some(outcome) => outcome,
            None => arbitrary(),
        }
    } else {
        Err(arrow_ipc_error(unsound_stream_message()))
    }
}

/// Whether `outcome` is what decoding a chunk with this content comes to.
pub open spec fn is_outcome_of(
    outcome: Result<Vec<ArrowBatch>, arrow::error::ArrowError>,
    content: Seq<u8>,
) -> bool {
    match (outcome, chunk_batches(content)) {
        (Ok(v), Ok(s)) => v@ == s,
        (Err(e), Err(f)) => e == f,
        _ => false,
    }
}

/// The first error among the outcomes, in their order; `None` where every
/// chunk was decoded.
pub open spec fn first_error(
    decoded: Seq<Result<Vec<ArrowBatch>, arrow::error::ArrowError>>,
) -> Option<arrow::error::ArrowError>
    decreases decoded.len(),
{
    if decoded.len() == 0 {
        None
    } else {
        match first_error(decoded.drop_last()) {
            Some(e) => Some(e),
            None => match decoded.last() {
                Err(e) => Some(e),
                Ok(_) => None,
            },
        }
    }
}

/// The batches of all outcomes, in the order of the outcomes and inside
/// each in the order of its stream.
pub open spec fn flattened(
    decoded: Seq<Result<Vec<ArrowBatch>, arrow::error::ArrowError>>,
) -> Seq<ArrowBatch>
    decreases decoded.len(),
{
    if decoded.len() == 0 {
        Seq::empty()
    } else {
        flattened(decoded.drop_last()) + match decoded.last() {
            Ok(batches) => batches@,
            Err(_) => Seq::empty(),
        }
    }
}

/// Decodes one chunk as a stream of its own. The stream is checked first:
/// where a buffer of one of its messages does not lie inside the body of
/// the message, the chunk is refused and the decoder does not see it.
///
/// A sound chunk goes to the decoder, and the decoder has to return on it.
/// Whether it does cannot be told from the bytes by anything short of the
/// decoder; a caller who cannot know it has `refuse_unsound`.
pub fn chunk_to_batches(chunk: &bytes::Bytes) -> (r: Result<
    Vec<ArrowBatch>,
    arrow::error::ArrowError,
>)
    requires
        reader_returns(bytes_content(*chunk)),
    ensures
        is_outcome_of(r, bytes_content(*chunk)),
{
    if is_sound_stream(bytes_as_slice(chunk)) {
        bytes_to_batches(chunk)
    } else {
        Err(ipc_error("A buffer of the stream does not lie inside the body of its message"))
    }
}

/// Gives the outcome of a chunk that is not sound: the refusal. Of a sound
/// chunk it says nothing, because that takes the decoder.
pub fn refuse_unsound(chunk: &bytes::Bytes) -> (r: Option<
    Result<Vec<ArrowBatch>, arrow::error::ArrowError>,
>)
    ensures
        match r {
            Some(outcome) => !sound_stream(bytes_content(*chunk)) && outcome == Err::<
                Vec<ArrowBatch>,
                arrow::error::ArrowError,
            >(arrow_ipc_error(unsound_stream_message())),
            None => sound_stream(bytes_content(*chunk)),
        },
{
    if is_sound_stream(bytes_as_slice(chunk)) {
        None
    } else {
        Some(chunk_to_batches(chunk))
    }
}

impl RawQueryResult {
    /// What `deserialize_arrow` makes of a result and the outcomes of
    /// decoding its chunks.
    pub open spec fn materialized(
        self,
        decoded: Seq<Result<Vec<ArrowBatch>, arrow::error::ArrowError>>,
        r: Result<QueryResult, arrow::error::ArrowError>,
    ) -> bool {
        match self {
            RawQueryResult::Bytes(b) => match first_error(decoded) {
                Some(e) => r == Err::<QueryResult, arrow::error::ArrowError>(e),
                None => {
                    &&& r matches Ok(QueryResult::Arrow(a))
                    &&& a.batches@ == flattened(decoded)
                    &&& a.query_id == b.query_id
                    &&& a.send_result_time == b.send_result_time
                    &&& a.query_context == b.query_context
                },
            },
            RawQueryResult::Json(j) => r == Ok::<QueryResult, arrow::error::ArrowError>(
                QueryResult::Json(j),
            ),
            RawQueryResult::Empty(e) => r == Ok::<QueryResult, arrow::error::ArrowError>(
                QueryResult::Empty(e),
            ),
        }
    }

    /// Turns a raw result into the result for the caller. `decoded` holds
    /// what decoding the chunks of a binary result came to, chunk by chunk
    /// in chunk order: the batches of all chunks are flattened into one
    /// sequence, and the first chunk that did not decode fails the whole
    /// result, so that no batch of any chunk is handed out. A JSON or empty
    /// result is handed on as it is, whatever `decoded` holds.
    pub fn deserialize_arrow(
        self,
        decoded: Vec<Result<Vec<ArrowBatch>, arrow::error::ArrowError>>,
    ) -> (r: Result<QueryResult, arrow::error::ArrowError>)
        ensures
            self.materialized(decoded@, r),
            r is Err <==> self is Bytes && exists|i: int|
                0 <= i < decoded@.len() && (#[trigger] decoded@[i]) is Err,
    {
        proof {
            lemma_first_error(decoded@);
        }
        match self {
            RawQueryResult::Bytes(bytes_result) => {
                let BytesResult { chunks: _, query_id, send_result_time, query_context } =
                    bytes_result;
                match Self::flat_bytes_to_batches(decoded) {
                    Ok(batches) => Ok(
                        QueryResult::Arrow(
                            ArrowResult { batches, query_id, send_result_time, query_context },
                        ),
                    ),
                    Err(e) => Err(e),
                }
            },
            RawQueryResult::Json(j) => Ok(QueryResult::Json(j)),
            RawQueryResult::Empty(e) => Ok(QueryResult::Empty(e)),
        }
    }

    /// Flattens the outcomes of the chunks into one sequence of batches, or
    /// gives the first error among them.
    pub fn flat_bytes_to_batches(
        decoded: Vec<Result<Vec<ArrowBatch>, arrow::error::ArrowError>>,
    ) -> (r: Result<Vec<ArrowBatch>, arrow::error::ArrowError>)
        ensures
            match first_error(decoded@) {
                Some(e) => r == Err::<Vec<ArrowBatch>, arrow::error::ArrowError>(e),
                None => r matches Ok(v) && v@ == flattened(decoded@),
            },
    {
        let ghost all = decoded@;
        let total = decoded.len();
        let mut rest = decoded;
        let mut reversed: Vec<Result<Vec<ArrowBatch>, arrow::error::ArrowError>> = Vec::new();
        while rest.len() > 0
            invariant
                rest@.len() + reversed@.len() == all.len(),
                rest@ == all.take(rest@.len() as int),
                forall|k: int|
                    0 <= k < reversed@.len() ==> #[trigger] reversed@[k] == all[all.len() - 1 - k],
            decreases rest@.len(),
        {
            let last = rest.pop().unwrap();
            reversed.push(last);
        }
        let mut res: Vec<ArrowBatch> = Vec::new();
        let mut i: usize = 0;
        while reversed.len() > 0
            invariant
                all == decoded@,
                all.len() == total,
                i + reversed@.len() == all.len(),
                forall|k: int|
                    0 <= k < reversed@.len() ==> #[trigger] reversed@[k] == all[all.len() - 1 - k],
                first_error(all.take(i as int)) is None,
                res@ == flattened(all.take(i as int)),
            decreases reversed@.len(),
        {
            let outcome = reversed.pop().unwrap();
            proof {
                assert(outcome == all[i as int]);
                assert(all.take(i + 1).drop_last() =~= all.take(i as int));
                assert(all.take(i + 1).last() == all[i as int]);
            }
            match outcome {
                Ok(mut batches) => {
                    res.append(&mut batches);
                },
                Err(e) => {
                    proof {
                        lemma_first_error_stays(all, i + 1);
                    }
                    return Err(e);
                },
            }
            i += 1;
        }
        proof {
            assert(all.take(i as int) =~= all);
        }
        Ok(res)
    }
}

impl BaseRestResponse<RawQueryResult> {
    /// What `materialize` makes of an answer and the outcomes of decoding
    /// the chunks of its result.
    pub open spec fn materialized(
        self,
        decoded: Seq<Result<Vec<ArrowBatch>, arrow::error::ArrowError>>,
        r: Result<ExecRestResponse, SnowflakeApiError>,
    ) -> bool {
        match r {
            Ok(answer) => {
                &&& answer.code == self.code
                &&& answer.message == self.message
                &&& answer.success == self.success
                &&& self.data.materialized(decoded, Ok(answer.data))
            },
            Err(SnowflakeApiError::ArrowError(e)) => self.data.materialized(decoded, Err(e)),
            Err(_) => false,
        }
    }

    /// Turns the raw result of an answer into the result for the caller,
    /// in the same envelope. `decoded` holds what decoding the chunks of a
    /// binary result came to, in chunk order.
    pub fn materialize(
        self,
        decoded: Vec<Result<Vec<ArrowBatch>, arrow::error::ArrowError>>,
    ) -> (r: Result<ExecRestResponse, SnowflakeApiError>)
        ensures
            self.materialized(decoded@, r),
            r is Err <==> self.data is Bytes && exists|i: int|
                0 <= i < decoded@.len() && (#[trigger] decoded@[i]) is Err,
            r is Err ==> r matches Err(SnowflakeApiError::ArrowError(_)),
    {
        let BaseRestResponse { code, message, success, data } = self;
        match data.deserialize_arrow(decoded) {
            Ok(data) => Ok(BaseRestResponse { code, message, success, data }),
            Err(e) => Err(SnowflakeApiError::ArrowError(e)),
        }
    }
}

/// Once there is an error among the first `n` outcomes, it is the first
/// error among all of them.
pub proof fn lemma_first_error_stays(
    decoded: Seq<Result<Vec<ArrowBatch>, arrow::error::ArrowError>>,
    n: int,
)
    requires
        0 <= n <= decoded.len(),
        first_error(decoded.take(n)) is Some,
    ensures
        first_error(decoded) == first_error(decoded.take(n)),
    decreases decoded.len() - n,
{
    if n == decoded.len() {
        assert(decoded.take(n) =~= decoded);
    } else {
        assert(decoded.take(n + 1).drop_last() =~= decoded.take(n));
        lemma_first_error_stays(decoded, n + 1);
    }
}

/// The batches of all chunks in chunk order, each chunk read as one stream
/// of its own; the error of the first chunk that is not a stream.
pub open spec fn decoded_batches(chunks: Seq<bytes::Bytes>) -> Result<
    Seq<ArrowBatch>,
    arrow::error::ArrowError,
>
    decreases chunks.len(),
{
    if chunks.len() == 0 {
        Ok(Seq::empty())
    } else {
        match decoded_batches(chunks.drop_last()) {
            Err(e) => Err(e),
            Ok(head) => match chunk_batches(bytes_content(chunks.last())) {
                Err(e) => Err(e),
                Ok(tail) => Ok(head + tail),
            },
        }
    }
}

/// Whether `decoded` holds, chunk by chunk, what decoding `chunks` comes
/// to.
pub open spec fn outcomes_of(
    decoded: Seq<Result<Vec<ArrowBatch>, arrow::error::ArrowError>>,
    chunks: Seq<bytes::Bytes>,
) -> bool {
    &&& decoded.len() == chunks.len()
    &&& forall|i: int|
        0 <= i < decoded.len() ==> is_outcome_of(#[trigger] decoded[i], bytes_content(chunks[i]))
}

/// Where the outcomes are those of the chunks, the batches come in chunk
/// order, and inside a chunk in the order of its stream; and the first
/// error is that of the first chunk that does not decode.
pub proof fn law_batches_in_chunk_order(
    decoded: Seq<Result<Vec<ArrowBatch>, arrow::error::ArrowError>>,
    chunks: Seq<bytes::Bytes>,
)
    requires
        outcomes_of(decoded, chunks),
    ensures
        match decoded_batches(chunks) {
            Ok(batches) => first_error(decoded) is None && flattened(decoded) == batches,
            Err(e) => first_error(decoded) == Some(e),
        },
    decreases decoded.len(),
{
    if decoded.len() > 0 {
        let before = decoded.drop_last();
        let earlier = chunks.drop_last();
        assert forall|i: int| 0 <= i < before.len() implies is_outcome_of(
            #[trigger] before[i],
            bytes_content(earlier[i]),
        ) by {
            assert(before[i] == decoded[i]);
            assert(earlier[i] == chunks[i]);
        }
        law_batches_in_chunk_order(before, earlier);
        let last = decoded.len() - 1;
        assert(is_outcome_of(decoded[last], bytes_content(chunks[last])));
        assert(decoded.last() == decoded[last]);
        assert(chunks.last() == chunks[last]);
    }
}

/// The result is an error exactly when some chunk did not decode, and then
/// it is the error of the first such chunk; else it holds the batches of
/// every chunk.
pub proof fn law_error_iff_a_chunk_fails(
    raw: RawQueryResult,
    decoded: Seq<Result<Vec<ArrowBatch>, arrow::error::ArrowError>>,
    r: Result<QueryResult, arrow::error::ArrowError>,
)
    requires
        raw.materialized(decoded, r),
    ensures
        r is Err <==> raw is Bytes && exists|i: int| 0 <= i < decoded.len() && (
        #[trigger] decoded[i]) is Err,
        r matches Err(e) ==> exists|i: int|
            0 <= i < decoded.len() && #[trigger] decoded[i] == Err::<
                Vec<ArrowBatch>,
                arrow::error::ArrowError,
            >(e) && forall|j: int| 0 <= j < i ==> (#[trigger] decoded[j]) is Ok,
{
    lemma_first_error(decoded);
}

/// The first error is the error of the first outcome that is one; there is
/// none exactly where every outcome is a success.
pub proof fn lemma_first_error(decoded: Seq<Result<Vec<ArrowBatch>, arrow::error::ArrowError>>)
    ensures
        first_error(decoded) is None <==> forall|i: int|
            0 <= i < decoded.len() ==> (#[trigger] decoded[i]) is Ok,
        first_error(decoded) matches Some(e) ==> exists|i: int|
            0 <= i < decoded.len() && #[trigger] decoded[i] == Err::<
                Vec<ArrowBatch>,
                arrow::error::ArrowError,
            >(e) && forall|j: int| 0 <= j < i ==> (#[trigger] decoded[j]) is Ok,
    decreases decoded.len(),
{
    if decoded.len() > 0 {
        let before = decoded.drop_last();
        lemma_first_error(before);
        assert forall|i: int| 0 <= i < before.len() implies before[i] == decoded[i] by {}
        match first_error(before) {
            Some(e) => {
                let i = choose|i: int|
                    0 <= i < before.len() && #[trigger] before[i] == Err::<
                        Vec<ArrowBatch>,
                        arrow::error::ArrowError,
                    >(e) && forall|j: int| 0 <= j < i ==> (#[trigger] before[j]) is Ok;
                assert(decoded[i] == before[i]);
                assert forall|j: int| 0 <= j < i implies (#[trigger] decoded[j]) is Ok by {
                    assert(decoded[j] == before[j]);
                }
            },
            None => {
                assert forall|j: int| 0 <= j < before.len() implies (#[trigger] decoded[j]) is Ok by {
                    assert(decoded[j] == before[j]);
                }
                let last = decoded.len() - 1;
                assert(decoded.last() == decoded[last]);
            },
        }
    }
}

} // verus!
