use arrow::array::{ArrayRef, Int32Array};
use arrow::datatypes::{DataType, Field, Schema};
use arrow::ipc::writer::StreamWriter;
use arrow::record_batch::RecordBatch;
use bytes::Bytes;
use snowflake_api::executor::{QueryAction, QueryEvent, QueryState, ResponseHead, ResultTag};
use snowflake_api::responses::{
    AsyncQueryExecResponseData, AwsCredentials, AwsPutGetStageInfo, BaseRestResponse, CommandType,
    EncryptionMaterialVariant, ExecErrorResponseData, ExecResponse, ExecResponseChunk,
    ExecResponseRowType, ExecRestResponse, ProcessedRestResponse, PutGetEncryptionMaterial, PutGetResponseData,
    PutGetStageInfo, QueryContext, QueryContextEntry, QueryExecResponseData, SnowflakeType,
    SyncQueryExecResponseData,
};
use snowflake_api::results::chunk_to_batches;
use snowflake_api::stage::LocalFile;
use snowflake_api::{QueryResult, RawQueryResult, SnowflakeApi, SnowflakeApiError};
use std::collections::HashMap;
use std::sync::Arc;

fn json(text: &str) -> serde_json::Value {
    serde_json::from_str(text).unwrap()
}

fn stream(values: Vec<i32>) -> Vec<u8> {
    let schema = Arc::new(Schema::new(vec![Field::new("n", DataType::Int32, false)]));
    let column: ArrayRef = Arc::new(Int32Array::from(values));
    let batch = RecordBatch::try_new(schema.clone(), vec![column]).unwrap();
    let mut buffer = Vec::new();
    {
        let mut writer = StreamWriter::try_new(&mut buffer, &schema).unwrap();
        writer.write(&batch).unwrap();
        writer.finish().unwrap();
    }
    buffer
}

fn base64_of(bytes: &[u8]) -> String {
    base64::Engine::encode(&base64::engine::general_purpose::STANDARD, bytes)
}

fn column(name: &str) -> ExecResponseRowType {
    ExecResponseRowType {
        name: name.to_owned(),
        byte_length: None,
        length: None,
        type_: SnowflakeType::Fixed,
        scale: Some(0),
        precision: Some(38),
        nullable: false,
    }
}

fn chunk(url: &str) -> ExecResponseChunk {
    ExecResponseChunk { url: url.to_owned(), row_count: 1, uncompressed_size: 1 }
}

fn payload(returned: i64) -> SyncQueryExecResponseData {
    let mut headers = HashMap::new();
    headers.insert("x-key".to_owned(), "v".to_owned());
    SyncQueryExecResponseData {
        parameters: None,
        rowtype: Some(vec![column("N")]),
        rowset: None,
        rowset_base64: None,
        total: returned,
        returned,
        query_id: "query-1".to_owned(),
        database_provider: None,
        final_database_name: None,
        final_schema_name: None,
        final_warehouse_name: None,
        final_role_name: None,
        number_of_binds: None,
        statement_type_id: None,
        version: None,
        chunks: Vec::new(),
        qrmk: None,
        chunk_headers: headers,
        result_ids: None,
        send_result_time: 17,
        query_context: QueryContext {
            entries: vec![QueryContextEntry { id: 0, timestamp: 5 }],
        },
    }
}

fn answer(code: Option<&str>, data: QueryExecResponseData) -> ExecResponse {
    ExecResponse::Query(BaseRestResponse {
        code: code.map(str::to_owned),
        message: Some("done".to_owned()),
        success: true,
        data,
    })
}

fn sync(data: SyncQueryExecResponseData) -> ExecResponse {
    answer(None, QueryExecResponseData::Sync(data))
}

fn handle(url: &str) -> QueryExecResponseData {
    QueryExecResponseData::Async(AsyncQueryExecResponseData {
        query_id: "query-1".to_owned(),
        get_result_url: url.to_owned(),
        query_aborts_after_secs: 300,
    })
}

fn rejection(message: Option<&str>) -> ExecResponse {
    ExecResponse::Error(BaseRestResponse {
        code: Some("001003".to_owned()),
        message: message.map(str::to_owned),
        success: false,
        data: ExecErrorResponseData {
            age: 0,
            error_code: "001003".to_owned(),
            internal_error: false,
            line: Some(1),
            pos: Some(0),
            query_id: "query-9".to_owned(),
            sql_state: "42000".to_owned(),
        },
    })
}

fn transfer(command: CommandType, location: &str) -> ExecResponse {
    ExecResponse::PutGet(BaseRestResponse {
        code: None,
        message: Some("staged".to_owned()),
        success: true,
        data: PutGetResponseData {
            command,
            local_location: None,
            src_locations: vec!["/tmp/a.csv".to_owned()],
            parallel: 4,
            threshold: 64,
            auto_compress: true,
            overwrite: true,
            source_compression: "none".to_owned(),
            stage_info: PutGetStageInfo::Aws(AwsPutGetStageInfo {
                location_type: "S3".to_owned(),
                location: location.to_owned(),
                region: "eu-west-1".to_owned(),
                creds: AwsCredentials {
                    aws_key_id: "id".to_owned(),
                    aws_secret_key: "secret".to_owned(),
                    aws_token: "token".to_owned(),
                    aws_id: "id".to_owned(),
                    aws_key: "secret".to_owned(),
                },
                end_point: None,
            }),
            encryption_material: EncryptionMaterialVariant::Single(PutGetEncryptionMaterial {
                query_stage_master_key: "key".to_owned(),
                query_id: "put-1".to_owned(),
                smk_id: 1,
            }),
            presigned_urls: Vec::new(),
            parameters: Vec::new(),
            statement_type_id: None,
            query_id: "put-1".to_owned(),
            send_result_time: 3,
            query_context: QueryContext { entries: Vec::new() },
        },
    })
}

fn query() -> QueryState {
    QueryState::Submitted { staging: false }
}

fn staging() -> QueryState {
    QueryState::Submitted { staging: true }
}

fn completed(action: QueryAction) -> ProcessedRestResponse {
    match action {
        QueryAction::Complete(answer) => answer,
        other => panic!("{:?}", other),
    }
}

fn failed(action: QueryAction) -> SnowflakeApiError {
    match action {
        QueryAction::Fail(e) => e,
        other => panic!("{:?}", other),
    }
}

fn materialize(raw: ProcessedRestResponse) -> Result<ExecRestResponse, SnowflakeApiError> {
    let decoded = match &raw.data {
        RawQueryResult::Bytes(result) => result.chunks.iter().map(chunk_to_batches).collect(),
        _ => Vec::new(),
    };
    raw.materialize(decoded)
}

fn api() -> SnowflakeApi {
    SnowflakeApi::with_password_auth("acct", None, None, None, "user", None, "pw").unwrap()
}

#[test]
fn select_one_gives_one_batch_one_row_one_column() {
    let (state, _) = api().exec_raw("SELECT 1");
    let mut data = payload(1);
    data.rowset_base64 = Some(base64_of(&stream(vec![1])));
    let (next, action) = state.step(QueryEvent::Response(sync(data)));
    assert!(matches!(next, QueryState::Finished));
    let raw = completed(action);
    assert_eq!(raw.message.as_deref(), Some("done"));
    assert!(raw.success);
    let decoded = materialize(raw).unwrap();
    assert_eq!(decoded.message.as_deref(), Some("done"));
    match decoded.data {
        QueryResult::Arrow(result) => {
            assert_eq!(result.query_id, "query-1");
            assert_eq!(result.send_result_time, 17);
            assert_eq!(result.query_context.entries.len(), 1);
            assert_eq!(result.batches.len(), 1);
            assert_eq!(result.batches[0].batch.num_rows(), 1);
            assert_eq!(result.batches[0].batch.num_columns(), 1);
        }
        other => panic!("{:?}", other),
    }
}

#[test]
fn no_rows_returned_is_the_empty_result() {
    let mut data = payload(0);
    data.rowset = Some(json("[[1]]"));
    data.rowset_base64 = Some("not base64 and never read".to_owned());
    data.chunks = vec![chunk("https://chunks/0")];
    let (next, action) = query().step(QueryEvent::Response(sync(data)));
    assert!(matches!(next, QueryState::Finished));
    let raw = completed(action);
    match materialize(raw).unwrap().data {
        QueryResult::Empty(empty) => {
            assert_eq!(empty.query_id, "query-1");
            assert_eq!(empty.send_result_time, 17);
            let schema = empty.schema.unwrap();
            assert_eq!(schema.len(), 1);
            assert_eq!(schema[0].name, "N");
            assert_eq!(schema[0].precision, Some(38));
        }
        other => panic!("{:?}", other),
    }
}

#[test]
fn the_empty_result_has_no_schema_where_the_answer_has_none() {
    let mut data = payload(0);
    data.rowtype = None;
    let (_, action) = query().step(QueryEvent::Response(sync(data)));
    match completed(action).data {
        RawQueryResult::Empty(empty) => assert!(empty.schema.is_none()),
        other => panic!("{:?}", other),
    }
}

#[test]
fn inline_json_without_chunks_is_a_json_result() {
    let mut data = payload(2);
    data.rowtype = Some(vec![column("A"), column("B")]);
    data.rowset = Some(json("[[1,\"x\"],[2,\"y\"]]"));
    data.rowset_base64 = Some(base64_of(&stream(vec![1])));
    let (next, action) = query().step(QueryEvent::Response(sync(data)));
    assert!(matches!(next, QueryState::Finished));
    match materialize(completed(action)).unwrap().data {
        QueryResult::Json(result) => {
            assert_eq!(result.value, json("[[1,\"x\"],[2,\"y\"]]"));
            assert_eq!(result.schema.len(), 2);
            assert_eq!(result.schema[0].name, "A");
            assert_eq!(result.schema[1].name, "B");
            assert_eq!(result.query_id, "query-1");
        }
        other => panic!("{:?}", other),
    }
}

#[test]
fn a_json_result_without_row_type_has_no_columns() {
    let mut data = payload(1);
    data.rowtype = None;
    data.rowset = Some(json("[[1]]"));
    let (_, action) = query().step(QueryEvent::Response(sync(data)));
    match completed(action).data {
        RawQueryResult::Json(result) => assert!(result.schema.is_empty()),
        other => panic!("{:?}", other),
    }
}

#[test]
fn json_chunks_are_joined_in_declaration_order_whatever_the_arrival_order() {
    for order in [[0, 1, 2], [2, 1, 0], [1, 2, 0], [2, 0, 1]] {
        let mut data = payload(7);
        data.rowset = Some(json("[[0]]"));
        data.chunks = vec![chunk("u0"), chunk("u1"), chunk("u2")];
        let (mut state, action) = query().step(QueryEvent::Response(sync(data)));
        match action {
            QueryAction::FetchChunks { chunks, headers } => {
                let urls: Vec<&str> = chunks.iter().map(|c| c.url.as_str()).collect();
                assert_eq!(urls, vec!["u0", "u1", "u2"]);
                assert_eq!(headers.get("x-key").map(String::as_str), Some("v"));
            }
            other => panic!("{:?}", other),
        }
        let bodies = ["[1], [2]", "[3]", "[4], [5], [6]"];
        let mut last = None;
        for (n, index) in order.iter().enumerate() {
            let body = Bytes::from_static(bodies[*index].as_bytes());
            let (next, action) = state.step(QueryEvent::Chunk { index: *index, body });
            state = next;
            if n < 2 {
                assert!(matches!(action, QueryAction::Pending), "{:?}", order);
                assert!(matches!(state, QueryState::FetchingJson { .. }));
            } else {
                last = Some(action);
            }
        }
        assert!(matches!(state, QueryState::Finished));
        match completed(last.unwrap()).data {
            RawQueryResult::Json(result) => {
                assert_eq!(result.value, json("[[0],[1],[2],[3],[4],[5],[6]]"), "{:?}", order);
            }
            other => panic!("{:?}", other),
        }
    }
}

#[test]
fn a_cell_that_holds_a_separator_comes_back_unchanged() {
    let mut data = payload(1);
    data.rowtype = Some(Vec::new());
    data.rowset = Some(json("[]"));
    data.chunks = vec![chunk("u0")];
    let (state, _) = query().step(QueryEvent::Response(sync(data)));
    let body = Bytes::from_static(b"[\"a], [b\"]");
    let (_, action) = state.step(QueryEvent::Chunk { index: 0, body });
    match completed(action).data {
        RawQueryResult::Json(result) => assert_eq!(result.value, json("[[\"a], [b\"]]")),
        other => panic!("{:?}", other),
    }
}

#[test]
fn the_boundary_between_rows_causes_no_parse_failure() {
    let mut data = payload(3);
    data.rowset = Some(json("[[0,0]]"));
    data.chunks = vec![chunk("u0")];
    let (state, _) = query().step(QueryEvent::Response(sync(data)));
    let body = Bytes::from_static(b"[1,2], [3,4]");
    let (_, action) = state.step(QueryEvent::Chunk { index: 0, body });
    match completed(action).data {
        RawQueryResult::Json(result) => {
            assert_eq!(result.value, json("[[0,0],[1,2],[3,4]]"));
        }
        other => panic!("{:?}", other),
    }
}

#[test]
fn binary_chunks_keep_declaration_order_and_the_inline_blob_comes_last() {
    for order in [[0, 1], [1, 0]] {
        let mut data = payload(3);
        data.rowset_base64 = Some(base64_of(&stream(vec![30])));
        data.chunks = vec![chunk("u0"), chunk("u1")];
        let (mut state, action) = query().step(QueryEvent::Response(sync(data)));
        assert!(matches!(action, QueryAction::FetchChunks { .. }));
        assert!(matches!(state, QueryState::FetchingBinary { .. }));
        let bodies = [stream(vec![10]), stream(vec![20, 21])];
        let mut last = None;
        for index in order {
            let body = Bytes::from(bodies[index].clone());
            let (next, action) = state.step(QueryEvent::Chunk { index, body });
            state = next;
            last = Some(action);
        }
        let raw = completed(last.unwrap());
        match &raw.data {
            RawQueryResult::Bytes(result) => {
                assert_eq!(result.chunks.len(), 3);
                assert_eq!(result.chunks[0], Bytes::from(bodies[0].clone()));
                assert_eq!(result.chunks[1], Bytes::from(bodies[1].clone()));
                assert_eq!(result.chunks[2], Bytes::from(stream(vec![30])));
            }
            other => panic!("{:?}", other),
        }
        match materialize(raw).unwrap().data {
            QueryResult::Arrow(result) => {
                let rows: Vec<usize> = result.batches.iter().map(|b| b.batch.num_rows()).collect();
                assert_eq!(rows, vec![1, 2, 1]);
            }
            other => panic!("{:?}", other),
        }
    }
}

#[test]
fn chunks_without_inline_payload_are_a_binary_result() {
    let mut data = payload(1);
    data.chunks = vec![chunk("u0")];
    let (state, action) = query().step(QueryEvent::Response(sync(data)));
    assert!(matches!(action, QueryAction::FetchChunks { .. }));
    let body = Bytes::from(stream(vec![1, 2, 3]));
    let (_, action) = state.step(QueryEvent::Chunk { index: 0, body });
    match completed(action).data {
        RawQueryResult::Bytes(result) => assert_eq!(result.chunks.len(), 1),
        other => panic!("{:?}", other),
    }
}

#[test]
fn an_empty_inline_blob_adds_no_chunk() {
    let mut data = payload(1);
    data.rowset_base64 = Some(String::new());
    let (_, action) = query().step(QueryEvent::Response(sync(data)));
    match materialize(completed(action)).unwrap().data {
        QueryResult::Arrow(result) => assert!(result.batches.is_empty()),
        other => panic!("{:?}", other),
    }
}

#[test]
fn a_rowset_that_is_no_array_is_not_a_json_payload() {
    let mut data = payload(1);
    data.rowset = Some(json("{\"a\":1}"));
    let (_, action) = query().step(QueryEvent::Response(sync(data)));
    assert!(matches!(failed(action), SnowflakeApiError::BrokenResponse));

    let mut data = payload(1);
    data.rowset = Some(json("null"));
    data.rowset_base64 = Some(base64_of(&stream(vec![1])));
    let (_, action) = query().step(QueryEvent::Response(sync(data)));
    assert!(matches!(completed(action).data, RawQueryResult::Bytes(_)));
}

#[test]
fn a_payload_of_no_shape_is_a_broken_response() {
    let (next, action) = query().step(QueryEvent::Response(sync(payload(1))));
    assert!(matches!(next, QueryState::Finished));
    assert!(matches!(failed(action), SnowflakeApiError::BrokenResponse));
}

#[test]
fn an_inline_blob_that_is_no_base64_fails_the_result() {
    let mut data = payload(1);
    data.rowset_base64 = Some("%%%".to_owned());
    let (_, action) = query().step(QueryEvent::Response(sync(data)));
    assert!(matches!(failed(action), SnowflakeApiError::ResponseDeserializationError(_)));
}

#[test]
fn a_json_chunk_that_does_not_parse_fails_the_result() {
    let mut data = payload(2);
    data.rowset = Some(json("[[0]]"));
    data.chunks = vec![chunk("u0")];
    let (state, _) = query().step(QueryEvent::Response(sync(data)));
    let (next, action) =
        state.step(QueryEvent::Chunk { index: 0, body: Bytes::from_static(b"[1") });
    assert!(matches!(next, QueryState::Finished));
    assert!(matches!(failed(action), SnowflakeApiError::BrokenResponse));
}

#[test]
fn a_chunk_that_is_no_stream_fails_the_decoding() {
    let mut data = payload(1);
    data.chunks = vec![chunk("u0")];
    let (state, _) = query().step(QueryEvent::Response(sync(data)));
    let (_, action) =
        state.step(QueryEvent::Chunk { index: 0, body: Bytes::from_static(b"garbage") });
    let err = materialize(completed(action)).unwrap_err();
    assert!(matches!(err, SnowflakeApiError::ArrowError(_)));
}

#[test]
fn an_async_answer_is_polled_until_a_result_comes() {
    let first = ExecResponse::Query(BaseRestResponse {
        code: Some("333334".to_owned()),
        message: Some("first".to_owned()),
        success: true,
        data: handle("/result/1"),
    });
    let (state, action) = query().step(QueryEvent::Response(first));
    assert!(matches!(&action, QueryAction::Poll { url } if url == "/result/1"));
    assert!(matches!(state, QueryState::AsyncPending { .. }));

    let again = answer(Some("333333"), handle("/result/2"));
    let (state, action) = state.step(QueryEvent::Response(again));
    assert!(matches!(&action, QueryAction::Poll { url } if url == "/result/2"));
    assert!(matches!(state, QueryState::AsyncPending { .. }));

    let mut data = payload(1);
    data.rowset = Some(json("[[1]]"));
    let (state, action) = state.step(QueryEvent::Response(sync(data)));
    assert!(matches!(state, QueryState::Finished));
    let raw = completed(action);
    assert_eq!(raw.code.as_deref(), Some("333334"));
    assert_eq!(raw.message.as_deref(), Some("first"));
    assert!(matches!(raw.data, RawQueryResult::Json(_)));
}

#[test]
fn an_async_code_on_a_result_is_a_mismatch() {
    let (next, action) =
        query().step(QueryEvent::Response(answer(
            Some("333333"),
            QueryExecResponseData::Sync(payload(0)),
        )));
    assert!(matches!(next, QueryState::Finished));
    assert!(matches!(failed(action), SnowflakeApiError::UnexpectedAsyncQueryResponse));
}

#[test]
fn a_poll_handle_without_async_code_is_a_mismatch() {
    let (_, action) = query().step(QueryEvent::Response(answer(None, handle("/result/1"))));
    assert!(matches!(failed(action), SnowflakeApiError::UnexpectedAsyncQueryResponse));
}

#[test]
fn an_error_answer_is_an_api_error() {
    let (next, action) = query().step(QueryEvent::Response(rejection(Some("syntax error"))));
    assert!(matches!(next, QueryState::Finished));
    match failed(action) {
        SnowflakeApiError::ApiError { code, message, query_id } => {
            assert_eq!(code, "001003");
            assert_eq!(message, "syntax error");
            assert_eq!(query_id, "query-9");
        }
        other => panic!("{:?}", other),
    }
}

#[test]
fn an_error_answer_without_message_has_an_empty_message() {
    let (_, action) = staging().step(QueryEvent::Response(rejection(None)));
    assert!(matches!(
        failed(action),
        SnowflakeApiError::ApiError { message, .. } if message.is_empty()
    ));
}

#[test]
fn an_error_while_polling_ends_the_statement() {
    let state = QueryState::AsyncPending {
        head: ResponseHead { code: None, message: None, success: true },
    };
    let (next, action) = state.step(QueryEvent::Response(rejection(Some("aborted"))));
    assert!(matches!(next, QueryState::Finished));
    assert!(matches!(failed(action), SnowflakeApiError::ApiError { .. }));
}

#[test]
fn a_transfer_where_a_query_was_expected_is_unexpected() {
    let (_, action) =
        query().step(QueryEvent::Response(transfer(CommandType::Upload, "bucket/stage/")));
    assert!(matches!(failed(action), SnowflakeApiError::UnexpectedResponse));
}

#[test]
fn a_query_where_a_transfer_was_expected_is_unexpected() {
    let (_, action) = staging().step(QueryEvent::Response(sync(payload(0))));
    assert!(matches!(failed(action), SnowflakeApiError::UnexpectedResponse));
}

#[test]
fn put_of_one_file_uploads_once_and_gives_the_empty_result() {
    let (state, query_type) = api().exec_raw("PUT file:///tmp/a.csv @mystage");
    assert!(matches!(query_type, snowflake_api::executor::QueryType::JsonQuery));
    let (state, action) =
        state.step(QueryEvent::Response(transfer(CommandType::Upload, "bucket/stage/")));
    assert!(matches!(&action, QueryAction::ExpandSources { patterns } if patterns == &["/tmp/a.csv"]));
    assert!(matches!(state, QueryState::Expanding { .. }));

    let files = vec![LocalFile { path: "/tmp/a.csv".to_owned(), size: 12 }];
    let (state, action) = state.step(QueryEvent::Sources(files));
    match action {
        QueryAction::Upload(plan) => {
            assert_eq!(plan.stage.provider(), "aws");
            assert_eq!(plan.bucket, "bucket");
            assert_eq!(plan.parallel, 4);
            assert!(plan.overwrite);
            assert_eq!(plan.files.len(), 1);
            assert_eq!(plan.files[0].source, "/tmp/a.csv");
            assert_eq!(plan.files[0].destination, "stage/a.csv");
            assert_eq!(plan.files[0].material.query_stage_master_key, "key");
            assert!(plan.files[0].compress);
            assert!(!plan.files[0].multipart);
        }
        other => panic!("{:?}", other),
    }
    assert!(matches!(state, QueryState::Uploading { .. }));

    let (state, action) = state.step(QueryEvent::Uploaded);
    assert!(matches!(state, QueryState::Finished));
    let raw = completed(action);
    assert_eq!(raw.message.as_deref(), Some("staged"));
    match materialize(raw).unwrap().data {
        QueryResult::Empty(empty) => {
            assert_eq!(empty.query_id, "put-1");
            assert_eq!(empty.send_result_time, 3);
            assert!(empty.schema.is_none());
        }
        other => panic!("{:?}", other),
    }
}

#[test]
fn a_download_is_refused_before_anything_is_expanded() {
    let (next, action) =
        staging().step(QueryEvent::Response(transfer(CommandType::Download, "bucket/stage/")));
    assert!(matches!(next, QueryState::Finished));
    assert!(matches!(failed(action), SnowflakeApiError::Unimplemented(what) if what == "GET"));
}

#[test]
fn a_transfer_that_cannot_be_planned_fails() {
    let (state, _) = staging().step(QueryEvent::Response(transfer(CommandType::Upload, "bucket")));
    let files = vec![LocalFile { path: "/tmp/a.csv".to_owned(), size: 12 }];
    let (next, action) = state.step(QueryEvent::Sources(files));
    assert!(matches!(next, QueryState::Finished));
    assert!(matches!(failed(action), SnowflakeApiError::InvalidBucketPath(l) if l == "bucket"));
}

#[test]
fn a_failed_upload_fails_the_statement() {
    let state = QueryState::Uploading {
        head: ResponseHead { code: None, message: None, success: true },
        tag: ResultTag {
            query_id: "put-1".to_owned(),
            send_result_time: 0,
            query_context: QueryContext { entries: Vec::new() },
        },
    };
    let error = SnowflakeApiError::ObjectStoreError("denied".to_owned());
    let (next, action) = state.step(QueryEvent::Failed(error));
    assert!(matches!(next, QueryState::Finished));
    assert!(matches!(failed(action), SnowflakeApiError::ObjectStoreError(m) if m == "denied"));
}

#[test]
fn a_transport_failure_is_passed_on_as_it_is() {
    for state in [query(), staging(), QueryState::Finished] {
        let error = SnowflakeApiError::RequestError("connection reset".to_owned());
        let (next, action) = state.step(QueryEvent::Failed(error));
        assert!(matches!(next, QueryState::Finished));
        assert!(
            matches!(failed(action), SnowflakeApiError::RequestError(m) if m == "connection reset")
        );
    }
}

#[test]
fn a_chunk_that_was_not_asked_for_is_unexpected() {
    let body = Bytes::from_static(b"[1]");
    let (_, action) = query().step(QueryEvent::Chunk { index: 0, body });
    assert!(matches!(failed(action), SnowflakeApiError::UnexpectedResponse));

    let mut data = payload(2);
    data.rowset = Some(json("[[0]]"));
    data.chunks = vec![chunk("u0"), chunk("u1")];
    let (state, _) = query().step(QueryEvent::Response(sync(data)));
    let body = Bytes::from_static(b"[1]");
    let (next, action) = state.step(QueryEvent::Chunk { index: 2, body });
    assert!(matches!(next, QueryState::Finished));
    assert!(matches!(failed(action), SnowflakeApiError::UnexpectedResponse));
}

#[test]
fn a_chunk_reported_twice_is_unexpected() {
    let mut data = payload(2);
    data.rowset = Some(json("[[0]]"));
    data.chunks = vec![chunk("u0"), chunk("u1")];
    let (state, _) = query().step(QueryEvent::Response(sync(data)));
    let (state, action) =
        state.step(QueryEvent::Chunk { index: 1, body: Bytes::from_static(b"[1]") });
    assert!(matches!(action, QueryAction::Pending));
    let (next, action) =
        state.step(QueryEvent::Chunk { index: 1, body: Bytes::from_static(b"[1]") });
    assert!(matches!(next, QueryState::Finished));
    assert!(matches!(failed(action), SnowflakeApiError::UnexpectedResponse));
}

#[test]
fn events_out_of_place_are_unexpected() {
    let (_, action) = query().step(QueryEvent::Uploaded);
    assert!(matches!(failed(action), SnowflakeApiError::UnexpectedResponse));
    let (_, action) = query().step(QueryEvent::Sources(Vec::new()));
    assert!(matches!(failed(action), SnowflakeApiError::UnexpectedResponse));
    let (_, action) = QueryState::Finished.step(QueryEvent::Response(sync(payload(0))));
    assert!(matches!(failed(action), SnowflakeApiError::UnexpectedResponse));
}
