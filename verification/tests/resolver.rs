use bytes::Bytes;
use snowflake_api::resolver::{
    chunk_rows, extend_rows, join_chunks, join_rows, normalize, stitch_fragment,
};

fn json(text: &str) -> serde_json::Value {
    serde_json::from_str(text).unwrap()
}

fn rows(text: &str) -> Vec<serde_json::Value> {
    serde_json::from_str(text).unwrap()
}

#[test]
fn separator_between_two_rows_is_normalized() {
    let doc = stitch_fragment(b"[1,2], [3,4]");
    assert_eq!(doc, b"[[1,2],[3,4]]".to_vec());
}

#[test]
fn a_separator_inside_a_string_is_left_as_it_is() {
    let doc = stitch_fragment(b"[\"a], [b\"]");
    assert_eq!(doc, b"[[\"a], [b\"]]".to_vec());
    let rows = chunk_rows(&Bytes::from_static(b"[\"a], [b\"]")).unwrap();
    assert_eq!(rows, vec![json("[\"a], [b\"]")]);
}

#[test]
fn an_escaped_quote_does_not_close_a_string() {
    // The literal holds `x\"], [y` and is followed by a separator.
    let text = b"[\"x\\\"], [y\"], [1]".to_vec();
    assert_eq!(normalize(&text), b"[\"x\\\"], [y\"],[1]".to_vec());
    // A backslash that is itself escaped does not escape the quote.
    let text = b"[\"x\\\\\"], [1]".to_vec();
    assert_eq!(normalize(&text), b"[\"x\\\\\"],[1]".to_vec());
}

#[test]
fn separators_around_strings_are_rewritten() {
    let text = b"[\"], [\"], [\"], [\"]".to_vec();
    assert_eq!(normalize(&text), b"[\"], [\"],[\"], [\"]".to_vec());
}

#[test]
fn normalize_rewrites_every_separator_between_elements() {
    let text = b"[1], [2], [3]".to_vec();
    assert_eq!(normalize(&text), b"[1],[2],[3]".to_vec());
}

#[test]
fn normalize_leaves_other_text_alone() {
    for text in ["", "]", "], ", "],[", "] ,[", "],  [", "a], b"] {
        let bytes = text.as_bytes().to_vec();
        assert_eq!(normalize(&bytes), bytes, "{}", text);
    }
}

#[test]
fn normalize_handles_separators_back_to_back() {
    let text = b"], [], [".to_vec();
    assert_eq!(normalize(&text), b"],[],[".to_vec());
}

#[test]
fn stitch_of_empty_body_is_empty_array() {
    assert_eq!(stitch_fragment(b""), b"[]".to_vec());
}

#[test]
fn stitch_normalizes_across_the_added_brackets() {
    // The closing bracket of the last row and the bracket that is added do
    // not make a separator, but a body that ends in `], ` does.
    assert_eq!(stitch_fragment(b", [1]"), b"[, [1]]".to_vec());
    assert_eq!(stitch_fragment(b"], [1"), b"[],[1]".to_vec());
}

#[test]
fn chunk_rows_parses_a_fragment() {
    let body = Bytes::from_static(b"[1,\"a\"], [2,\"b\"]");
    let parsed = chunk_rows(&body).unwrap();
    assert_eq!(parsed, rows("[[1,\"a\"],[2,\"b\"]]"));
}

#[test]
fn chunk_rows_of_flat_values() {
    let body = Bytes::from_static(b"3,4");
    assert_eq!(chunk_rows(&body).unwrap(), rows("[3,4]"));
}

#[test]
fn chunk_rows_rejects_what_is_no_array_body() {
    assert!(chunk_rows(&Bytes::from_static(b"[1,2")).is_none());
    assert!(chunk_rows(&Bytes::from_static(b"1,")).is_none());
}

#[test]
fn chunk_rows_reads_invalid_utf8_lossily() {
    let body = Bytes::from_static(b"\"\xff\"");
    let parsed = chunk_rows(&body).unwrap();
    assert_eq!(parsed, vec![json("\"\u{fffd}\"")]);
}

#[test]
fn extend_rows_appends_in_order() {
    let all = extend_rows(rows("[1,2]"), Some(rows("[3,4]"))).unwrap();
    assert_eq!(all, rows("[1,2,3,4]"));
}

#[test]
fn extend_rows_without_more_is_none() {
    assert!(extend_rows(rows("[1,2]"), None).is_none());
}

#[test]
fn inline_and_chunk_values_concatenate_in_order() {
    let bodies = vec![Bytes::from_static(b"3,4")];
    let all = join_rows(rows("[1,2]"), &bodies).unwrap();
    assert_eq!(all, rows("[1,2,3,4]"));
}

#[test]
fn join_rows_keeps_chunk_order() {
    let bodies = vec![
        Bytes::from_static(b"[2], [3]"),
        Bytes::from_static(b"[4]"),
        Bytes::from_static(b"[5], [6]"),
    ];
    let all = join_rows(rows("[[1]]"), &bodies).unwrap();
    assert_eq!(all, rows("[[1],[2],[3],[4],[5],[6]]"));
}

#[test]
fn join_rows_without_chunks_is_the_inline_rows() {
    let all = join_rows(rows("[[1],[2]]"), &Vec::new()).unwrap();
    assert_eq!(all, rows("[[1],[2]]"));
}

#[test]
fn join_rows_fails_on_one_bad_chunk() {
    let bodies = vec![Bytes::from_static(b"[2]"), Bytes::from_static(b"[3")];
    assert!(join_rows(rows("[[1]]"), &bodies).is_none());
}

#[test]
fn join_chunks_appends_the_inline_blob_last() {
    let bodies = vec![Bytes::from_static(b"first"), Bytes::from_static(b"second")];
    let chunks = join_chunks(bodies, Some("aGVsbG8=".to_owned())).unwrap();
    assert_eq!(
        chunks,
        vec![
            Bytes::from_static(b"first"),
            Bytes::from_static(b"second"),
            Bytes::from_static(b"hello"),
        ]
    );
}

#[test]
fn join_chunks_skips_an_empty_blob() {
    let bodies = vec![Bytes::from_static(b"only")];
    let chunks = join_chunks(bodies, Some(String::new())).unwrap();
    assert_eq!(chunks, vec![Bytes::from_static(b"only")]);
}

#[test]
fn join_chunks_without_blob_is_the_remote_chunks() {
    let bodies = vec![Bytes::from_static(b"a"), Bytes::from_static(b"b")];
    let chunks = join_chunks(bodies, None).unwrap();
    assert_eq!(chunks, vec![Bytes::from_static(b"a"), Bytes::from_static(b"b")]);
}

#[test]
fn join_chunks_decodes_the_blob() {
    let chunks = join_chunks(Vec::new(), Some("AAEC/w==".to_owned())).unwrap();
    assert_eq!(chunks, vec![Bytes::from_static(&[0, 1, 2, 255])]);
}

#[test]
fn join_chunks_fails_on_a_blob_that_is_no_base64() {
    let err = join_chunks(Vec::new(), Some("not base64!".to_owned())).unwrap_err();
    assert!(matches!(err, base64::DecodeError::InvalidByte(3, b' ')));
}
