//! Reassembly of a chunked result into one logical result.
//!
//! A large result comes as an inline part and a list of remote chunks. A JSON
//! chunk is the body of an array without its enclosing brackets, and between
//! two of its elements it may hold the separator `], [`. Each chunk is
//! bracketed, the separators between its elements are written as `],[`, and
//! only then is it parsed. What stands inside a string literal is a cell of
//! the result and is never touched.

use crate::bindings::{
    base64_decode, base64_standard_decode, bytes_content, bytes_from_vec, bytes_to_vec,
    json_parse_items, json_text_items, utf8_lossy, utf8_lossy_text,
};
use vstd::prelude::*;

verus! {

/// The four bytes `], [`.
pub open spec fn separator() -> Seq<u8> {
    seq![0x5du8, 0x2cu8, 0x20u8, 0x5bu8]
}

/// The three bytes `],[`.
pub open spec fn joint() -> Seq<u8> {
    seq![0x5du8, 0x2cu8, 0x5bu8]
}

/// `body` between `[` and `]`.
pub open spec fn bracketed(body: Seq<u8>) -> Seq<u8> {
    seq![0x5bu8] + body + seq![0x5du8]
}

/// The byte `"`, which opens and closes a string literal.
pub open spec fn quote() -> u8 {
    0x22u8
}

/// The byte `\`, which escapes the byte after it inside a string literal.
pub open spec fn backslash() -> u8 {
    0x5cu8
}

/// What is written for `text` by a scan from the left that stands inside a
/// string literal or not (`inside`), and right after an escaping backslash
/// or not (`escaped`).
///
/// Outside a literal a `], [` is written as `],[`; every other byte is
/// written as it is, and a quote opens a literal. Inside a literal every
/// byte is written as it is, and a quote that is not escaped closes the
/// literal.
pub open spec fn scanned(text: Seq<u8>, inside: bool, escaped: bool) -> Seq<u8>
    decreases text.len(),
{
    if text.len() == 0 {
        text
    } else if inside {
        seq![text[0]] + scanned(
            text.skip(1),
            escaped || text[0] != quote(),
            !escaped && text[0] == backslash(),
        )
    } else if text.len() >= 4 && text.subrange(0, 4) == separator() {
        joint() + scanned(text.skip(4), false, false)
    } else {
        seq![text[0]] + scanned(text.skip(1), text[0] == quote(), false)
    }
}

/// `text` with the `], [` between its elements written as `],[`. What
/// stands inside a string literal is left as it is.
pub open spec fn normalized(text: Seq<u8>) -> Seq<u8> {
    scanned(text, false, false)
}

/// The JSON document that the body of one chunk stands for.
pub open spec fn stitched(body: Seq<u8>) -> Seq<u8> {
    normalized(bracketed(body))
}

/// The rows of one chunk: its stitched body, read as text and parsed as one
/// JSON array. `None` where that text is no JSON array.
pub open spec fn fragment_rows(body: Seq<u8>) -> Option<Seq<serde_json::Value>> {
    json_text_items(utf8_lossy_text(stitched(body)))
}

/// The inline rows followed by the rows of every chunk, in chunk order.
/// `None` as soon as one chunk has no rows to give.
pub open spec fn joined_rows(inline: Seq<serde_json::Value>, bodies: Seq<bytes::Bytes>) -> Option<
    Seq<serde_json::Value>,
>
    decreases bodies.len(),
{
    if bodies.len() == 0 {
        Some(inline)
    } else {
        match joined_rows(inline, bodies.drop_last()) {
            None => None,
            Some(head) => extended(head, fragment_rows(bytes_content(bodies.last()))),
        }
    }
}

/// `rows` followed by the rows of one more chunk.
pub open spec fn extended(
    rows: Seq<serde_json::Value>,
    more: Option<Seq<serde_json::Value>>,
) -> Option<Seq<serde_json::Value>> {
    match more {
        None => None,
        Some(tail) => Some(rows + tail),
    }
}

/// The chunks of a binary result: the remote bodies in chunk order, and after
/// them the inline blob where there is one and it is not empty.
pub open spec fn joined_chunks(bodies: Seq<bytes::Bytes>, inline: Option<String>) -> Result<
    Seq<Seq<u8>>,
    base64::DecodeError,
> {
    let remote = bodies.map_values(|b: bytes::Bytes| bytes_content(b));
    match inline {
        Some(text) if text@.len() > 0 => match base64_standard_decode(text@) {
            Ok(blob) => Ok(remote.push(blob)),
            Err(e) => Err(e),
        },
        _ => Ok(remote),
    }
}

/// Puts the body of a chunk between brackets and rewrites its separators.
pub fn stitch_fragment(body: &[u8]) -> (doc: Vec<u8>)
    ensures
        doc@ == stitched(body@),
{
    let mut wrapped: Vec<u8> = Vec::new();
    wrapped.push(0x5bu8);
    let mut k: usize = 0;
    while k < body.len()
        invariant
            k <= body@.len(),
            wrapped@ == seq![0x5bu8] + body@.take(k as int),
        decreases body@.len() - k,
    {
        wrapped.push(body[k]);
        proof {
            assert(body@.take(k + 1) =~= body@.take(k as int).push(body@[k as int]));
            assert(wrapped@ =~= seq![0x5bu8] + body@.take(k + 1));
        }
        k += 1;
    }
    wrapped.push(0x5du8);
    proof {
        assert(body@.take(k as int) =~= body@);
        assert(wrapped@ =~= bracketed(body@));
    }
    normalize(&wrapped)
}

/// Writes the `], [` between the elements of `text` as `],[` and leaves
/// what stands inside a string literal as it is.
pub fn normalize(text: &Vec<u8>) -> (out: Vec<u8>)
    ensures
        out@ == normalized(text@),
{
    let n = text.len();
    let mut out: Vec<u8> = Vec::new();
    let mut i: usize = 0;
    let mut inside = false;
    let mut escaped = false;
    proof {
        assert(text@.skip(0) =~= text@);
        assert(out@ + normalized(text@) =~= normalized(text@));
    }
    while i < n
        invariant
            n == text@.len(),
            i <= n,
            escaped ==> inside,
            normalized(text@) == out@ + scanned(text@.skip(i as int), inside, escaped),
        decreases n - i,
    {
        let ghost rest = text@.skip(i as int);
        let byte = text[i];
        if inside {
            proof {
                assert(rest.skip(1) =~= text@.skip(i + 1));
                assert(out@ + (seq![rest[0]] + scanned(
                    rest.skip(1),
                    escaped || byte != quote(),
                    !escaped && byte == backslash(),
                )) =~= out@.push(byte) + scanned(
                    rest.skip(1),
                    escaped || byte != quote(),
                    !escaped && byte == backslash(),
                ));
            }
            out.push(byte);
            let closes = !escaped && byte == 0x22u8;
            let escapes = !escaped && byte == 0x5cu8;
            inside = !closes;
            escaped = escapes;
            i += 1;
        } else if n - i >= 4 && byte == 0x5du8 && text[i + 1] == 0x2cu8 && text[i + 2] == 0x20u8
            && text[i + 3] == 0x5bu8 {
            proof {
                assert(rest.subrange(0, 4) =~= separator());
                assert(rest.skip(4) =~= text@.skip(i + 4));
                assert(out@ + (joint() + scanned(rest.skip(4), false, false)) =~= out@.push(
                    0x5du8,
                ).push(0x2cu8).push(0x5bu8) + scanned(rest.skip(4), false, false));
            }
            out.push(0x5du8);
            out.push(0x2cu8);
            out.push(0x5bu8);
            i += 4;
        } else {
            proof {
                assert(rest.skip(1) =~= text@.skip(i + 1));
                if rest.len() >= 4 {
                    assert(rest.subrange(0, 4) != separator()) by {
                        if rest.subrange(0, 4) == separator() {
                            assert(rest.subrange(0, 4)[0] == 0x5du8);
                            assert(rest.subrange(0, 4)[1] == 0x2cu8);
                            assert(rest.subrange(0, 4)[2] == 0x20u8);
                            assert(rest.subrange(0, 4)[3] == 0x5bu8);
                        }
                    }
                }
                assert(out@ + (seq![rest[0]] + scanned(rest.skip(1), byte == quote(), false))
                    =~= out@.push(byte) + scanned(rest.skip(1), byte == quote(), false));
            }
            out.push(byte);
            inside = byte == 0x22u8;
            i += 1;
        }
    }
    proof {
        assert(text@.skip(i as int) =~= Seq::<u8>::empty());
        assert(out@ + Seq::<u8>::empty() =~= out@);
    }
    out
}

/// Reads the rows out of the body of one chunk.
pub fn chunk_rows(body: &bytes::Bytes) -> (rows: Option<Vec<serde_json::Value>>)
    ensures
        match (rows, fragment_rows(bytes_content(*body))) {
            (Some(v), Some(s)) => v@ == s,
            (None, None) => true,
            _ => false,
        },
{
    let raw = bytes_to_vec(body);
    let doc = stitch_fragment(raw.as_slice());
    let text = utf8_lossy(doc.as_slice());
    json_parse_items(text.as_str())
}

/// Appends the rows of one more chunk, where it has rows to give.
pub fn extend_rows(rows: Vec<serde_json::Value>, more: Option<Vec<serde_json::Value>>) -> (r:
    Option<Vec<serde_json::Value>>)
    ensures
        match more {
            None => r is None,
            Some(tail) => r matches Some(all) && all@ == rows@ + tail@,
        },
{
    match more {
        None => None,
        Some(mut tail) => {
            let mut all = rows;
            all.append(&mut tail);
            Some(all)
        },
    }
}

/// Concatenates the inline rows and the rows of the chunks, in chunk order.
/// The order of `bodies` is the order in which the chunks were declared.
pub fn join_rows(inline: Vec<serde_json::Value>, bodies: &Vec<bytes::Bytes>) -> (r: Option<
    Vec<serde_json::Value>,
>)
    ensures
        match (r, joined_rows(inline@, bodies@)) {
            (Some(v), Some(s)) => v@ == s,
            (None, None) => true,
            _ => false,
        },
{
    let ghost first = inline@;
    let mut rows = inline;
    let mut i: usize = 0;
    while i < bodies.len()
        invariant
            i <= bodies@.len(),
            first == inline@,
            joined_rows(first, bodies@.take(i as int)) == Some(rows@),
        decreases bodies@.len() - i,
    {
        proof {
            assert(bodies@.take(i + 1).drop_last() =~= bodies@.take(i as int));
            assert(bodies@.take(i + 1).last() == bodies@[i as int]);
        }
        let ghost head = rows@;
        let more = chunk_rows(&bodies[i]);
        proof {
            assert(joined_rows(first, bodies@.take(i + 1)) == extended(
                head,
                fragment_rows(bytes_content(bodies@[i as int])),
            ));
        }
        match extend_rows(rows, more) {
            Some(all) => {
                rows = all;
            },
            None => {
                proof {
                    lemma_missing_rows_stay(first, bodies@, i + 1);
                }
                return None;
            },
        }
        i += 1;
    }
    proof {
        assert(bodies@.take(i as int) =~= bodies@);
    }
    Some(rows)
}

/// Once the rows of a prefix of the chunks cannot be joined, the rows of no
/// longer prefix can.
pub proof fn lemma_missing_rows_stay(
    inline: Seq<serde_json::Value>,
    bodies: Seq<bytes::Bytes>,
    n: int,
)
    requires
        0 <= n <= bodies.len(),
        joined_rows(inline, bodies.take(n)) is None,
    ensures
        joined_rows(inline, bodies) is None,
    decreases bodies.len() - n,
{
    if n == bodies.len() {
        assert(bodies.take(n) =~= bodies);
    } else {
        assert(bodies.take(n + 1).drop_last() =~= bodies.take(n));
        lemma_missing_rows_stay(inline, bodies, n + 1);
    }
}

/// Appends the decoded inline blob, where there is one and it is not empty,
/// to the remote chunks. The remote chunks keep their order and come first.
pub fn join_chunks(bodies: Vec<bytes::Bytes>, inline: Option<String>) -> (r: Result<
    Vec<bytes::Bytes>,
    base64::DecodeError,
>)
    ensures
        match (r, joined_chunks(bodies@, inline)) {
            (Ok(v), Ok(s)) => v@.map_values(|b: bytes::Bytes| bytes_content(b)) == s,
            (Err(e), Err(f)) => e == f,
            _ => false,
        },
        r matches Ok(v) ==> v@.len() >= bodies@.len() && v@.take(bodies@.len() as int) == bodies@,
{
    let mut chunks = bodies;
    match inline {
        Some(text) => {
            if text.as_str().unicode_len() > 0 {
                match base64_decode(text.as_str()) {
                    Ok(blob) => {
                        let ghost before = chunks@;
                        let buffer = bytes_from_vec(blob);
                        chunks.push(buffer);
                        proof {
                            assert(chunks@.map_values(|b: bytes::Bytes| bytes_content(b))
                                =~= before.map_values(|b: bytes::Bytes| bytes_content(b)).push(
                                blob@,
                            ));
                            assert(chunks@.take(before.len() as int) =~= before);
                        }
                        Ok(chunks)
                    },
                    Err(e) => Err(e),
                }
            } else {
                proof {
                    assert(chunks@.take(chunks@.len() as int) =~= chunks@);
                }
                Ok(chunks)
            }
        },
        None => {
            proof {
                assert(chunks@.take(chunks@.len() as int) =~= chunks@);
            }
            Ok(chunks)
        },
    }
}

/// Whether `text` holds a `], [` at position `at`.
pub open spec fn separator_at(text: Seq<u8>, at: int) -> bool {
    0 <= at && at + 4 <= text.len() && text.subrange(at, at + 4) == separator()
}

/// Whether `text` holds no `], [`.
pub open spec fn separator_free(text: Seq<u8>) -> bool {
    forall|at: int| !#[trigger] separator_at(text, at)
}

/// Whether `text` holds neither a quote nor a backslash.
pub open spec fn plain(text: Seq<u8>) -> bool {
    forall|at: int|
        0 <= at < text.len() ==> #[trigger] text[at] != quote() && text[at] != backslash()
}

/// The number of bytes of `text` that belong to the string literal inside
/// which `text` begins: those up to and with the quote that closes the
/// literal, or all of them where no quote closes it. A quote right after
/// an escaping backslash does not close the literal.
pub open spec fn literal_len(text: Seq<u8>, escaped: bool) -> int
    decreases text.len(),
{
    if text.len() == 0 {
        0
    } else if !escaped && text[0] == quote() {
        1
    } else {
        1 + literal_len(text.skip(1), !escaped && text[0] == backslash())
    }
}

/// What stands inside a string literal is left as it is, whatever it
/// holds: from inside a literal the scan writes every byte of the literal
/// as it is, and goes on rewriting only behind the quote that closes it.
pub proof fn law_inside_literal_is_copied(text: Seq<u8>, escaped: bool)
    ensures
        0 <= literal_len(text, escaped) <= text.len(),
        scanned(text, true, escaped) == text.take(literal_len(text, escaped)) + normalized(
            text.skip(literal_len(text, escaped)),
        ),
    decreases text.len(),
{
    if text.len() == 0 {
        assert(text.take(0) + normalized(text.skip(0)) =~= text);
    } else if !escaped && text[0] == quote() {
        assert(text.take(1) =~= seq![text[0]]);
    } else {
        let rest = text.skip(1);
        let next = !escaped && text[0] == backslash();
        law_inside_literal_is_copied(rest, next);
        let n = literal_len(rest, next);
        assert(text.take(1 + n) =~= seq![text[0]] + rest.take(n));
        assert(text.skip(1 + n) =~= rest.skip(n));
        assert(seq![text[0]] + (rest.take(n) + normalized(rest.skip(n))) =~= text.take(1 + n)
            + normalized(text.skip(1 + n)));
    }
}

/// Inside a string literal the scan writes byte for byte up to the quote
/// that closes the literal, and only then goes on rewriting.
pub proof fn lemma_literal_is_copied(body: Seq<u8>, after: Seq<u8>)
    requires
        plain(body),
    ensures
        scanned(body + seq![quote()] + after, true, false) == body + seq![quote()] + normalized(
            after,
        ),
    decreases body.len(),
{
    let closing = body + seq![quote()] + after;
    if body.len() == 0 {
        assert(closing[0] == quote());
        assert(closing.skip(1) =~= after);
        assert(scanned(closing, true, false) == seq![closing[0]] + scanned(after, false, false));
        assert(seq![closing[0]] + normalized(after) =~= body + seq![quote()] + normalized(after));
    } else {
        let rest = body.skip(1);
        assert(closing[0] == body[0]);
        assert(body[0] != quote() && body[0] != backslash());
        assert forall|at: int| 0 <= at < rest.len() implies #[trigger] rest[at] != quote()
            && rest[at] != backslash() by {
            assert(rest[at] == body[at + 1]);
        }
        lemma_literal_is_copied(rest, after);
        assert(closing.skip(1) =~= rest + seq![quote()] + after);
        assert(scanned(closing, true, false) == seq![closing[0]] + scanned(
            closing.skip(1),
            true,
            false,
        ));
        assert(seq![closing[0]] + (rest + seq![quote()] + normalized(after)) =~= body + seq![
            quote(),
        ] + normalized(after));
    }
}

/// What stands inside a string literal is left as it is, whatever it
/// holds: a literal comes out byte for byte, and what follows it is
/// rewritten in its turn.
pub proof fn law_literal_is_unchanged(body: Seq<u8>, after: Seq<u8>)
    requires
        plain(body),
    ensures
        normalized(seq![quote()] + body + seq![quote()] + after) == seq![quote()] + body + seq![
            quote(),
        ] + normalized(after),
{
    let closing = body + seq![quote()] + after;
    let whole = seq![quote()] + body + seq![quote()] + after;
    lemma_literal_is_copied(body, after);
    assert(whole[0] == quote());
    assert(!(whole.len() >= 4 && whole.subrange(0, 4) == separator())) by {
        if whole.len() >= 4 {
            assert(whole.subrange(0, 4)[0] == whole[0]);
            assert(separator()[0] == 0x5du8);
        }
    }
    assert(whole.skip(1) =~= closing);
    assert(scanned(whole, false, false) == seq![whole[0]] + scanned(whole.skip(1), true, false));
    assert(seq![whole[0]] + (body + seq![quote()] + normalized(after)) =~= seq![quote()] + body
        + seq![quote()] + normalized(after));
}

/// Two pieces of text with a separator between them come out with `],[`
/// between them: the first piece as it is where it holds neither a
/// separator nor a quote, the second one rewritten in its turn.
pub proof fn law_separator_is_rewritten(before: Seq<u8>, after: Seq<u8>)
    requires
        separator_free(before),
        forall|at: int| 0 <= at < before.len() ==> #[trigger] before[at] != quote(),
    ensures
        normalized(before + separator() + after) == before + joint() + normalized(after),
    decreases before.len(),
{
    let whole = before + separator() + after;
    if before.len() == 0 {
        assert(whole.subrange(0, 4) =~= separator());
        assert(whole.skip(4) =~= after);
        assert(before + joint() + normalized(after) =~= joint() + normalized(after));
    } else {
        let rest = before.skip(1);
        assert(whole.subrange(0, 4) != separator()) by {
            if before.len() >= 4 {
                assert(!separator_at(before, 0));
                assert(whole.subrange(0, 4) =~= before.subrange(0, 4));
            } else {
                // The separator begins with `]`, and none of its later
                // bytes is one.
                let at = before.len() as int;
                assert(whole.subrange(0, 4)[at] == whole[at]);
                assert(whole[at] == separator()[0]);
                assert(separator()[1] != 0x5du8 && separator()[2] != 0x5du8 && separator()[3]
                    != 0x5du8);
            }
        }
        assert(whole[0] == before[0]);
        assert(before[0] != quote());
        assert forall|at: int| !#[trigger] separator_at(rest, at) by {
            if 0 <= at && at + 4 <= rest.len() {
                assert(!separator_at(before, at + 1));
                assert(rest.subrange(at, at + 4) =~= before.subrange(at + 1, at + 1 + 4));
            }
        }
        assert forall|at: int| 0 <= at < rest.len() implies #[trigger] rest[at] != quote() by {
            assert(rest[at] == before[at + 1]);
        }
        law_separator_is_rewritten(rest, after);
        assert(whole.skip(1) =~= rest + separator() + after);
        assert(seq![whole[0]] + (rest + joint() + normalized(after)) =~= before + joint()
            + normalized(after));
    }
}

} // verus!
