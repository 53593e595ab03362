//! Ingestion: best-effort transcoding of the raw log bytes, splitting
//! into lines, and the inclusion filter that shrinks the working set.
use vstd::prelude::*;
use vstd::string::StrSliceExecFns;
use vstd::string::StringSliceAdditionalSpecFns;
use vstd::utf8::{decode_utf8, valid_utf8};

use crate::text::{
    find_byte, find_from, lemma_spec_find_byte, spec_find, spec_find_byte, subvec,
};

verus! {

/// What `encoding_rs::UTF_8.decode` returns on the given bytes; the
/// transcoding depends on the bytes alone.
pub uninterp spec fn decoded_of(bytes: Seq<u8>) -> Seq<char>;

/// The byte stream starts with a UTF-8 or UTF-16 byte-order mark, which
/// the transcoder strips or sniffs.
pub open spec fn has_bom(b: Seq<u8>) -> bool {
    ||| (b.len() >= 3 && b[0] == 0xef && b[1] == 0xbb && b[2] == 0xbf)
    ||| (b.len() >= 2 && b[0] == 0xfe && b[1] == 0xff)
    ||| (b.len() >= 2 && b[0] == 0xff && b[1] == 0xfe)
}

/// Relies on `encoding_rs::UTF_8.decode`: a best-effort, BOM-sniffing
/// transcoding in which malformed sequences become the replacement
/// character, and BOM-free valid UTF-8 comes through unchanged. The
/// length bound keeps the decoder's worst-case output size computation
/// (three output bytes per input byte, plus a BOM allowance) inside
/// `usize`, where its source would panic.
#[verifier::external_body]
fn decode_best_effort(bytes: &Vec<u8>) -> (r: String)
    requires
        bytes@.len() <= usize::MAX / 4,
    ensures
        r@ == decoded_of(bytes@),
        valid_utf8(bytes@) && !has_bom(bytes@) ==> r@ == decode_utf8(bytes@),
{
    let (text, _, _) = encoding_rs::UTF_8.decode(bytes);
    text.into_owned()
}

/// What `String::from_utf8_lossy` returns on the given bytes; a pure
/// function of the bytes.
pub uninterp spec fn lossy_text_of(bytes: Seq<u8>) -> Seq<char>;

/// Relies on `String::from_utf8_lossy`: valid UTF-8 decodes unchanged;
/// malformed sequences are replaced, still as a function of the bytes.
#[verifier::external_body]
pub(crate) fn bytes_to_text(bytes: &Vec<u8>) -> (r: String)
    ensures
        r@ == lossy_text_of(bytes@),
        valid_utf8(bytes@) ==> r@ == decode_utf8(bytes@),
{
    String::from_utf8_lossy(bytes).into_owned()
}

/// One trailing carriage return is stripped from a newline-terminated
/// line segment.
pub open spec fn strip_cr(t: Seq<u8>) -> Seq<u8> {
    if t.len() > 0 && t[t.len() - 1] == 13 {
        t.drop_last()
    } else {
        t
    }
}

/// The line decomposition of `s` from position `i` on: segments split at
/// newline bytes, one carriage return stripped before each newline, the
/// final segment kept as it stands, and no empty segment after a
/// trailing newline.
#[verifier::opaque]
pub open spec fn spec_lines_from(s: Seq<u8>, i: int) -> Seq<Seq<u8>>
    decreases s.len() - i,
    via spec_lines_from_dec
{
    if i < 0 || i >= s.len() {
        Seq::empty()
    } else {
        match spec_find_byte(s, 10, i) {
            Some(k) => seq![strip_cr(s.subrange(i, k))] + spec_lines_from(s, k + 1),
            None => seq![s.subrange(i, s.len() as int)],
        }
    }
}

#[via_fn]
proof fn spec_lines_from_dec(s: Seq<u8>, i: int) {
    lemma_spec_find_byte(s, 10, i);
}

/// The views of a vector of byte vectors.
pub open spec fn views_of(vs: Seq<Vec<u8>>) -> Seq<Seq<u8>> {
    vs.map_values(|v: Vec<u8>| v@)
}

/// Splits the decoded content into lines.
#[verifier::loop_isolation(false)]
pub fn split_lines(content: &Vec<u8>) -> (r: Vec<Vec<u8>>)
    ensures
        views_of(r@) == spec_lines_from(content@, 0),
{
    proof {
        reveal(spec_lines_from);
    }
    let mut out: Vec<Vec<u8>> = Vec::new();
    let mut pos: usize = 0;
    while pos < content.len()
        invariant
            pos <= content.len(),
            views_of(out@) + spec_lines_from(content@, pos as int) == spec_lines_from(
                content@,
                0,
            ),
        decreases content.len() - pos,
    {
        proof {
            reveal(spec_lines_from);
        }
        match find_byte(content, 10, pos) {
            Some(k) => {
                proof {
                    lemma_spec_find_byte(content@, 10, pos as int);
                }
                let seg_end: usize = if k > pos && content[k - 1] == 13 {
                    k - 1
                } else {
                    k
                };
                let seg = subvec(content, pos, seg_end);
                assert(seg@ == strip_cr(content@.subrange(pos as int, k as int)));
                out.push(seg);
                assert(views_of(out@) =~= views_of(out@.drop_last()).push(out@.last()@));
                assert(views_of(out@) + spec_lines_from(content@, k + 1) =~= views_of(
                    out@.drop_last(),
                ) + spec_lines_from(content@, pos as int));
                pos = k + 1;
            },
            None => {
                let seg = subvec(content, pos, content.len());
                out.push(seg);
                assert(views_of(out@) =~= views_of(out@.drop_last()).push(out@.last()@));
                assert(views_of(out@) + spec_lines_from(content@, content@.len() as int)
                    =~= views_of(out@.drop_last()) + spec_lines_from(content@, pos as int));
                pos = content.len();
            },
        }
    }
    proof {
        reveal(spec_lines_from);
        assert(views_of(out@) + spec_lines_from(content@, pos as int) =~= views_of(out@));
    }
    out
}

/// A line is retained when it contains at least one of the ten fixed
/// inclusion markers; the filter only shrinks the working set and
/// carries no record semantics.
#[verifier::opaque]
pub open spec fn spec_desired(s: Seq<u8>) -> bool {
    ||| spec_find(s, "Beginning mission".spec_bytes(), 0) is Some
    ||| spec_find(s, "Ending mission".spec_bytes(), 0) is Some
    ||| spec_find(s, "GAME -- Frame".spec_bytes(), 0) is Some
    ||| spec_find(s, "ReportSimStats".spec_bytes(), 0) is Some
    ||| spec_find(s, "ReportMatchStatsForPVP - SimID".spec_bytes(), 0) is Some
    ||| spec_find(s, "PlayerInfo".spec_bytes(), 0) is Some
    ||| spec_find(s, "Match Started".spec_bytes(), 0) is Some
    ||| spec_find(s, "MOD -- Game Over at frame".spec_bytes(), 0) is Some
    ||| spec_find(s, "LoadArbitrator::UpdateLoadProgress - info".spec_bytes(), 0) is Some
    ||| spec_find(s, "Found profile".spec_bytes(), 0) is Some
}

/// Whether one of the ten inclusion markers occurs in the line.
pub fn contains_desired_content(line: &Vec<u8>) -> (r: bool)
    ensures
        r == spec_desired(line@),
{
    proof {
        reveal(spec_desired);
    }
    find_from(line, &"Beginning mission".as_bytes_vec(), 0).is_some() || find_from(
        line,
        &"Ending mission".as_bytes_vec(),
        0,
    ).is_some() || find_from(line, &"GAME -- Frame".as_bytes_vec(), 0).is_some() || find_from(
        line,
        &"ReportSimStats".as_bytes_vec(),
        0,
    ).is_some() || find_from(line, &"ReportMatchStatsForPVP - SimID".as_bytes_vec(), 0).is_some()
        || find_from(line, &"PlayerInfo".as_bytes_vec(), 0).is_some() || find_from(
        line,
        &"Match Started".as_bytes_vec(),
        0,
    ).is_some() || find_from(line, &"MOD -- Game Over at frame".as_bytes_vec(), 0).is_some()
        || find_from(line, &"LoadArbitrator::UpdateLoadProgress - info".as_bytes_vec(), 0).is_some()
        || find_from(line, &"Found profile".as_bytes_vec(), 0).is_some()
}

/// The subsequence of lines the filter retains, in order.
#[verifier::opaque]
pub open spec fn spec_retained(lines: Seq<Seq<u8>>) -> Seq<Seq<u8>>
    decreases lines.len(),
{
    if lines.len() == 0 {
        Seq::empty()
    } else {
        let rest = spec_retained(lines.drop_last());
        if spec_desired(lines.last()) {
            rest.push(lines.last())
        } else {
            rest
        }
    }
}

/// The retained-line sequence of a raw log byte stream: transcode, split
/// into lines, filter.
pub open spec fn spec_ingest(raw: Seq<u8>) -> Seq<Seq<u8>> {
    spec_retained(spec_lines_from(vstd::utf8::encode_utf8(decoded_of(raw)), 0))
}

/// Transcodes the raw log bytes and returns the retained lines in order.
/// The length bound is the transcoder's machine limit.
#[verifier::loop_isolation(false)]
pub fn ingest(raw: &Vec<u8>) -> (r: Vec<Vec<u8>>)
    requires
        raw@.len() <= usize::MAX / 4,
    ensures
        views_of(r@) == spec_ingest(raw@),
{
    let text = decode_best_effort(raw);
    let bytes = text.as_str().as_bytes_vec();
    let lines = split_lines(&bytes);
    let mut kept: Vec<Vec<u8>> = Vec::new();
    let mut i: usize = 0;
    proof {
        reveal(spec_retained);
    }
    while i < lines.len()
        invariant
            i <= lines.len(),
            views_of(kept@) == spec_retained(views_of(lines@).take(i as int)),
        decreases lines.len() - i,
    {
        proof {
            reveal(spec_retained);
        }
        if contains_desired_content(&lines[i]) {
            let line = subvec(&lines[i], 0, lines[i].len());
            assert(line@ =~= lines@[i as int]@);
            kept.push(line);
            assert(views_of(kept@) =~= views_of(kept@.drop_last()).push(kept@.last()@));
        }
        proof {
            let vs = views_of(lines@);
            assert(vs.take(i + 1).drop_last() =~= vs.take(i as int));
            assert(vs.take(i + 1).last() == lines@[i as int]@);
        }
        i += 1;
    }
    proof {
        assert(views_of(lines@).take(lines@.len() as int) =~= views_of(lines@));
    }
    kept
}

} // verus!
