//! Resolving a playlist manifest to the current segment URL.
//!
//! The manifest body is UTF-8 text, one record per line; lines are split on
//! the ASCII newline, so the byte view below agrees with the text view. The
//! active segment reference is the first line that is neither empty nor a
//! comment, and a relative reference is resolved against the source URL by
//! replacing everything after the URL's final slash.

use vstd::prelude::*;
use crate::frame::CaptureError;

verus! {

/// The ASCII line feed that separates manifest records.
pub const NEWLINE: u8 = 10;

/// The ASCII `#` that opens a comment line.
pub const COMMENT: u8 = 35;

/// The ASCII `/` that separates URL path segments.
pub const SLASH: u8 = 47;

/// The length of the first line: the number of bytes before the first
/// newline, or all of them when none occurs.
pub open spec fn spec_line_len(s: Seq<u8>) -> int
    decreases s.len(),
{
    if s.len() == 0 {
        0
    } else if s[0] == NEWLINE {
        0
    } else {
        1 + spec_line_len(s.drop_first())
    }
}

/// The first line is never longer than the text it opens.
pub proof fn lemma_line_len_bounds(s: Seq<u8>)
    ensures
        0 <= spec_line_len(s) <= s.len(),
    decreases s.len(),
{
    if s.len() > 0 && s[0] != NEWLINE {
        lemma_line_len_bounds(s.drop_first());
    }
}

/// The first line runs up to `m` exactly when no earlier byte is a newline
/// and `m` is a newline or the end.
pub proof fn lemma_line_len_at(s: Seq<u8>, m: int)
    requires
        0 <= m <= s.len(),
        forall|k: int| 0 <= k < m ==> s[k] != NEWLINE,
        m == s.len() || s[m] == NEWLINE,
    ensures
        spec_line_len(s) == m,
    decreases s.len(),
{
    if s.len() > 0 && m > 0 {
        lemma_line_len_at(s.drop_first(), m - 1);
    }
}

/// A line that names a segment: non-empty and no comment marker in front.
pub open spec fn spec_is_candidate(line: Seq<u8>) -> bool {
    line.len() > 0 && line[0] != COMMENT
}

/// The first line of the body that names a segment, if any.
pub open spec fn spec_first_candidate(s: Seq<u8>) -> Option<Seq<u8>>
    decreases s.len(),
    via spec_first_candidate_decreases
{
    let n = spec_line_len(s);
    let line = s.take(n);
    if spec_is_candidate(line) {
        Some(line)
    } else if n == s.len() {
        None
    } else {
        spec_first_candidate(s.skip(n + 1))
    }
}

#[via_fn]
proof fn spec_first_candidate_decreases(s: Seq<u8>) {
    lemma_line_len_bounds(s);
}

/// The reference is absolute already: it opens with a scheme.
pub open spec fn spec_starts_with_http(r: Seq<u8>) -> bool {
    r.len() >= 4 && r[0] == 'h' as u8 && r[1] == 't' as u8 && r[2] == 't' as u8 && r[3] == 'p'
        as u8
}

/// The index of the last slash of `s`, or -1 when it holds none.
pub open spec fn spec_last_slash(s: Seq<u8>) -> int
    decreases s.len(),
{
    if s.len() == 0 {
        -1
    } else if s[s.len() - 1] == SLASH {
        s.len() - 1
    } else {
        spec_last_slash(s.drop_last())
    }
}

/// The last slash is at `m` exactly when `m` holds a slash and nothing
/// after it does.
pub proof fn lemma_last_slash_at(s: Seq<u8>, m: int)
    requires
        0 <= m < s.len(),
        s[m] == SLASH,
        forall|k: int| m < k < s.len() ==> s[k] != SLASH,
    ensures
        spec_last_slash(s) == m,
    decreases s.len(),
{
    if m < s.len() - 1 {
        lemma_last_slash_at(s.drop_last(), m);
    }
}

/// A URL without a slash has no last one.
pub proof fn lemma_no_slash(s: Seq<u8>)
    requires
        forall|k: int| 0 <= k < s.len() ==> s[k] != SLASH,
    ensures
        spec_last_slash(s) == -1,
    decreases s.len(),
{
    if s.len() > 0 {
        lemma_no_slash(s.drop_last());
    }
}

/// Where the segment reference points: itself when absolute; otherwise the
/// source URL with everything after its final slash replaced by the
/// reference. The latter equals splitting the source URL on slashes,
/// dropping the last piece, appending the reference and rejoining; when the
/// source URL holds no slash at all, the reference stands alone.
pub open spec fn spec_resolved(source: Seq<u8>, reference: Seq<u8>) -> Seq<u8> {
    if spec_starts_with_http(reference) {
        reference
    } else if spec_last_slash(source) < 0 {
        reference
    } else {
        source.take(spec_last_slash(source) + 1) + reference
    }
}

/// The number of bytes before the first slash, or all of them when none
/// occurs.
pub open spec fn spec_piece_len(s: Seq<u8>) -> int
    decreases s.len(),
{
    if s.len() == 0 {
        0
    } else if s[0] == SLASH {
        0
    } else {
        1 + spec_piece_len(s.drop_first())
    }
}

/// The first piece ends at the first slash: nothing before it is one, and
/// its own position holds one unless the text ran out.
proof fn lemma_piece_len_props(s: Seq<u8>)
    ensures
        0 <= spec_piece_len(s) <= s.len(),
        forall|k: int| 0 <= k < spec_piece_len(s) ==> s[k] != SLASH,
        spec_piece_len(s) < s.len() ==> s[spec_piece_len(s)] == SLASH,
    decreases s.len(),
{
    if s.len() > 0 && s[0] != SLASH {
        lemma_piece_len_props(s.drop_first());
        assert forall|k: int| 0 <= k < spec_piece_len(s) implies s[k] != SLASH by {
            if k > 0 {
                assert(s.drop_first()[k - 1] == s[k]);
            }
        }
    }
}

/// The pieces of `s` between its slashes, in order; a text without slashes
/// is one piece, and every slash separates two pieces.
pub open spec fn spec_split_slash(s: Seq<u8>) -> Seq<Seq<u8>>
    decreases s.len(),
    via spec_split_slash_decreases
{
    let n = spec_piece_len(s);
    if n == s.len() {
        seq![s]
    } else {
        seq![s.take(n)] + spec_split_slash(s.skip(n + 1))
    }
}

#[via_fn]
proof fn spec_split_slash_decreases(s: Seq<u8>) {
    lemma_piece_len_props(s);
}

/// The pieces rejoined with one slash between each two.
pub open spec fn spec_join_slash(parts: Seq<Seq<u8>>) -> Seq<u8>
    decreases parts.len(),
{
    if parts.len() == 0 {
        Seq::empty()
    } else if parts.len() == 1 {
        parts[0]
    } else {
        parts[0] + seq![SLASH] + spec_join_slash(parts.drop_first())
    }
}

/// Where `spec_last_slash` points, a slash stands, with none after it; where
/// it points nowhere, the text holds none.
proof fn lemma_last_slash_props(s: Seq<u8>)
    ensures
        spec_last_slash(s) < 0 ==> forall|k: int| 0 <= k < s.len() ==> s[k] != SLASH,
        spec_last_slash(s) >= 0 ==> spec_last_slash(s) < s.len() && s[spec_last_slash(s)] == SLASH
            && forall|k: int| spec_last_slash(s) < k < s.len() ==> s[k] != SLASH,
    decreases s.len(),
{
    if s.len() > 0 && s[s.len() - 1] != SLASH {
        lemma_last_slash_props(s.drop_last());
        assert forall|k: int| 0 <= k < s.len() - 1 implies s[k] == s.drop_last()[k] by {}
    }
}

/// Splitting on slashes, dropping the last piece, appending the reference
/// and rejoining gives exactly what `spec_resolved` does with a relative
/// reference: the source up to and including its final slash, then the
/// reference; the reference alone when the source holds no slash.
pub proof fn lemma_resolved_is_split_join(source: Seq<u8>, reference: Seq<u8>)
    ensures
        spec_join_slash(spec_split_slash(source).drop_last().push(reference)) == (if spec_last_slash(
            source,
        ) < 0 {
            reference
        } else {
            source.take(spec_last_slash(source) + 1) + reference
        }),
    decreases source.len(),
{
    let n = spec_piece_len(source);
    lemma_piece_len_props(source);
    if n == source.len() {
        lemma_no_slash(source);
        assert(spec_split_slash(source) =~= seq![source]);
        assert(spec_split_slash(source).drop_last().push(reference) =~= seq![reference]);
    } else {
        let rest = source.skip(n + 1);
        let sub = spec_split_slash(rest);
        let ls_rest = spec_last_slash(rest);
        lemma_resolved_is_split_join(rest, reference);
        lemma_last_slash_props(rest);
        assert(sub.len() >= 1);

        let tail_parts = sub.drop_last().push(reference);
        assert(spec_split_slash(source).drop_last().push(reference) =~= seq![source.take(n)]
            + tail_parts);
        let whole = seq![source.take(n)] + tail_parts;
        assert(whole.len() >= 2);
        assert(whole[0] == source.take(n));
        assert(whole.drop_first() =~= tail_parts);
        assert(spec_join_slash(whole) == source.take(n) + seq![SLASH] + spec_join_slash(
            tail_parts,
        ));

        assert(rest.len() == source.len() - n - 1);
        if ls_rest < 0 {
            assert forall|k: int| n < k < source.len() implies source[k] != SLASH by {
                assert(rest[k - n - 1] == source[k]);
            }
            lemma_last_slash_at(source, n);
            assert(source.take(n) + seq![SLASH] =~= source.take(n + 1));
        } else {
            assert(source[n + 1 + ls_rest] == SLASH) by {
                assert(rest[ls_rest] == source[n + 1 + ls_rest]);
            }
            assert forall|k: int| n + 1 + ls_rest < k < source.len() implies source[k] != SLASH by {
                assert(rest[k - n - 1] == source[k]);
            }
            lemma_last_slash_at(source, n + 1 + ls_rest);
            assert(source.take(n) + seq![SLASH] + rest.take(ls_rest + 1) =~= source.take(
                n + 1 + ls_rest + 1,
            ));
        }
    }
}

/// The first segment-naming line of the manifest body, as owned bytes.
pub fn first_candidate_line(body: &Vec<u8>) -> (r: Option<Vec<u8>>)
    ensures
        match r {
            Some(line) => spec_first_candidate(body@) == Some(line@),
            None => spec_first_candidate(body@) is None,
        },
{
    let n = body.len();
    let mut pos: usize = 0;
    proof {
        assert(body@.skip(0) =~= body@);
    }
    loop
        invariant
            pos <= n,
            n == body@.len(),
            spec_first_candidate(body@) == spec_first_candidate(body@.skip(pos as int)),
        decreases n - pos,
    {
        let mut end: usize = pos;
        while end < n && body[end] != NEWLINE
            invariant
                pos <= end <= n,
                n == body@.len(),
                forall|k: int| pos <= k < end ==> body@[k] != NEWLINE,
            decreases n - end,
        {
            end += 1;
        }
        let ghost tail = body@.skip(pos as int);
        proof {
            assert forall|k: int| 0 <= k < end - pos implies tail[k] != NEWLINE by {
                assert(tail[k] == body@[pos + k]);
            }
            if end < n {
                assert(tail[end - pos] == body@[end as int]);
            }
            lemma_line_len_at(tail, end - pos);
        }
        if end > pos && body[pos] != COMMENT {
            let line = vstd::slice::slice_to_vec(
                vstd::slice::slice_subrange(body.as_slice(), pos, end),
            );
            proof {
                assert(tail.take(end - pos) =~= body@.subrange(pos as int, end as int));
                assert(spec_is_candidate(tail.take(end - pos)));
            }
            return Some(line);
        }
        if end == n {
            proof {
                assert(!spec_is_candidate(tail.take(end - pos)));
            }
            return None;
        }
        proof {
            assert(!spec_is_candidate(tail.take(end - pos)));
            assert(tail.skip(end - pos + 1) =~= body@.skip(end + 1));
        }
        pos = end + 1;
    }
}

/// Resolve a segment reference against the source URL.
pub fn resolve_reference(source_url: &Vec<u8>, reference: &Vec<u8>) -> (r: Vec<u8>)
    ensures
        r@ == spec_resolved(source_url@, reference@),
{
    let absolute = reference.len() >= 4 && reference[0] == 'h' as u8 && reference[1] == 't' as u8
        && reference[2] == 't' as u8 && reference[3] == 'p' as u8;
    if absolute {
        return vstd::slice::slice_to_vec(reference.as_slice());
    }
    let n = source_url.len();
    let mut i: usize = n;
    while i > 0 && source_url[i - 1] != SLASH
        invariant
            i <= n,
            n == source_url@.len(),
            forall|k: int| i <= k < n ==> source_url@[k] != SLASH,
        decreases i,
    {
        i -= 1;
    }
    if i == 0 {
        proof {
            lemma_no_slash(source_url@);
        }
        return vstd::slice::slice_to_vec(reference.as_slice());
    }
    proof {
        lemma_last_slash_at(source_url@, i - 1);
    }
    let mut out = vstd::slice::slice_to_vec(vstd::slice::slice_subrange(
        source_url.as_slice(),
        0,
        i,
    ));
    let mut tail = vstd::slice::slice_to_vec(reference.as_slice());
    out.append(&mut tail);
    proof {
        assert(out@ =~= source_url@.take(spec_last_slash(source_url@) + 1) + reference@);
    }
    out
}

/// Pick the active segment out of a manifest body and resolve it against
/// the source URL. Fails, and only fails, when no line of the body names a
/// segment: the empty or fully commented manifest.
pub fn resolve_segment(body: &Vec<u8>, source_url: &Vec<u8>) -> (r: Result<Vec<u8>, CaptureError>)
    ensures
        match r {
            Ok(seg) => spec_first_candidate(body@) is Some && seg@ == spec_resolved(
                source_url@,
                spec_first_candidate(body@)->Some_0,
            ),
            Err(e) => e is InvalidResponse && spec_first_candidate(body@) is None,
        },
{
    match first_candidate_line(body) {
        Some(line) => Ok(resolve_reference(source_url, &line)),
        None => Err(CaptureError::InvalidResponse),
    }
}

} // verus!
