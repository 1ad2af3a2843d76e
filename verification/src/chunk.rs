//! The text chunking policy: lines are cut into chunks of at most
//! `MAX_CHUNK_CHARS` Unicode scalar values, first at Japanese sentence
//! delimiters (the full-width and half-width ideographic full stops), and,
//! where a sentence segment is still over-long, at Japanese clause delimiters
//! (the full-width and half-width ideographic commas).
//!
//! All lengths are counts of Unicode scalar values, never of bytes.

use vstd::prelude::*;
use vstd::string::StrSliceExecFns;

verus! {

/// The longest text a single synthesis job accepts, in Unicode scalar values.
pub const MAX_CHUNK_CHARS: usize = 140;

/// The ideographic full stops that end a sentence segment.
pub open spec fn is_period_char(c: char) -> bool {
    c == '\u{3002}' || c == '\u{ff61}'
}

/// The ideographic commas that end a clause segment.
pub open spec fn is_comma_char(c: char) -> bool {
    c == '\u{3001}' || c == '\u{ff64}'
}

/// The separator class used by one level of the split.
pub open spec fn sep_pred(period: bool) -> spec_fn(char) -> bool {
    if period {
        |c: char| is_period_char(c)
    } else {
        |c: char| is_comma_char(c)
    }
}

/// Holds when no character of `s` is a separator.
pub open spec fn sep_free(s: Seq<char>, f: spec_fn(char) -> bool) -> bool {
    forall|i: int| 0 <= i < s.len() ==> !f(#[trigger] s[i])
}

/// Index of the first separator of `s`, or `s.len()` if there is none.
pub open spec fn first_sep_idx(s: Seq<char>, f: spec_fn(char) -> bool) -> int
    decreases s.len(),
{
    if s.len() == 0 {
        0
    } else if f(s[0]) {
        0
    } else {
        1 + first_sep_idx(s.drop_first(), f)
    }
}

/// `s` cut at every separator: the segments between separators, in order,
/// with empty segments kept, including a trailing empty segment when `s`
/// ends in a separator. The result always has one segment more than `s`
/// has separators.
pub open spec fn split_chars(s: Seq<char>, f: spec_fn(char) -> bool) -> Seq<Seq<char>>
    decreases s.len(),
{
    let i = first_sep_idx(s, f);
    if 0 <= i < s.len() {
        seq![s.take(i)] + split_chars(s.skip(i + 1), f)
    } else {
        seq![s]
    }
}

proof fn lemma_first_sep_idx_sep_free(s: Seq<char>, f: spec_fn(char) -> bool)
    requires
        sep_free(s, f),
    ensures
        first_sep_idx(s, f) == s.len(),
    decreases s.len(),
{
    if s.len() > 0 {
        assert(!f(s[0]));
        assert forall|i: int| 0 <= i < s.drop_first().len() implies !f(#[trigger] s.drop_first()[i]) by {
            assert(s.drop_first()[i] == s[i + 1]);
        }
        lemma_first_sep_idx_sep_free(s.drop_first(), f);
    }
}

proof fn lemma_first_sep_idx_concat(p: Seq<char>, c: char, r: Seq<char>, f: spec_fn(char) -> bool)
    requires
        sep_free(p, f),
        f(c),
    ensures
        first_sep_idx(p + seq![c] + r, f) == p.len(),
    decreases p.len(),
{
    let s = p + seq![c] + r;
    if p.len() == 0 {
        assert(s[0] == c);
    } else {
        assert(s[0] == p[0]);
        assert(!f(s[0]));
        assert forall|i: int| 0 <= i < p.drop_first().len() implies !f(#[trigger] p.drop_first()[i]) by {
            assert(p.drop_first()[i] == p[i + 1]);
        }
        lemma_first_sep_idx_concat(p.drop_first(), c, r, f);
        assert(s.drop_first() =~= p.drop_first() + seq![c] + r);
    }
}

/// A separator-free string is a single segment.
proof fn lemma_split_sep_free(s: Seq<char>, f: spec_fn(char) -> bool)
    requires
        sep_free(s, f),
    ensures
        split_chars(s, f) == seq![s],
{
    lemma_first_sep_idx_sep_free(s, f);
}

/// Cutting off a separator-free prefix and its terminating separator
/// peels one segment off the split.
proof fn lemma_split_leading_sep(p: Seq<char>, c: char, r: Seq<char>, f: spec_fn(char) -> bool)
    requires
        sep_free(p, f),
        f(c),
    ensures
        split_chars(p + seq![c] + r, f) == seq![p] + split_chars(r, f),
{
    let s = p + seq![c] + r;
    lemma_first_sep_idx_concat(p, c, r, f);
    assert(s.len() == p.len() + 1 + r.len());
    assert(s.take(p.len() as int) =~= p);
    assert(s.skip(p.len() as int + 1) =~= r);
    assert(split_chars(s, f) == seq![s.take(p.len() as int)] + split_chars(s.skip(p.len() as int + 1), f));
}

/// The views of a sequence of character vectors.
pub open spec fn char_vec_views(vs: Seq<Vec<char>>) -> Seq<Seq<char>> {
    vs.map_values(|v: Vec<char>| v@)
}

/// Whether `c` belongs to the separator class selected by `period`.
fn char_is_sep(c: char, period: bool) -> (b: bool)
    ensures
        b == sep_pred(period)(c),
{
    if period {
        c == '\u{3002}' || c == '\u{ff61}'
    } else {
        c == '\u{3001}' || c == '\u{ff64}'
    }
}

/// Cuts `s` at every separator of the class selected by `period`,
/// keeping empty segments, exactly as `split_chars` describes.
pub fn split_on(s: &Vec<char>, period: bool) -> (r: Vec<Vec<char>>)
    ensures
        char_vec_views(r@) == split_chars(s@, sep_pred(period)),
{
    let ghost f = sep_pred(period);
    let mut out: Vec<Vec<char>> = Vec::new();
    let mut cur: Vec<char> = Vec::new();
    let mut i: usize = 0;
    proof {
        assert(cur@ + s@.skip(0) =~= s@);
        assert(char_vec_views(out@) + split_chars(s@, f) =~= split_chars(s@, f));
    }
    while i < s.len()
        invariant
            i <= s@.len(),
            sep_free(cur@, f),
            f == sep_pred(period),
            split_chars(s@, f) == char_vec_views(out@) + split_chars(cur@ + s@.skip(i as int), f),
        decreases s@.len() - i,
    {
        let c = s[i];
        if char_is_sep(c, period) {
            proof {
                assert(cur@ + s@.skip(i as int) =~= cur@ + seq![c] + s@.skip(i as int + 1));
                lemma_split_leading_sep(cur@, c, s@.skip(i as int + 1), f);
            }
            let ghost old_out = out@;
            let ghost old_cur = cur@;
            out.push(cur);
            cur = Vec::new();
            proof {
                assert(char_vec_views(out@) =~= char_vec_views(old_out).push(old_cur));
                assert(char_vec_views(old_out) + (seq![old_cur] + split_chars(s@.skip(i as int + 1), f))
                    =~= char_vec_views(out@) + split_chars(s@.skip(i as int + 1), f));
                assert(cur@ + s@.skip(i as int + 1) =~= s@.skip(i as int + 1));
            }
        } else {
            let ghost old_cur = cur@;
            cur.push(c);
            proof {
                assert(cur@ + s@.skip(i as int + 1) =~= old_cur + s@.skip(i as int));
                assert forall|j: int| 0 <= j < cur@.len() implies !f(#[trigger] cur@[j]) by {
                    if j < old_cur.len() {
                        assert(cur@[j] == old_cur[j]);
                    } else {
                        assert(cur@[j] == c);
                    }
                }
            }
        }
        i += 1;
    }
    proof {
        assert(cur@ + s@.skip(i as int) =~= cur@);
        lemma_split_sep_free(cur@, f);
    }
    let ghost old_out = out@;
    let ghost old_cur = cur@;
    out.push(cur);
    proof {
        assert(char_vec_views(out@) =~= char_vec_views(old_out).push(old_cur));
        assert(char_vec_views(old_out) + seq![old_cur] =~= char_vec_views(out@));
    }
    out
}

/// The sentence segments of a line: the line cut at ideographic full stops.
pub open spec fn period_segments(line: Seq<char>) -> Seq<Seq<char>> {
    split_chars(line, sep_pred(true))
}

/// The clause pieces of a line: the whole line cut at ideographic commas.
pub open spec fn comma_segments(line: Seq<char>) -> Seq<Seq<char>> {
    split_chars(line, sep_pred(false))
}

/// Some sentence segment of the line is itself over-long.
pub open spec fn has_overlong_period_segment(line: Seq<char>) -> bool {
    exists|j: int|
        0 <= j < period_segments(line).len() && #[trigger] period_segments(line)[j].len()
            > MAX_CHUNK_CHARS as int
}

/// Some clause piece of the line reaches the limit. Note the asymmetry with
/// the sentence level: a clause piece of exactly `MAX_CHUNK_CHARS` characters
/// is already unacceptable, while a sentence segment of that length is fine.
pub open spec fn comma_piece_fatal(line: Seq<char>) -> bool {
    exists|k: int|
        0 <= k < comma_segments(line).len() && #[trigger] comma_segments(line)[k].len()
            >= MAX_CHUNK_CHARS as int
}

/// A line defeats the chunking policy: it is over-long, the sentence split
/// leaves an over-long segment, and the clause split of the whole line still
/// has a piece at or over the limit.
pub open spec fn line_fatal(line: Seq<char>) -> bool {
    &&& line.len() > MAX_CHUNK_CHARS as int
    &&& has_overlong_period_segment(line)
    &&& comma_piece_fatal(line)
}

/// Jobs one sentence segment contributes: one for a short segment, one per
/// clause piece of the whole line for an over-long one.
pub open spec fn segment_jobs(seg: Seq<char>, comma_count: int) -> int {
    if seg.len() <= MAX_CHUNK_CHARS as int {
        1
    } else {
        comma_count
    }
}

/// Jobs contributed by the sentence segments from index `j` on.
pub open spec fn jobs_from(segs: Seq<Seq<char>>, comma_count: int, j: int) -> int
    decreases segs.len() - j,
{
    if j < 0 || j >= segs.len() {
        0
    } else {
        segment_jobs(segs[j], comma_count) + jobs_from(segs, comma_count, j + 1)
    }
}

/// How many synthesis jobs the chunking policy produces for one line:
/// one for a short line, otherwise the sum over its sentence segments.
pub open spec fn line_job_count(line: Seq<char>) -> int {
    if line.len() <= MAX_CHUNK_CHARS as int {
        1
    } else {
        jobs_from(period_segments(line), comma_segments(line).len() as int, 0)
    }
}

proof fn lemma_jobs_from_nonneg(segs: Seq<Seq<char>>, comma_count: int, j: int)
    requires
        comma_count >= 0,
    ensures
        jobs_from(segs, comma_count, j) >= 0,
    decreases segs.len() - j,
{
    if 0 <= j < segs.len() {
        lemma_jobs_from_nonneg(segs, comma_count, j + 1);
    }
}

/// `piece` is the first clause piece of `line` at or over the limit,
/// and `length` is its character count.
pub open spec fn is_first_fatal_piece(line: Seq<char>, piece: Seq<char>, length: int) -> bool {
    exists|k: int|
        {
            &&& 0 <= k < comma_segments(line).len()
            &&& #[trigger] comma_segments(line)[k] == piece
            &&& length == piece.len()
            &&& piece.len() >= MAX_CHUNK_CHARS as int
            &&& forall|k2: int|
                0 <= k2 < k ==> #[trigger] comma_segments(line)[k2].len() < MAX_CHUNK_CHARS as int
        }
}

/// Rejected input: a clause piece that still reaches the chunk limit, with
/// its character count.
#[derive(Debug, Clone, PartialEq, Eq)]
pub struct ChunkError {
    pub piece: String,
    pub length: usize,
}

/// The characters of `s`, in order.
pub fn chars_of(s: &str) -> (r: Vec<char>)
    ensures
        r@ == s@,
{
    let n = s.unicode_len();
    let mut r: Vec<char> = Vec::new();
    let mut i: usize = 0;
    while i < n
        invariant
            n as nat == s@.len(),
            i <= n,
            r@ == s@.take(i as int),
        decreases n - i,
    {
        let c = s.get_char(i);
        r.push(c);
        i += 1;
        proof {
            assert(r@ =~= s@.take(i as int));
        }
    }
    proof {
        assert(s@.take(n as int) =~= s@);
    }
    r
}

/// Relies on `String::push`: it appends exactly the given character.
#[verifier::external_body]
fn push_char(s: &mut String, c: char)
    ensures
        final(s)@ == old(s)@.push(c),
{
    s.push(c);
}

/// The string holding exactly the characters of `v`, in order.
pub fn string_of_chars(v: &Vec<char>) -> (s: String)
    ensures
        s@ == v@,
{
    let mut s = String::new();
    let mut i: usize = 0;
    while i < v.len()
        invariant
            i <= v@.len(),
            s@ == v@.take(i as int),
        decreases v@.len() - i,
    {
        push_char(&mut s, v[i]);
        i += 1;
        proof {
            assert(s@ =~= v@.take(i as int));
        }
    }
    proof {
        assert(v@.take(v@.len() as int) =~= v@);
    }
    s
}

/// How many synthesis jobs the chunking policy produces for `text`, without
/// doing any work: one for a short line; else one per short sentence segment
/// plus, for every over-long sentence segment, one per clause piece of the
/// whole line. Rejects the line exactly when some clause piece would still
/// reach the limit, reporting the first such piece.
pub fn get_total_job_amount(text: String) -> (r: Result<usize, ChunkError>)
    requires
        line_job_count(text@) <= usize::MAX as int,
    ensures
        r is Ok <==> !line_fatal(text@),
        r matches Ok(n) ==> n as int == line_job_count(text@),
        r matches Err(e) ==> is_first_fatal_piece(text@, e.piece@, e.length as int),
{
    let cs = chars_of(text.as_str());
    if cs.len() <= MAX_CHUNK_CHARS {
        return Ok(1);
    }
    let psegs = split_on(&cs, true);
    let csegs = split_on(&cs, false);
    let comma_count = csegs.len();
    let ghost segs = period_segments(text@);
    let ghost cc = comma_segments(text@).len() as int;
    proof {
        lemma_jobs_from_nonneg(segs, cc, 0);
    }
    let mut count: usize = 0;
    let mut validated = false;
    let mut j: usize = 0;
    while j < psegs.len()
        invariant
            text@.len() > MAX_CHUNK_CHARS as int,
            segs == period_segments(text@),
            cc == comma_segments(text@).len() as int,
            char_vec_views(psegs@) == segs,
            char_vec_views(csegs@) == comma_segments(text@),
            comma_count as int == cc,
            j <= psegs@.len(),
            psegs@.len() == segs.len(),
            count as int == jobs_from(segs, cc, 0) - jobs_from(segs, cc, j as int),
            jobs_from(segs, cc, 0) <= usize::MAX as int,
            validated ==> !comma_piece_fatal(text@),
            !validated ==> forall|j2: int|
                0 <= j2 < j ==> #[trigger] segs[j2].len() <= MAX_CHUNK_CHARS as int,
        decreases psegs@.len() - j,
    {
        proof {
            assert(segs[j as int] == psegs@[j as int]@);
            lemma_jobs_from_nonneg(segs, cc, j as int + 1);
        }
        if psegs[j].len() <= MAX_CHUNK_CHARS {
            count += 1;
        } else {
            if !validated {
                let mut k: usize = 0;
                while k < csegs.len()
                    invariant
                        text@.len() > MAX_CHUNK_CHARS as int,
                        j < period_segments(text@).len(),
                        period_segments(text@)[j as int].len() > MAX_CHUNK_CHARS as int,
                        char_vec_views(csegs@) == comma_segments(text@),
                        k <= csegs@.len(),
                        forall|k2: int|
                            0 <= k2 < k ==> #[trigger] comma_segments(text@)[k2].len()
                                < MAX_CHUNK_CHARS as int,
                    decreases csegs@.len() - k,
                {
                    proof {
                        assert(comma_segments(text@)[k as int] == csegs@[k as int]@);
                    }
                    if csegs[k].len() >= MAX_CHUNK_CHARS {
                        let piece = string_of_chars(&csegs[k]);
                        let length = csegs[k].len();
                        proof {
                            assert(comma_segments(text@)[k as int] == piece@);
                            assert(period_segments(text@)[j as int].len()
                                > MAX_CHUNK_CHARS as int);
                            assert(comma_segments(text@)[k as int].len()
                                >= MAX_CHUNK_CHARS as int);
                            assert(line_fatal(text@));
                        }
                        return Err(ChunkError { piece, length });
                    }
                    k += 1;
                }
                proof {
                    assert(!comma_piece_fatal(text@));
                }
                validated = true;
            }
            count += comma_count;
        }
        j += 1;
    }
    proof {
        if has_overlong_period_segment(text@) {
            let j2 = choose|j2: int|
                0 <= j2 < segs.len() && #[trigger] segs[j2].len() > MAX_CHUNK_CHARS as int;
            assert(validated);
        }
        assert(!line_fatal(text@));
    }
    Ok(count)
}

/// Where one chunk's synthesized audio belongs, relative to the line's own
/// numbered directory: a short line is a single file at the top level, a
/// sentence segment a file in the line's directory, a clause piece a file in
/// the segment's directory.
#[derive(Debug, Clone, Copy, PartialEq, Eq, Structural)]
pub enum ChunkDest {
    Whole,
    PeriodSeg { period_idx: usize },
    CommaSeg { period_idx: usize, comma_idx: usize },
}

/// One unit of text for a single synthesis job, with its destination.
#[derive(Debug, Clone)]
pub struct Chunk {
    pub text: String,
    pub dest: ChunkDest,
}

/// The mathematical content of a `Chunk`.
pub struct ChunkModel {
    pub text: Seq<char>,
    pub dest: ChunkDest,
}

impl View for Chunk {
    type V = ChunkModel;

    open spec fn view(&self) -> ChunkModel {
        ChunkModel { text: self.text@, dest: self.dest }
    }
}

/// The views of a sequence of chunks.
pub open spec fn chunk_views(cs: Seq<Chunk>) -> Seq<ChunkModel> {
    cs.map_values(|c: Chunk| c@)
}

/// The chunks an over-long sentence segment `j` yields, from clause piece
/// `k` on: one chunk per clause piece of the whole line.
pub open spec fn comma_chunks_from(line: Seq<char>, j: int, k: int) -> Seq<ChunkModel>
    decreases comma_segments(line).len() - k,
{
    if k < 0 || k >= comma_segments(line).len() {
        Seq::empty()
    } else {
        seq![
            ChunkModel {
                text: comma_segments(line)[k],
                dest: ChunkDest::CommaSeg { period_idx: j as usize, comma_idx: k as usize },
            },
        ] + comma_chunks_from(line, j, k + 1)
    }
}

/// The chunks sentence segment `j` yields: itself if short, else one chunk
/// per clause piece of the whole line.
pub open spec fn seg_chunks(line: Seq<char>, j: int) -> Seq<ChunkModel> {
    if period_segments(line)[j].len() <= MAX_CHUNK_CHARS as int {
        seq![
            ChunkModel {
                text: period_segments(line)[j],
                dest: ChunkDest::PeriodSeg { period_idx: j as usize },
            },
        ]
    } else {
        comma_chunks_from(line, j, 0)
    }
}

/// The chunks of the sentence segments from index `j` on.
pub open spec fn plan_from(line: Seq<char>, j: int) -> Seq<ChunkModel>
    decreases period_segments(line).len() - j,
{
    if j < 0 || j >= period_segments(line).len() {
        Seq::empty()
    } else {
        seg_chunks(line, j) + plan_from(line, j + 1)
    }
}

/// Every chunk of one line, in synthesis order: the line itself if short,
/// else the chunks of all its sentence segments.
pub open spec fn chunk_plan(line: Seq<char>) -> Seq<ChunkModel> {
    if line.len() <= MAX_CHUNK_CHARS as int {
        seq![ChunkModel { text: line, dest: ChunkDest::Whole }]
    } else {
        plan_from(line, 0)
    }
}

/// Decides the whole chunking of one line without doing any work: the exact
/// list of chunks, in order, each with its text and destination, or the
/// first clause piece that defeats the policy.
pub fn plan_line(text: &String) -> (r: Result<Vec<Chunk>, ChunkError>)
    ensures
        r is Ok <==> !line_fatal(text@),
        r matches Ok(plan) ==> chunk_views(plan@) == chunk_plan(text@),
        r matches Err(e) ==> is_first_fatal_piece(text@, e.piece@, e.length as int),
{
    let cs = chars_of(text.as_str());
    if cs.len() <= MAX_CHUNK_CHARS {
        let mut plan: Vec<Chunk> = Vec::new();
        plan.push(Chunk { text: text.clone(), dest: ChunkDest::Whole });
        proof {
            assert(chunk_views(plan@) =~= chunk_plan(text@));
        }
        return Ok(plan);
    }
    let psegs = split_on(&cs, true);
    let csegs = split_on(&cs, false);
    let mut out: Vec<Chunk> = Vec::new();
    let mut j: usize = 0;
    proof {
        assert(chunk_views(out@) + plan_from(text@, 0) =~= plan_from(text@, 0));
    }
    while j < psegs.len()
        invariant
            text@.len() > MAX_CHUNK_CHARS as int,
            char_vec_views(psegs@) == period_segments(text@),
            char_vec_views(csegs@) == comma_segments(text@),
            j <= psegs@.len(),
            psegs@.len() == period_segments(text@).len(),
            csegs@.len() == comma_segments(text@).len(),
            chunk_views(out@) + plan_from(text@, j as int) == plan_from(text@, 0),
            (exists|j2: int|
                0 <= j2 < j && #[trigger] period_segments(text@)[j2].len()
                    > MAX_CHUNK_CHARS as int) ==> !comma_piece_fatal(text@),
        decreases psegs@.len() - j,
    {
        proof {
            assert(period_segments(text@)[j as int] == psegs@[j as int]@);
        }
        let ghost prior = out@;
        if psegs[j].len() <= MAX_CHUNK_CHARS {
            let chunk_text = string_of_chars(&psegs[j]);
            out.push(Chunk { text: chunk_text, dest: ChunkDest::PeriodSeg { period_idx: j } });
            proof {
                assert(chunk_views(out@) =~= chunk_views(prior) + seg_chunks(text@, j as int));
                assert((chunk_views(prior) + seg_chunks(text@, j as int)) + plan_from(
                    text@,
                    j as int + 1,
                ) =~= chunk_views(prior) + plan_from(text@, j as int));
            }
        } else {
            let mut k: usize = 0;
            proof {
                assert(chunk_views(out@) + comma_chunks_from(text@, j as int, 0) + plan_from(
                    text@,
                    j as int + 1,
                ) =~= chunk_views(out@) + plan_from(text@, j as int));
            }
            while k < csegs.len()
                invariant
                    text@.len() > MAX_CHUNK_CHARS as int,
                    j < period_segments(text@).len(),
                    period_segments(text@)[j as int].len() > MAX_CHUNK_CHARS as int,
                    char_vec_views(csegs@) == comma_segments(text@),
                    k <= csegs@.len(),
                    csegs@.len() == comma_segments(text@).len(),
                    chunk_views(out@) + comma_chunks_from(text@, j as int, k as int) + plan_from(
                        text@,
                        j as int + 1,
                    ) == plan_from(text@, 0),
                    forall|k2: int|
                        0 <= k2 < k ==> #[trigger] comma_segments(text@)[k2].len()
                            < MAX_CHUNK_CHARS as int,
                decreases csegs@.len() - k,
            {
                proof {
                    assert(comma_segments(text@)[k as int] == csegs@[k as int]@);
                }
                if csegs[k].len() >= MAX_CHUNK_CHARS {
                    let piece = string_of_chars(&csegs[k]);
                    let length = csegs[k].len();
                    proof {
                        assert(comma_segments(text@)[k as int] == piece@);
                        assert(comma_segments(text@)[k as int].len() >= MAX_CHUNK_CHARS as int);
                        assert(line_fatal(text@));
                    }
                    return Err(ChunkError { piece, length });
                }
                let ghost prior_inner = out@;
                let chunk_text = string_of_chars(&csegs[k]);
                out.push(
                    Chunk {
                        text: chunk_text,
                        dest: ChunkDest::CommaSeg { period_idx: j, comma_idx: k },
                    },
                );
                proof {
                    assert(chunk_views(out@) =~= chunk_views(prior_inner).push(
                        ChunkModel {
                            text: comma_segments(text@)[k as int],
                            dest: ChunkDest::CommaSeg { period_idx: j, comma_idx: k },
                        },
                    ));
                    assert(chunk_views(out@) + comma_chunks_from(text@, j as int, k as int + 1)
                        =~= chunk_views(prior_inner) + comma_chunks_from(text@, j as int, k as int));
                }
                k += 1;
            }
            proof {
                assert(!comma_piece_fatal(text@));
                assert(comma_chunks_from(text@, j as int, k as int) =~= Seq::<ChunkModel>::empty());
                assert(chunk_views(out@) + Seq::<ChunkModel>::empty() + plan_from(
                    text@,
                    j as int + 1,
                ) =~= chunk_views(out@) + plan_from(text@, j as int + 1));
            }
        }
        j += 1;
    }
    proof {
        assert(plan_from(text@, j as int) =~= Seq::<ChunkModel>::empty());
        assert(chunk_views(out@) + Seq::<ChunkModel>::empty() =~= chunk_views(out@));
        if line_fatal(text@) {
            let j2 = choose|j2: int|
                0 <= j2 < period_segments(text@).len()
                    && #[trigger] period_segments(text@)[j2].len() > MAX_CHUNK_CHARS as int;
            assert(false);
        }
    }
    Ok(out)
}

proof fn lemma_comma_chunks_from_len(line: Seq<char>, j: int, k: int)
    requires
        0 <= k <= comma_segments(line).len(),
    ensures
        comma_chunks_from(line, j, k).len() == comma_segments(line).len() - k,
    decreases comma_segments(line).len() - k,
{
    if k < comma_segments(line).len() {
        lemma_comma_chunks_from_len(line, j, k + 1);
    }
}

proof fn lemma_plan_from_len(line: Seq<char>, j: int)
    requires
        0 <= j <= period_segments(line).len(),
    ensures
        plan_from(line, j).len() == jobs_from(
            period_segments(line),
            comma_segments(line).len() as int,
            j,
        ),
    decreases period_segments(line).len() - j,
{
    if j < period_segments(line).len() {
        if period_segments(line)[j].len() > MAX_CHUNK_CHARS as int {
            lemma_comma_chunks_from_len(line, j, 0);
        }
        lemma_plan_from_len(line, j + 1);
    }
}

/// The job counter and the chunker agree: for every line, the number of
/// jobs the counter predicts equals the number of chunks the plan holds.
pub proof fn lemma_counter_matches_chunker(line: Seq<char>)
    ensures
        line_job_count(line) == chunk_plan(line).len(),
{
    if line.len() > MAX_CHUNK_CHARS as int {
        lemma_plan_from_len(line, 0);
    }
}

/// A line of at most `MAX_CHUNK_CHARS` characters — characters, that is
/// Unicode scalar values, never bytes — is one job and one chunk: the whole
/// line, destined for the line's own single file.
pub proof fn lemma_short_line_single_chunk(line: Seq<char>)
    requires
        line.len() <= MAX_CHUNK_CHARS as int,
    ensures
        line_job_count(line) == 1,
        chunk_plan(line) == seq![ChunkModel { text: line, dest: ChunkDest::Whole }],
{
}

proof fn lemma_jobs_from_all_short(segs: Seq<Seq<char>>, comma_count: int, j: int)
    requires
        0 <= j <= segs.len(),
        forall|j2: int| 0 <= j2 < segs.len() ==> #[trigger] segs[j2].len() <= MAX_CHUNK_CHARS as int,
    ensures
        jobs_from(segs, comma_count, j) == segs.len() - j,
    decreases segs.len() - j,
{
    if j < segs.len() {
        lemma_jobs_from_all_short(segs, comma_count, j + 1);
    }
}

/// For an over-long line whose sentence split leaves only acceptable
/// segments, the number of jobs is exactly the number of sentence segments.
pub proof fn lemma_all_segments_short_job_count(line: Seq<char>)
    requires
        line.len() > MAX_CHUNK_CHARS as int,
        forall|j: int|
            0 <= j < period_segments(line).len() ==> #[trigger] period_segments(line)[j].len()
                <= MAX_CHUNK_CHARS as int,
    ensures
        line_job_count(line) == period_segments(line).len(),
{
    lemma_jobs_from_all_short(period_segments(line), comma_segments(line).len() as int, 0);
}

/// A clause piece of exactly `MAX_CHUNK_CHARS` characters already defeats
/// the policy, once the sentence split leaves an over-long segment: the
/// clause-level threshold is one character stricter than the sentence-level
/// one.
pub proof fn lemma_comma_piece_at_limit_fatal(line: Seq<char>, k: int)
    requires
        line.len() > MAX_CHUNK_CHARS as int,
        has_overlong_period_segment(line),
        0 <= k < comma_segments(line).len(),
        comma_segments(line)[k].len() == MAX_CHUNK_CHARS as int,
    ensures
        line_fatal(line),
{
    assert(comma_segments(line)[k].len() >= MAX_CHUNK_CHARS as int);
}

/// A line all of whose clause pieces stay strictly below `MAX_CHUNK_CHARS`
/// characters is accepted, whatever its sentence split looks like.
pub proof fn lemma_comma_pieces_below_limit_accepted(line: Seq<char>)
    requires
        forall|k: int|
            0 <= k < comma_segments(line).len() ==> #[trigger] comma_segments(line)[k].len()
                < MAX_CHUNK_CHARS as int,
    ensures
        !line_fatal(line),
{
}

} // verus!
