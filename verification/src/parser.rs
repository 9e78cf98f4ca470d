//! The pipeline parser: a raw input line is split on the pipe
//! delimiter into segments, and each segment is tokenized on
//! whitespace into a program name and its arguments.  No
//! shell-metacharacter interpretation: tokens pass through verbatim.

use vstd::prelude::*;

use crate::text::is_space;
use crate::text::is_space_char;

verus! {

/// One stage of a pipeline: a program name and its arguments, in order.
#[derive(Debug)]
pub struct StageSpec {
    pub program: String,
    pub arguments: Vec<String>,
}

/// An ordered, non-empty sequence of stages.
#[derive(Debug)]
pub struct Pipeline {
    pub stages: Vec<StageSpec>,
}

/// Why a line was rejected.
#[derive(Debug, Clone, Copy, PartialEq, Eq, Structural)]
pub enum ParseError {
    /// A segment between pipe delimiters held no token: an empty or
    /// whitespace-only field, or a fully empty line.
    EmptyStage,
    /// The line held more stages than the configured maximum.
    TooManyStages,
}

/// Number of pipe delimiters in `s`.
pub open spec fn pipe_count(s: Seq<char>) -> nat
    decreases s.len(),
{
    if s.len() == 0 {
        0
    } else {
        pipe_count(s.drop_last()) + (if s.last() == '|' { 1nat } else { 0nat })
    }
}

/// The segments of `s`: the (untrimmed) text between consecutive pipe
/// delimiters, in order.  A line always has at least one segment.
pub open spec fn segments(s: Seq<char>) -> Seq<Seq<char>>
    decreases s.len(),
{
    if s.len() == 0 {
        seq![Seq::<char>::empty()]
    } else {
        let init = segments(s.drop_last());
        if s.last() == '|' {
            init.push(Seq::<char>::empty())
        } else {
            init.update(init.len() - 1, init.last().push(s.last()))
        }
    }
}

/// The whitespace-separated tokens of one segment, in order.  Leading
/// and trailing whitespace contributes nothing, so trimming a segment
/// first would not change its tokens.
pub open spec fn tokens(s: Seq<char>) -> Seq<Seq<char>>
    decreases s.len(),
{
    if s.len() == 0 {
        Seq::<Seq<char>>::empty()
    } else {
        let init = tokens(s.drop_last());
        let c = s.last();
        if is_space(c) {
            init
        } else if s.len() >= 2 && !is_space(s[s.len() - 2]) {
            init.update(init.len() - 1, init.last().push(c))
        } else {
            init.push(seq![c])
        }
    }
}

/// A stage carries exactly one token sequence: the program first, then
/// the arguments in order.
pub open spec fn stage_matches(st: StageSpec, toks: Seq<Seq<char>>) -> bool {
    &&& st.program@ == toks[0]
    &&& st.arguments@.len() == toks.len() - 1
    &&& forall|t: int| 0 <= t < st.arguments@.len() ==> #[trigger] st.arguments@[t]@ == toks[t + 1]
}

/// The inputs on which parsing succeeds: at most `max` segments, each
/// with at least one token.
pub open spec fn parse_accepts(s: Seq<char>, max: int) -> bool {
    &&& segments(s).len() <= max
    &&& forall|j: int| 0 <= j < segments(s).len() ==> tokens(#[trigger] segments(s)[j]).len() >= 1
}

impl Pipeline {
    /// Every parsed pipeline has at least one stage and no stage has an
    /// empty program name.
    pub open spec fn wf(&self) -> bool {
        &&& self.stages@.len() >= 1
        &&& forall|i: int| 0 <= i < self.stages@.len() ==> #[trigger] self.stages@[i].program@.len() >= 1
    }
}

/// A line has one more segment than it has pipe delimiters.
pub proof fn lemma_stage_count(s: Seq<char>)
    ensures
        segments(s).len() == pipe_count(s) + 1,
    decreases s.len(),
{
    if s.len() > 0 {
        lemma_stage_count(s.drop_last());
    }
}

/// A line without a pipe delimiter is a single segment: itself.
pub proof fn lemma_no_pipe_single_segment(s: Seq<char>)
    requires
        pipe_count(s) == 0,
    ensures
        segments(s) =~= seq![s],
    decreases s.len(),
{
    if s.len() == 0 {
        assert(s =~= Seq::<char>::empty());
    } else {
        assert(s.last() != '|');
        lemma_no_pipe_single_segment(s.drop_last());
        assert(s.drop_last().push(s.last()) =~= s);
    }
}

/// A line with no pipe delimiter and at least one token is accepted
/// under any stage cap of at least one, as a single stage whose tokens
/// are exactly the line's own tokens in order.
pub proof fn lemma_parse_single_stage(s: Seq<char>, max: int)
    requires
        pipe_count(s) == 0,
        tokens(s).len() >= 1,
        max >= 1,
    ensures
        parse_accepts(s, max),
        segments(s).len() == 1,
        tokens(segments(s)[0]) == tokens(s),
{
    lemma_no_pipe_single_segment(s);
}

/// A segment that ends in a non-whitespace character has at least one
/// token.
proof fn lemma_tokens_last_nonspace(s: Seq<char>)
    requires
        s.len() >= 1,
        !is_space(s.last()),
    ensures
        tokens(s).len() >= 1,
    decreases s.len(),
{
    if s.len() >= 2 && !is_space(s[s.len() - 2]) {
        lemma_tokens_last_nonspace(s.drop_last());
    }
}

/// Every token is non-empty: whitespace never enters a token, and a
/// token begins only at a non-whitespace character.
pub proof fn lemma_tokens_nonempty(s: Seq<char>)
    ensures
        forall|t: int| 0 <= t < tokens(s).len() ==> #[trigger] tokens(s)[t].len() >= 1,
    decreases s.len(),
{
    if s.len() > 0 {
        lemma_tokens_nonempty(s.drop_last());
        if !is_space(s.last()) && s.len() >= 2 && !is_space(s[s.len() - 2]) {
            lemma_tokens_last_nonspace(s.drop_last());
        }
    }
}

/// Dropping one leading whitespace character leaves the tokens
/// unchanged.
proof fn lemma_tokens_drop_leading_space(s: Seq<char>)
    requires
        s.len() >= 1,
        is_space(s.first()),
    ensures
        tokens(s.drop_first()) == tokens(s),
    decreases s.len(),
{
    if s.len() == 1 {
        assert(s.drop_first() =~= Seq::<char>::empty());
        assert(s.drop_last() =~= Seq::<char>::empty());
    } else {
        let t = s.drop_first();
        let sd = s.drop_last();
        assert(sd.first() == s.first());
        lemma_tokens_drop_leading_space(sd);
        assert(sd.drop_first() =~= t.drop_last());
        assert(t.last() == s.last());
        if is_space(s.last()) {
            assert(tokens(s) == tokens(sd));
            assert(tokens(t) == tokens(t.drop_last()));
        } else if s.len() >= 3 && !is_space(s[s.len() - 2]) {
            assert(t.len() >= 2 && t[t.len() - 2] == s[s.len() - 2]);
            let init = tokens(sd);
            assert(tokens(s) == init.update(init.len() - 1, init.last().push(s.last())));
            assert(tokens(t) == init.update(init.len() - 1, init.last().push(t.last())));
        } else {
            assert(s.len() < 3 || is_space(s[s.len() - 2]));
            assert(s[0] == s.first());
            assert(tokens(s) == tokens(sd).push(seq![s.last()]));
            assert(t.len() < 2 || is_space(t[t.len() - 2]));
            assert(tokens(t) == tokens(t.drop_last()).push(seq![t.last()]));
        }
    }
}

proof fn lemma_tokens_trim_front(s: Seq<char>)
    ensures
        tokens(crate::text::trim_front(s)) == tokens(s),
    decreases s.len(),
{
    if s.len() > 0 && is_space(s.first()) {
        lemma_tokens_drop_leading_space(s);
        lemma_tokens_trim_front(s.drop_first());
    }
}

proof fn lemma_tokens_trim_back(s: Seq<char>)
    ensures
        tokens(crate::text::trim_back(s)) == tokens(s),
    decreases s.len(),
{
    if s.len() > 0 && is_space(s.last()) {
        lemma_tokens_trim_back(s.drop_last());
    }
}

/// Tokens are insensitive to surrounding whitespace: trimming a segment
/// before tokenizing it changes nothing, so the stages of a parsed
/// line are exactly its trimmed, whitespace-tokenized segments.
pub proof fn lemma_tokens_of_trimmed(s: Seq<char>)
    ensures
        tokens(crate::text::trim_spec(s)) == tokens(s),
{
    lemma_tokens_trim_front(s);
    lemma_tokens_trim_back(crate::text::trim_front(s));
}

/// Extending a scanned prefix with a whitespace character leaves its
/// tokens unchanged.
proof fn lemma_tokens_skip_space(s: Seq<char>, i: int)
    requires
        0 <= i < s.len(),
        is_space(s[i]),
    ensures
        tokens(s.subrange(0, i + 1)) == tokens(s.subrange(0, i)),
{
    let q = s.subrange(0, i + 1);
    assert(q.drop_last() =~= s.subrange(0, i));
    assert(is_space(q.last()));
}

/// A maximal run of non-whitespace characters `s[start..i]`, flanked by
/// the start of the line or whitespace, scans to one new token.
proof fn lemma_tokens_extend_token(s: Seq<char>, start: int, i: int)
    requires
        0 <= start < i <= s.len(),
        start == 0 || is_space(s[start - 1]),
        forall|k: int| start <= k < i ==> !is_space(s[k]),
    ensures
        tokens(s.subrange(0, i)) =~= tokens(s.subrange(0, start)).push(s.subrange(start, i)),
    decreases i,
{
    let q = s.subrange(0, i);
    let init = tokens(s.subrange(0, i - 1));
    assert(q.drop_last() =~= s.subrange(0, i - 1));
    assert(q.last() == s[i - 1]);
    assert(!is_space(q.last()));
    if i == start + 1 {
        if start == 0 {
            assert(q.len() == 1);
            assert(tokens(q) == init.push(seq![q.last()]));
        } else {
            assert(q[q.len() - 2] == s[start - 1]);
            assert(is_space(q[q.len() - 2]));
            assert(tokens(q) == init.push(seq![q.last()]));
        }
        assert(seq![s[start]] =~= s.subrange(start, i));
    } else {
        lemma_tokens_extend_token(s, start, i - 1);
        let pre = tokens(s.subrange(0, start));
        assert(q[q.len() - 2] == s[i - 2]);
        assert(!is_space(s[i - 2]));
        assert(q.len() >= 2);
        assert(tokens(q) == init.update(init.len() - 1, init.last().push(q.last())));
        assert(init == pre.push(s.subrange(start, i - 1)));
        assert(init.last() == s.subrange(start, i - 1));
        assert(s.subrange(start, i - 1).push(s[i - 1]) =~= s.subrange(start, i));
        assert(tokens(q) =~= pre.push(s.subrange(start, i)));
    }
}

/// The whitespace-separated tokens of `seg`, each as a fresh string,
/// in order.
pub fn tokenize(seg: &str) -> (toks: Vec<String>)
    ensures
        toks@.len() == tokens(seg@).len(),
        forall|t: int| 0 <= t < toks@.len() ==> #[trigger] toks@[t]@ == tokens(seg@)[t],
{
    let n = seg.unicode_len();
    let mut toks: Vec<String> = Vec::new();
    let mut i: usize = 0;
    proof {
        assert(seg@.subrange(0, 0) =~= Seq::<char>::empty());
    }
    while i < n
        invariant
            i <= n,
            n == seg@.len(),
            i < n ==> (!is_space(seg@[i as int]) ==> i == 0 || is_space(seg@[i - 1])),
            toks@.len() == tokens(seg@.subrange(0, i as int)).len(),
            forall|t: int|
                0 <= t < toks@.len() ==> #[trigger] toks@[t]@ == tokens(seg@.subrange(0, i as int))[t],
        decreases n - i,
    {
        if is_space_char(seg.get_char(i)) {
            proof {
                lemma_tokens_skip_space(seg@, i as int);
            }
            i = i + 1;
        } else {
            let start = i;
            i = i + 1;
            while i < n && !is_space_char(seg.get_char(i))
                invariant
                    start < i <= n,
                    n == seg@.len(),
                    start == 0 || is_space(seg@[start - 1]),
                    forall|k: int| start <= k < i ==> !is_space(seg@[k]),
                decreases n - i,
            {
                i = i + 1;
            }
            proof {
                lemma_tokens_extend_token(seg@, start as int, i as int);
            }
            toks.push(seg.substring_char(start, i).to_owned());
        }
    }
    proof {
        assert(seg@.subrange(0, n as int) =~= seg@);
    }
    toks
}

/// Scanning one more pipe delimiter closes the current segment and
/// opens an empty one.
proof fn lemma_segments_push_pipe(s: Seq<char>, i: int)
    requires
        0 <= i < s.len(),
        s[i] == '|',
    ensures
        segments(s.subrange(0, i + 1)) == segments(s.subrange(0, i)).push(Seq::<char>::empty()),
{
    let q = s.subrange(0, i + 1);
    assert(q.drop_last() =~= s.subrange(0, i));
    assert(q.last() == '|');
}

/// Scanning one more ordinary character appends it to the current
/// segment.
proof fn lemma_segments_push_char(s: Seq<char>, i: int)
    requires
        0 <= i < s.len(),
        s[i] != '|',
    ensures
        segments(s.subrange(0, i + 1)) == ({
            let init = segments(s.subrange(0, i));
            init.update(init.len() - 1, init.last().push(s[i]))
        }),
{
    let q = s.subrange(0, i + 1);
    assert(q.drop_last() =~= s.subrange(0, i));
    assert(q.last() == s[i]);
}

/// Splits `line` into its segments between pipe delimiters, each as a
/// fresh string, in order and untrimmed.
fn split_segments(line: &str) -> (segs: Vec<String>)
    ensures
        segs@.len() == segments(line@).len(),
        forall|j: int| 0 <= j < segs@.len() ==> #[trigger] segs@[j]@ == segments(line@)[j],
{
    let n = line.unicode_len();
    let mut segs: Vec<String> = Vec::new();
    let mut start: usize = 0;
    let mut i: usize = 0;
    proof {
        assert(line@.subrange(0, 0) =~= Seq::<char>::empty());
        assert(segments(Seq::<char>::empty()) == seq![Seq::<char>::empty()]);
        lemma_stage_count(line@.subrange(0, 0));
    }
    while i < n
        invariant
            start <= i <= n,
            n == line@.len(),
            segments(line@.subrange(0, i as int)).len() == segs@.len() + 1,
            forall|j: int|
                0 <= j < segs@.len() ==> #[trigger] segs@[j]@ == segments(line@.subrange(0, i as int))[j],
            segments(line@.subrange(0, i as int)).last() == line@.subrange(start as int, i as int),
        decreases n - i,
    {
        let c = line.get_char(i);
        if c == '|' {
            proof {
                lemma_segments_push_pipe(line@, i as int);
            }
            segs.push(line.substring_char(start, i).to_owned());
            start = i + 1;
            proof {
                assert(line@.subrange(start as int, i + 1) =~= Seq::<char>::empty());
            }
        } else {
            proof {
                lemma_segments_push_char(line@, i as int);
                assert(line@.subrange(start as int, i + 1) =~= line@.subrange(
                    start as int,
                    i as int,
                ).push(line@[i as int]));
            }
        }
        i = i + 1;
    }
    proof {
        assert(line@.subrange(0, n as int) =~= line@);
    }
    segs.push(line.substring_char(start, n).to_owned());
    segs
}

/// Parses `line` into a pipeline of at most `max_stages` stages.
///
/// The line is split on `|`; each segment is tokenized on whitespace;
/// the first token of a segment is the stage's program and the rest are
/// its arguments, in order.  Exactly the lines with at most
/// `max_stages` segments, none of them blank, are accepted.
pub fn parse(line: &str, max_stages: usize) -> (r: Result<Pipeline, ParseError>)
    ensures
        match r {
            Ok(p) => {
                &&& parse_accepts(line@, max_stages as int)
                &&& p.wf()
                &&& p.stages@.len() == segments(line@).len()
                &&& forall|j: int|
                    0 <= j < p.stages@.len() ==> stage_matches(
                        #[trigger] p.stages@[j],
                        tokens(segments(line@)[j]),
                    )
            },
            Err(ParseError::TooManyStages) => segments(line@).len() > max_stages,
            Err(ParseError::EmptyStage) => {
                &&& segments(line@).len() <= max_stages
                &&& exists|j: int|
                    0 <= j < segments(line@).len() && tokens(#[trigger] segments(line@)[j]).len()
                        == 0
            },
        },
{
    let segs = split_segments(line);
    if segs.len() > max_stages {
        return Err(ParseError::TooManyStages);
    }
    let mut stages: Vec<StageSpec> = Vec::new();
    let mut j: usize = 0;
    while j < segs.len()
        invariant
            j <= segs@.len(),
            segs@.len() == segments(line@).len(),
            segs@.len() <= max_stages,
            forall|q: int| 0 <= q < segs@.len() ==> #[trigger] segs@[q]@ == segments(line@)[q],
            stages@.len() == j,
            forall|q: int| 0 <= q < j ==> tokens(#[trigger] segments(line@)[q]).len() >= 1,
            forall|q: int|
                0 <= q < j ==> stage_matches(#[trigger] stages@[q], tokens(segments(line@)[q])),
            forall|q: int| 0 <= q < j ==> #[trigger] stages@[q].program@.len() >= 1,
        decreases segs@.len() - j,
    {
        let toks = tokenize(segs[j].as_str());
        if toks.len() == 0 {
            return Err(ParseError::EmptyStage);
        }
        proof {
            lemma_tokens_nonempty(segs@[j as int]@);
        }
        let program = toks[0].clone();
        let mut arguments: Vec<String> = Vec::new();
        let mut t: usize = 1;
        while t < toks.len()
            invariant
                1 <= t <= toks@.len(),
                arguments@.len() == t - 1,
                forall|k: int| 0 <= k < arguments@.len() ==> arguments@[k] == toks@[k + 1],
            decreases toks@.len() - t,
        {
            arguments.push(toks[t].clone());
            t = t + 1;
        }
        stages.push(StageSpec { program, arguments });
        proof {
            let toks_spec = tokens(segments(line@)[j as int]);
            assert(segs@[j as int]@ == segments(line@)[j as int]);
            assert(stages@[j as int].program@ == toks_spec[0]);
            assert(stage_matches(stages@[j as int], toks_spec));
        }
        j = j + 1;
    }
    proof {
        lemma_stage_count(line@);
    }
    Ok(Pipeline { stages })
}

} // verus!

