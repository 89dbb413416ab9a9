//! The course of a scoring run: what to send, in which batches, and what to say.

use vstd::prelude::*;

use crate::config::Prefilter;
use crate::db::entities::{posting, Row};
use crate::pattern::{are_ascii_texts, pattern_of, PatternError};
use crate::text::number::{decimal, u128_text, u64_text, usize_text};
use crate::text::texts;
use crate::triage::prompt::{message_of, system_prompt, user_message, RUBRIC};
use crate::triage::scores::{apply_scores, are_verdicts, ScoreError, Scored, Usage, Verdict};
use crate::triage::screen::{
    are_ascii_postings, passed_by, passed_by_words, rejected_by, rejected_by_words,
    screen_postings, Screen,
};

verus! {

/// Postings per request.
pub const BATCH_SIZE: usize = 15;

/// Batches that are scored at the same time. The first batch is sent alone, to
/// warm the prompt cache.
pub const SCORE_CONCURRENCY: usize = 8;

/// Rough output tokens per posting for the estimate.
pub const EST_OUTPUT_TOKENS_PER_POSTING: usize = 50;

/// The reason recorded for a posting that the pre-filter rejects.
pub const PREFILTER_REASON: &'static str = "pre-filtered: title matched obvious-reject pattern";

/// The flags recorded for a posting that the pre-filter rejects.
pub const PREFILTER_FLAGS: &'static str = "[\"prefilter_reject\"]";

// ---------------------------------------------------------------------------
// Batches
// ---------------------------------------------------------------------------

/// A sequence cut into pieces of `n`, the last of which may be shorter.
pub open spec fn chunks<T>(s: Seq<T>, n: nat) -> Seq<Seq<T>>
    decreases s.len(),
    when n > 0
{
    if s.len() == 0 {
        Seq::empty()
    } else if s.len() <= n {
        seq![s]
    } else {
        seq![s.take(n as int)] + chunks(s.skip(n as int), n)
    }
}

/// The views of a list of batches.
pub open spec fn batch_views(v: Seq<Vec<posting::Model>>) -> Seq<Seq<posting::Model>> {
    v.map_values(|b: Vec<posting::Model>| b@)
}

/// Every piece holds from one to `n` elements, there are as many pieces as it
/// takes, and one after the other they are the sequence.
pub proof fn chunks_cover<T>(s: Seq<T>, n: nat)
    requires
        n > 0,
    ensures
        chunks(s, n).len() == (s.len() + n - 1) / n as int,
        forall|i: int| 0 <= i < chunks(s, n).len() ==> 0 < (#[trigger] chunks(s, n)[i]).len() <= n,
        chunks(s, n).flatten() == s,
    decreases s.len(),
{
    let c = chunks(s, n);
    reveal_with_fuel(Seq::flatten, 2);
    if s.len() == 0 {
        assert((s.len() + n - 1) / n as int == 0) by (nonlinear_arith)
            requires
                s.len() == 0,
                n > 0,
        ;
    } else if s.len() <= n {
        assert((s.len() + n - 1) / n as int == 1) by (nonlinear_arith)
            requires
                0 < s.len() <= n,
        ;
        assert(c.drop_first() =~= Seq::empty());
        assert(c.flatten() =~= s);
    } else {
        let rest = s.skip(n as int);
        chunks_cover(rest, n);
        assert((s.len() + n - 1) / n as int == 1 + (s.len() - n + n - 1) / n as int)
            by (nonlinear_arith)
            requires
                n > 0,
                s.len() > n,
        ;
        assert(c.drop_first() =~= chunks(rest, n));
        assert(c.flatten() =~= s.take(n as int) + rest);
        assert forall|i: int| 0 <= i < c.len() implies 0 < (#[trigger] c[i]).len() <= n by {
            if i > 0 {
                assert(c[i] == chunks(rest, n)[i - 1]);
            }
        }
    }
}

/// Cutting further elements off the end: what the pieces of a prefix are.
proof fn lemma_chunks_step<T>(s: Seq<T>, n: nat, k: int)
    requires
        n > 0,
        0 <= k,
        k + n <= s.len() || k < s.len(),
        k % n as int == 0,
    ensures
        chunks(s.take(if k + n <= s.len() {
            k + n
        } else {
            s.len() as int
        }), n) == chunks(s.take(k), n).push(
            s.subrange(
                k,
                if k + n <= s.len() {
                    k + n
                } else {
                    s.len() as int
                },
            ),
        ),
    decreases k,
{
    let e = if k + n <= s.len() {
        k + n
    } else {
        s.len() as int
    };
    let p = s.take(e);
    if k == 0 {
        assert(s.take(0).len() == 0);
        assert(s.subrange(0, e) =~= p);
        assert(chunks(p, n) =~= chunks(s.take(0), n).push(s.subrange(0, e)));
    } else {
        assert(k >= n) by (nonlinear_arith)
            requires
                k > 0,
                n > 0,
                k % n as int == 0,
        ;
        let rest = s.skip(n as int);
        assert((k - n) % n as int == 0) by (nonlinear_arith)
            requires
                n > 0,
                k % n as int == 0,
        ;
        lemma_chunks_step(rest, n, k - n);
        assert(p.skip(n as int) =~= rest.take(e - n));
        assert(s.take(k).skip(n as int) =~= rest.take(k - n));
        assert(p.take(n as int) =~= s.take(n as int));
        assert(s.take(k).take(n as int) =~= s.take(n as int));
        assert(rest.subrange(k - n, e - n) =~= s.subrange(k, e));
        if k > n {
            assert(chunks(p, n) =~= chunks(s.take(k), n).push(s.subrange(k, e)));
        } else {
            assert(rest.take(0).len() == 0);
            assert(s.take(k) =~= s.take(n as int));
            assert(chunks(s.take(k), n) =~= seq![s.take(n as int)]);
            assert(chunks(p, n) =~= chunks(s.take(k), n).push(s.subrange(k, e)));
        }
    }
}

/// Cut postings into batches.
pub fn batches(postings: &[posting::Model]) -> (r: Vec<Vec<posting::Model>>)
    ensures
        batch_views(r@) == chunks(postings@, BATCH_SIZE as nat),
{
    let mut out: Vec<Vec<posting::Model>> = Vec::new();
    let mut k: usize = 0;
    assert(postings@.take(0).len() == 0);
    assert(batch_views(out@) =~= chunks(postings@.take(0), BATCH_SIZE as nat));
    while k < postings.len()
        invariant
            k <= postings.len(),
            k % BATCH_SIZE == 0 || k == postings.len(),
            batch_views(out@) == chunks(postings@.take(k as int), BATCH_SIZE as nat),
        decreases postings.len() - k,
    {
        let e: usize = if postings.len() - k >= BATCH_SIZE {
            k + BATCH_SIZE
        } else {
            postings.len()
        };
        let mut batch: Vec<posting::Model> = Vec::new();
        let mut i: usize = k;
        while i < e
            invariant
                k <= i <= e <= postings.len(),
                batch@ =~= postings@.subrange(k as int, i as int),
            decreases e - i,
        {
            batch.push(postings[i].copy());
            i += 1;
        }
        let ghost before = out@;
        out.push(batch);
        proof {
            lemma_chunks_step(postings@, BATCH_SIZE as nat, k as int);
            assert(batch_views(out@) =~= batch_views(before).push(batch@));
        }
        k = e;
    }
    assert(postings@.take(postings.len() as int) =~= postings@);
    out
}

// ---------------------------------------------------------------------------
// The estimate
// ---------------------------------------------------------------------------

/// The number of bytes of a character in UTF-8.
pub open spec fn char_bytes(c: char) -> nat {
    if (c as u32) < 0x80 {
        1
    } else if (c as u32) < 0x800 {
        2
    } else if (c as u32) < 0x1_0000 {
        3
    } else {
        4
    }
}

/// The number of bytes of a text in UTF-8.
pub open spec fn text_bytes(s: Seq<char>) -> nat
    decreases s.len(),
{
    if s.len() == 0 {
        0
    } else {
        text_bytes(s.drop_last()) + char_bytes(s.last())
    }
}

/// The number of bytes of a text in UTF-8.
fn bytes_of(s: &str) -> (n: u128)
    ensures
        n == text_bytes(s@),
        n <= 4 * usize::MAX,
{
    let v = crate::text::chars_of(s);
    let mut n: u128 = 0;
    let mut i: usize = 0;
    while i < v.len()
        invariant
            i <= v.len(),
            v@ == s@,
            n == text_bytes(v@.take(i as int)),
            n <= 4 * i,
        decreases v.len() - i,
    {
        let c: u32 = v[i] as u32;
        let w: u128 = if c < 0x80 {
            1
        } else if c < 0x800 {
            2
        } else if c < 0x1_0000 {
            3
        } else {
            4
        };
        assert(v@.take(i + 1).drop_last() =~= v@.take(i as int));
        n = n + w;
        i += 1;
    }
    assert(v@.take(v.len() as int) =~= v@);
    n
}

/// Roughly the input tokens of the requests for the batches: a quarter of the
/// bytes of each request's prompt and message.
pub open spec fn input_tokens(system: Seq<char>, batches: Seq<Seq<posting::Model>>) -> nat
    decreases batches.len(),
{
    if batches.len() == 0 {
        0
    } else {
        input_tokens(system, batches.drop_last()) + (text_bytes(system) + text_bytes(
            message_of(batches.last()),
        )) / 4
    }
}

/// Roughly the input tokens of the requests for the batches.
fn estimate_input(system: &str, batches: &Vec<Vec<posting::Model>>) -> (n: u128)
    requires
        batches@.len() <= usize::MAX / 2,
    ensures
        n == input_tokens(system@, batch_views(batches@)),
{
    let mut n: u128 = 0;
    let mut i: usize = 0;
    let sys: u128 = bytes_of(system);
    assert(batch_views(batches@).take(0).len() == 0);
    while i < batches.len()
        invariant
            i <= batches.len(),
            sys == text_bytes(system@),
            sys <= 4 * usize::MAX,
            batches@.len() <= usize::MAX / 2,
            n == input_tokens(system@, batch_views(batches@).take(i as int)),
            n <= 2 * usize::MAX * i,
        decreases batches.len() - i,
    {
        let message = user_message(batches[i].as_slice());
        let msg: u128 = bytes_of(message.as_str());
        let ghost all = batch_views(batches@);
        proof {
            assert(all.take(i + 1).drop_last() =~= all.take(i as int));
            assert(all.take(i + 1).last() == batches@[i as int]@);
            assert(2 * usize::MAX * i + 2 * usize::MAX == 2 * usize::MAX * (i + 1))
                by (nonlinear_arith);
            assert(2 * usize::MAX * (i + 1) <= usize::MAX * usize::MAX) by (nonlinear_arith)
                requires
                    2 * (i + 1) <= usize::MAX,
            ;
            assert(usize::MAX * usize::MAX <= u128::MAX) by (nonlinear_arith)
                requires
                    usize::MAX <= 0xffff_ffff_ffff_ffff,
            ;
        }
        n = n + (sys + msg) / 4;
        i += 1;
    }
    assert(batch_views(batches@).take(batches.len() as int) =~= batch_views(batches@));
    n
}

/// Roughly the output tokens for a number of postings.
pub fn estimate_output(postings: usize) -> (n: u128)
    ensures
        n == postings * EST_OUTPUT_TOKENS_PER_POSTING,
{
    assert(postings * EST_OUTPUT_TOKENS_PER_POSTING <= u128::MAX) by (nonlinear_arith)
        requires
            postings <= 0xffff_ffff_ffff_ffff,
            EST_OUTPUT_TOKENS_PER_POSTING == 50,
    ;
    postings as u128 * EST_OUTPUT_TOKENS_PER_POSTING as u128
}

// ---------------------------------------------------------------------------
// The plan
// ---------------------------------------------------------------------------

/// What a run does, once the postings are screened.
#[derive(Debug, Clone)]
pub enum Plan {
    /// There is nothing to triage.
    Nothing,
    /// Report what would be sent; nothing is recorded and nothing is sent.
    Preview { dropped: usize, candidates: usize, requests: usize, input: u128, output: u128 },
    /// Record the rejects; there is nothing to send.
    RejectOnly { rejected: Vec<i32> },
    /// Record the rejects and send the batches.
    Score { rejected: Vec<i32>, system: String, batches: Vec<Vec<posting::Model>> },
}

/// The ids of postings.
pub open spec fn ids_of(postings: Seq<posting::Model>) -> Seq<i32> {
    postings.map_values(|p: posting::Model| p.id)
}

/// Whether a plan is the one for the screened postings.
pub open spec fn is_plan(
    plan: Plan,
    rejects: Seq<posting::Model>,
    candidates: Seq<posting::Model>,
    dry_run: bool,
    profile_text: Seq<char>,
) -> bool {
    let system = RUBRIC@ + profile_text;
    let pieces = chunks(candidates, BATCH_SIZE as nat);
    if rejects.len() + candidates.len() == 0 {
        plan is Nothing
    } else if dry_run {
        plan matches Plan::Preview { dropped, candidates: c, requests, input, output } && dropped
            == rejects.len() && c == candidates.len() && requests == pieces.len() && input
            == input_tokens(system, pieces) && output == candidates.len()
            * EST_OUTPUT_TOKENS_PER_POSTING
    } else if candidates.len() == 0 {
        plan matches Plan::RejectOnly { rejected } && rejected@ == ids_of(rejects)
    } else {
        plan matches Plan::Score { rejected, system: s, batches } && rejected@ == ids_of(rejects)
            && s@ == system && batch_views(batches@) == pieces
    }
}

/// The ids of postings.
fn ids(postings: &[posting::Model]) -> (r: Vec<i32>)
    ensures
        r@ == ids_of(postings@),
{
    let mut out: Vec<i32> = Vec::new();
    let mut i: usize = 0;
    while i < postings.len()
        invariant
            i <= postings.len(),
            out@ =~= ids_of(postings@.take(i as int)),
        decreases postings.len() - i,
    {
        out.push(postings[i].id);
        i += 1;
    }
    assert(postings@.take(postings.len() as int) =~= postings@);
    out
}

/// What to do with the screened postings.
pub fn plan(
    rejects: &[posting::Model],
    candidates: &[posting::Model],
    dry_run: bool,
    profile_text: &str,
) -> (r: Plan)
    ensures
        is_plan(r, rejects@, candidates@, dry_run, profile_text@),
{
    if rejects.len() == 0 && candidates.len() == 0 {
        return Plan::Nothing;
    }
    let system = system_prompt(profile_text);
    let pieces = batches(candidates);
    proof {
        chunks_cover(candidates@, BATCH_SIZE as nat);
        assert(pieces@.len() == batch_views(pieces@).len());
    }
    if dry_run {
        return Plan::Preview {
            dropped: rejects.len(),
            candidates: candidates.len(),
            requests: pieces.len(),
            input: estimate_input(system.as_str(), &pieces),
            output: estimate_output(candidates.len()),
        };
    }
    if candidates.len() == 0 {
        Plan::RejectOnly { rejected: ids(rejects) }
    } else {
        Plan::Score { rejected: ids(rejects), system, batches: pieces }
    }
}

/// Screen the untriaged postings and plan the run. It fails only where a pattern of
/// the pre-filter cannot be compiled. Of ASCII lists and postings it is the words
/// themselves that decide what is pre-filtered.
pub fn prepare(
    postings: Vec<posting::Model>,
    prefilter: &Prefilter,
    dry_run: bool,
    profile_text: &str,
) -> (r: Result<Plan, PatternError>)
    ensures
        r matches Ok(p) ==> is_plan(
            p,
            postings@.filter(
                rejected_by(
                    pattern_of(texts(prefilter.reject_titles@)),
                    pattern_of(texts(prefilter.keep_keywords@)),
                ),
            ),
            postings@.filter(
                passed_by(
                    pattern_of(texts(prefilter.reject_titles@)),
                    pattern_of(texts(prefilter.keep_keywords@)),
                ),
            ),
            dry_run,
            profile_text@,
        ),
        are_ascii_texts(texts(prefilter.reject_titles@)) && are_ascii_texts(
            texts(prefilter.keep_keywords@),
        ) && are_ascii_postings(postings@) ==> (r matches Ok(p) ==> is_plan(
            p,
            postings@.filter(
                rejected_by_words(
                    texts(prefilter.reject_titles@),
                    texts(prefilter.keep_keywords@),
                ),
            ),
            postings@.filter(
                passed_by_words(texts(prefilter.reject_titles@), texts(prefilter.keep_keywords@)),
            ),
            dry_run,
            profile_text@,
        )),
        postings@.len() == 0 ==> r is Ok,
        prefilter.reject_titles@.len() == 0 && prefilter.keep_keywords@.len() == 0 ==> r is Ok,
{
    if postings.len() == 0 {
        proof {
            reveal(Seq::filter);
        }
        return Ok(Plan::Nothing);
    }
    match Screen::build(prefilter) {
        Ok(screen) => {
            let (rejects, candidates) = screen_postings(&screen, postings);
            Ok(plan(rejects.as_slice(), candidates.as_slice(), dry_run, profile_text))
        },
        Err(e) => Err(e),
    }
}

/// A preview records nothing and sends nothing.
pub proof fn preview_spends_nothing(
    plan: Plan,
    rejects: Seq<posting::Model>,
    candidates: Seq<posting::Model>,
    profile_text: Seq<char>,
)
    requires
        is_plan(plan, rejects, candidates, true, profile_text),
    ensures
        plan is Nothing || plan is Preview,
{
}

/// Every candidate is sent, once and in order, and nothing else is.
pub proof fn every_candidate_is_sent(
    plan: Plan,
    rejects: Seq<posting::Model>,
    candidates: Seq<posting::Model>,
    profile_text: Seq<char>,
)
    requires
        is_plan(plan, rejects, candidates, false, profile_text),
        candidates.len() > 0,
    ensures
        plan matches Plan::Score { rejected, system, batches } && rejected@ == ids_of(rejects)
            && batch_views(batches@).flatten() == candidates && forall|i: int|
            0 <= i < batches@.len() ==> 0 < (#[trigger] batches@[i])@.len() <= BATCH_SIZE,
{
    chunks_cover(candidates, BATCH_SIZE as nat);
    match plan {
        Plan::Score { rejected, system, batches } => {
            assert forall|i: int| 0 <= i < batches@.len() implies 0 < (
            #[trigger] batches@[i])@.len() <= BATCH_SIZE by {
                assert(batch_views(batches@)[i] == batches@[i]@);
            }
        },
        _ => {},
    }
}

/// The pieces of a sequence follow each other without gaps: each but the last has `n`
/// elements.
pub proof fn pieces_follow_each_other<T>(s: Seq<T>, n: nat, k: int)
    requires
        n > 0,
        0 <= k < chunks(s, n).len(),
    ensures
        0 <= k * n < s.len(),
        chunks(s, n)[k] == s.subrange(
            k * n,
            if k * n + n <= s.len() {
                k * n + n
            } else {
                s.len() as int
            },
        ),
    decreases s.len(),
{
    if s.len() <= n {
        assert(chunks(s, n) =~= seq![s]);
        assert(k == 0);
        assert(k * n == 0) by (nonlinear_arith)
            requires
                k == 0,
        ;
        assert(s.subrange(0, s.len() as int) =~= s);
    } else {
        let rest = s.skip(n as int);
        if k == 0 {
            assert(k * n == 0) by (nonlinear_arith)
                requires
                    k == 0,
            ;
            assert(s.take(n as int) =~= s.subrange(0, n as int));
        } else {
            assert(chunks(s, n)[k] == chunks(rest, n)[k - 1]);
            pieces_follow_each_other(rest, n, k - 1);
            assert((k - 1) * n == k * n - n) by (nonlinear_arith);
            let a = (k - 1) * n;
            let b = if a + n <= rest.len() {
                a + n
            } else {
                rest.len() as int
            };
            assert(rest.subrange(a, b) =~= s.subrange(a + n, b + n));
        }
    }
}

/// What a run does with the screened postings. Without any it does nothing. A dry run
/// tells the numbers: what is dropped, what would be sent, in how many requests of fifteen
/// postings, and about how many tokens come back, fifty for each. Else the rejects are
/// recorded, and what is left is sent with the rubric and the profile, fifteen at a time.
pub proof fn runs_send_what_is_left(
    plan: Plan,
    rejects: Seq<posting::Model>,
    candidates: Seq<posting::Model>,
    dry_run: bool,
    profile_text: Seq<char>,
)
    requires
        is_plan(plan, rejects, candidates, dry_run, profile_text),
    ensures
        plan is Nothing <==> rejects.len() == 0 && candidates.len() == 0,
        plan is Preview <==> dry_run && rejects.len() + candidates.len() > 0,
        plan is RejectOnly <==> !dry_run && candidates.len() == 0 && rejects.len() > 0,
        plan is Score <==> !dry_run && candidates.len() > 0,
        plan matches Plan::Preview { dropped, candidates: c, requests, input, output } ==> dropped
            == rejects.len() && c == candidates.len() && requests == (candidates.len() + 14) / 15
            && output == 50 * candidates.len() && input == input_tokens(
            RUBRIC@ + profile_text,
            chunks(candidates, 15),
        ),
        plan matches Plan::RejectOnly { rejected } ==> rejected@.len() == rejects.len() && forall|
            i: int,
        |
            0 <= i < rejects.len() ==> #[trigger] rejected@[i] == rejects[i].id,
        plan matches Plan::Score { rejected, system, batches } ==> rejected@.len() == rejects.len()
            && (forall|i: int| 0 <= i < rejects.len() ==> #[trigger] rejected@[i] == rejects[i].id)
            && system@ == RUBRIC@ + profile_text && batches@.len() == (candidates.len() + 14) / 15
            && forall|k: int|
            0 <= k < batches@.len() ==> (#[trigger] batches@[k])@ == candidates.subrange(
                15 * k,
                if 15 * k + 15 <= candidates.len() {
                    15 * k + 15
                } else {
                    candidates.len() as int
                },
            ),
{
    chunks_cover(candidates, 15);
    let pieces = chunks(candidates, 15);
    match plan {
        Plan::Score { rejected, system, batches } => {
            assert(batch_views(batches@).len() == batches@.len());
            assert forall|k: int| 0 <= k < batches@.len() implies (#[trigger] batches@[k])@
                == candidates.subrange(
                15 * k,
                if 15 * k + 15 <= candidates.len() {
                    15 * k + 15
                } else {
                    candidates.len() as int
                },
            ) by {
                assert(batch_views(batches@)[k] == batches@[k]@);
                pieces_follow_each_other(candidates, 15, k);
            }
        },
        _ => {},
    }
}

/// The estimate of a run grows with each request by a quarter of the bytes that the
/// request has in UTF-8: those of the prompt and those of the message.
pub proof fn estimates_add_up(
    system: Seq<char>,
    batches: Seq<Seq<posting::Model>>,
    b: Seq<posting::Model>,
)
    ensures
        input_tokens(system, Seq::empty()) == 0,
        input_tokens(system, batches.push(b)) == input_tokens(system, batches) + (text_bytes(system)
            + text_bytes(message_of(b))) / 4,
{
    assert(batches.push(b).drop_last() =~= batches);
}

/// A text has the bytes of its characters: one each in ASCII, up to four beyond it.
pub proof fn bytes_are_counted_by_character(s: Seq<char>, c: char)
    ensures
        text_bytes(Seq::empty()) == 0,
        c < '\u{80}' ==> text_bytes(s.push(c)) == text_bytes(s) + 1,
        '\u{80}' <= c && c < '\u{800}' ==> text_bytes(s.push(c)) == text_bytes(s) + 2,
        '\u{800}' <= c && c < '\u{10000}' ==> text_bytes(s.push(c)) == text_bytes(s) + 3,
        '\u{10000}' <= c ==> text_bytes(s.push(c)) == text_bytes(s) + 4,
{
    assert(s.push(c).drop_last() =~= s);
}

// ---------------------------------------------------------------------------
// The tally
// ---------------------------------------------------------------------------

/// What a run has done so far.
#[derive(Debug, Clone, Copy, PartialEq, Eq, Structural)]
pub struct Tally {
    pub scored: u64,
    pub failed: u64,
    pub completed: usize,
    pub usage: Usage,
}

impl Tally {
    /// Nothing done yet.
    pub fn new() -> (r: Tally)
        ensures
            r == (Tally { scored: 0, failed: 0, completed: 0, usage: Usage::zero() }),
    {
        Tally { scored: 0, failed: 0, completed: 0, usage: Usage::none() }
    }

    /// Whether a batch can still be counted.
    pub open spec fn has_room(
        self,
        batch: Seq<posting::Model>,
        outcome: Result<(Vec<Scored>, Usage), ScoreError>,
    ) -> bool {
        &&& self.scored + self.failed + batch.len() <= u64::MAX
        &&& self.completed < usize::MAX
        &&& outcome matches Ok(o) ==> self.usage.fits(o.1)
    }

    /// Whether a batch can still be counted.
    pub fn can_absorb(
        &self,
        batch: &[posting::Model],
        outcome: &Result<(Vec<Scored>, Usage), ScoreError>,
    ) -> (r: bool)
        ensures
            r == self.has_room(batch@, *outcome),
    {
        let n: u128 = self.scored as u128 + self.failed as u128 + batch.len() as u128;
        n <= u64::MAX as u128 && self.completed < usize::MAX && match outcome {
            Ok((_, usage)) => self.usage.can_add(usage),
            Err(_) => true,
        }
    }

    /// Take in one batch's outcome: its usage and what to record, or the whole
    /// batch as failed, left untriaged for a later run to retry.
    pub fn absorb(
        &mut self,
        batch: &[posting::Model],
        outcome: &Result<(Vec<Scored>, Usage), ScoreError>,
    ) -> (r: Vec<Verdict>)
        requires
            old(self).has_room(batch@, *outcome),
        ensures
            match *outcome {
                Ok((results, usage)) => {
                    &&& are_verdicts(r@, batch@, results@)
                    &&& *final(self) == (Tally {
                        scored: (old(self).scored + r@.len()) as u64,
                        failed: old(self).failed,
                        completed: (old(self).completed + 1) as usize,
                        usage: old(self).usage.plus(usage),
                    })
                },
                Err(_) => {
                    &&& r@.len() == 0
                    &&& *final(self) == (Tally {
                        scored: old(self).scored,
                        failed: (old(self).failed + batch@.len()) as u64,
                        completed: (old(self).completed + 1) as usize,
                        usage: old(self).usage,
                    })
                },
            },
            final(self).scored + final(self).failed <= old(self).scored + old(self).failed
                + batch@.len(),
    {
        self.completed = self.completed + 1;
        match outcome {
            Ok((results, usage)) => {
                let verdicts = apply_scores(batch, results.as_slice());
                proof {
                    lemma_answered(batch@, results@);
                }
                self.usage.add(usage);
                self.scored = self.scored + verdicts.len() as u64;
                verdicts
            },
            Err(_) => {
                self.failed = self.failed + batch.len() as u64;
                Vec::new()
            },
        }
    }
}

/// No more postings are answered than the batch has.
proof fn lemma_answered(batch: Seq<posting::Model>, results: Seq<Scored>)
    ensures
        batch.filter(crate::triage::scores::is_answered(results)).len() <= batch.len(),
    decreases batch.len(),
{
    reveal(Seq::filter);
    if batch.len() > 0 {
        lemma_answered(batch.drop_last(), results);
    }
}

// ---------------------------------------------------------------------------
// What is said
// ---------------------------------------------------------------------------

/// There is nothing to triage.
pub const NOTHING_LINE: &'static str = "No untriaged postings. Run `jobpipe fetch` first.";

/// The end of a preview.
pub const PREVIEW_END_LINE: &'static str =
    "This was a dry run: no API request was made and nothing was charged.";

/// What a preview says first of the model that would be asked.
pub fn preview_line(model: &str, rejected: usize, candidates: usize, requests: usize) -> (r: String)
    ensures
        r@ == "Dry run: "@ + decimal((rejected + candidates) as nat) + " untriaged, "@ + decimal(
            rejected as nat,
        ) + " pre-filtered out, "@ + decimal(candidates as nat) + " would be sent to "@ + model@
            + " across "@ + decimal(requests as nat) + " request(s)."@,
{
    let mut s = "Dry run: ".to_owned();
    s.append(u128_text(rejected as u128 + candidates as u128).as_str());
    s.append(" untriaged, ");
    s.append(usize_text(rejected).as_str());
    s.append(" pre-filtered out, ");
    s.append(usize_text(candidates).as_str());
    s.append(" would be sent to ");
    s.append(model);
    s.append(" across ");
    s.append(usize_text(requests).as_str());
    s.append(" request(s).");
    s
}

/// What a preview says of the spend, given the cost in dollars.
pub fn estimate_line(input: u128, output: u128, cost: &str) -> (r: String)
    ensures
        r@ == "Estimated tokens: ~"@ + decimal(input as nat) + " in, ~"@ + decimal(output as nat)
            + " out. Estimated cost if you run it: ~$"@ + cost@
            + " (upper bound — prompt caching makes real runs cheaper)."@,
{
    let mut s = "Estimated tokens: ~".to_owned();
    s.append(u128_text(input).as_str());
    s.append(" in, ~");
    s.append(u128_text(output).as_str());
    s.append(" out. Estimated cost if you run it: ~$");
    s.append(cost);
    s.append(" (upper bound — prompt caching makes real runs cheaper).");
    s
}

/// What is said before the rejects are recorded.
pub fn prefilter_line(rejected: usize) -> (r: String)
    ensures
        r@ == "Pre-filtering "@ + decimal(rejected as nat) + " posting(s) by title (no API cost)…"@,
{
    let mut s = "Pre-filtering ".to_owned();
    s.append(usize_text(rejected).as_str());
    s.append(" posting(s) by title (no API cost)…");
    s
}

/// What is said when there was nothing to send.
pub fn reject_only_line(rejected: usize) -> (r: String)
    ensures
        r@ == "Triage complete: "@ + decimal(rejected as nat)
            + " pre-filtered, 0 scored by LLM."@,
{
    let mut s = "Triage complete: ".to_owned();
    s.append(usize_text(rejected).as_str());
    s.append(" pre-filtered, 0 scored by LLM.");
    s
}

/// What is said before the batches are sent to a model.
pub fn scoring_line(model: &str, total: usize, requests: usize, rejected: usize) -> (r: String)
    ensures
        r@ == "Scoring "@ + decimal(total as nat) + " posting(s) in "@ + decimal(requests as nat)
            + " batch(es) via "@ + model@ + ", up to "@ + decimal(SCORE_CONCURRENCY as nat)
            + " at a time ("@ + decimal(rejected as nat)
            + " pre-filtered already). Safe to Ctrl-C — progress is saved per batch."@,
        SCORE_CONCURRENCY == 8,
{
    let mut s = "Scoring ".to_owned();
    s.append(usize_text(total).as_str());
    s.append(" posting(s) in ");
    s.append(usize_text(requests).as_str());
    s.append(" batch(es) via ");
    s.append(model);
    s.append(", up to ");
    s.append(usize_text(SCORE_CONCURRENCY).as_str());
    s.append(" at a time (");
    s.append(usize_text(rejected).as_str());
    s.append(" pre-filtered already). Safe to Ctrl-C — progress is saved per batch.");
    s
}

/// The progress line, which counts completed batches and postings.
pub fn progress_line(t: &Tally, requests: usize, total: usize) -> (r: String)
    ensures
        r@ == "  batch "@ + decimal(t.completed as nat) + "/"@ + decimal(requests as nat) + " · "@
            + decimal((t.scored + t.failed) as nat) + "/"@ + decimal(total as nat)
            + " postings · "@ + decimal(t.scored as nat) + " scored, "@ + decimal(t.failed as nat)
            + " failed"@,
{
    let mut s = "  batch ".to_owned();
    s.append(usize_text(t.completed).as_str());
    s.append("/");
    s.append(usize_text(requests).as_str());
    s.append(" · ");
    s.append(u128_text(t.scored as u128 + t.failed as u128).as_str());
    s.append("/");
    s.append(usize_text(total).as_str());
    s.append(" postings · ");
    s.append(u64_text(t.scored).as_str());
    s.append(" scored, ");
    s.append(u64_text(t.failed).as_str());
    s.append(" failed");
    s
}

/// What is said at the end of a run.
pub fn complete_line(rejected: usize, t: &Tally) -> (r: String)
    ensures
        r@ == "Triage complete: "@ + decimal(rejected as nat) + " pre-filtered, "@ + decimal(
            t.scored as nat,
        ) + " scored, "@ + decimal(t.failed as nat) + " failed (left untriaged)."@,
{
    let mut s = "Triage complete: ".to_owned();
    s.append(usize_text(rejected).as_str());
    s.append(" pre-filtered, ");
    s.append(u64_text(t.scored).as_str());
    s.append(" scored, ");
    s.append(u64_text(t.failed).as_str());
    s.append(" failed (left untriaged).");
    s
}

/// What is said of the spend, given the cost in dollars.
pub fn spend_line(usage: &Usage, cost: &str) -> (r: String)
    ensures
        r@ == "Actual spend: $"@ + cost@ + " ("@ + decimal(usage.input_tokens as nat)
            + " input, "@ + decimal(usage.output_tokens as nat) + " output, "@ + decimal(
            usage.cache_creation_input_tokens as nat,
        ) + " cache-write, "@ + decimal(usage.cache_read_input_tokens as nat)
            + " cache-read tokens)."@,
{
    let mut s = "Actual spend: $".to_owned();
    s.append(cost);
    s.append(" (");
    s.append(u64_text(usage.input_tokens).as_str());
    s.append(" input, ");
    s.append(u64_text(usage.output_tokens).as_str());
    s.append(" output, ");
    s.append(u64_text(usage.cache_creation_input_tokens).as_str());
    s.append(" cache-write, ");
    s.append(u64_text(usage.cache_read_input_tokens).as_str());
    s.append(" cache-read tokens).");
    s
}

/// Whether the scores of the open postings are cleared before a run: when that was
/// asked for, and never in a preview.
pub fn clears_first(retriage: bool, dry_run: bool) -> (r: bool)
    ensures
        r == (retriage && !dry_run),
{
    retriage && !dry_run
}

/// What is said when there is no profile to score against.
pub fn no_profile(path: &str) -> (r: String)
    ensures
        r@ == path@ + " not found — it holds the candidate profile for scoring"@,
{
    let mut s = path.to_owned();
    s.append(" not found — it holds the candidate profile for scoring");
    s
}

/// What is said after scores were cleared.
pub fn cleared_line(n: u64) -> (r: String)
    ensures
        r@ == "Cleared scores on "@ + decimal(n as nat) + " open posting(s) for re-triage."@,
{
    let mut s = "Cleared scores on ".to_owned();
    s.append(u64_text(n).as_str());
    s.append(" open posting(s) for re-triage.");
    s
}

} // verus!
