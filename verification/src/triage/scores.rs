//! What comes back from scoring, and what is recorded of it.

use vstd::prelude::*;

use crate::db::entities::posting;
use crate::json::{json_strings, strings_to_json};
use crate::text::search::{find, find_char, lemma_find, lemma_rfind, rfind, rfind_char};
use crate::text::{chars_of, opt_text, range_of, same_text, string_of, texts, trim, trim_chars};

verus! {

/// The rubric caps any posting whose location fails the hard gate at this score.
/// The cap is applied again from the reply's own flags, since a fast model may
/// report the failure and still return a higher score.
pub const LOCATION_FAIL_CAP: i32 = 3;

/// One posting's score as returned by the model.
#[derive(Debug, Clone)]
pub struct Scored {
    pub external_id: String,
    pub score: i64,
    pub reason: String,
    pub flags: Vec<String>,
}

/// A block of a reply.
#[derive(Debug, Clone)]
pub struct ContentBlock {
    pub kind: String,
    pub text: String,
}

/// Token usage of one reply, or of several together.
#[derive(Debug, Clone, Copy, PartialEq, Eq, Structural)]
pub struct Usage {
    pub input_tokens: u64,
    pub output_tokens: u64,
    pub cache_creation_input_tokens: u64,
    pub cache_read_input_tokens: u64,
}

/// A reply to a scoring request.
#[derive(Debug, Clone)]
pub struct AnthropicResponse {
    pub content: Vec<ContentBlock>,
    pub stop_reason: Option<String>,
    pub usage: Usage,
}

/// Why a batch got no scores.
#[derive(Debug, Clone)]
pub enum ScoreError {
    /// The reply carried a status other than success.
    Status { status: String, body: String },
    /// The model refused.
    Refused,
    /// The reply has no text.
    NoText,
    /// The text has no opening bracket.
    NoArray,
    /// The text has no closing bracket.
    NoTerminator,
    /// Anything else, in words.
    Other(String),
}

impl ScoreError {
    /// The message of the error.
    pub open spec fn text(self) -> Seq<char> {
        match self {
            ScoreError::Status { status, body } => "Anthropic API returned "@ + status@ + ": "@
                + body@,
            ScoreError::Refused => "model refused to score this batch"@,
            ScoreError::NoText => "no text block in Anthropic response"@,
            ScoreError::NoArray => "no JSON array in output"@,
            ScoreError::NoTerminator => "no JSON array terminator in output"@,
            ScoreError::Other(s) => s@,
        }
    }

    /// The message of the error.
    pub fn message(&self) -> (r: String)
        ensures
            r@ == self.text(),
            match self {
                ScoreError::Status { status, body } => r@ == "Anthropic API returned "@ + status@
                    + ": "@ + body@,
                ScoreError::Refused => r@ == "model refused to score this batch"@,
                ScoreError::NoText => r@ == "no text block in Anthropic response"@,
                ScoreError::NoArray => r@ == "no JSON array in output"@,
                ScoreError::NoTerminator => r@ == "no JSON array terminator in output"@,
                ScoreError::Other(s) => r@ == s@,
            },
    {
        match self {
            ScoreError::Status { status, body } => {
                let mut s = "Anthropic API returned ".to_owned();
                s.append(status.as_str());
                s.append(": ");
                s.append(body.as_str());
                s
            },
            ScoreError::Refused => "model refused to score this batch".to_owned(),
            ScoreError::NoText => "no text block in Anthropic response".to_owned(),
            ScoreError::NoArray => "no JSON array in output".to_owned(),
            ScoreError::NoTerminator => "no JSON array terminator in output".to_owned(),
            ScoreError::Other(s) => s.clone(),
        }
    }
}

impl Usage {
    /// No usage.
    pub fn none() -> (r: Usage)
        ensures
            r == Usage::zero(),
    {
        Usage {
            input_tokens: 0,
            output_tokens: 0,
            cache_creation_input_tokens: 0,
            cache_read_input_tokens: 0,
        }
    }

    /// No usage.
    pub open spec fn zero() -> Usage {
        Usage {
            input_tokens: 0,
            output_tokens: 0,
            cache_creation_input_tokens: 0,
            cache_read_input_tokens: 0,
        }
    }

    /// Whether the sums of two usages can be counted.
    pub open spec fn fits(self, other: Usage) -> bool {
        &&& self.input_tokens + other.input_tokens <= u64::MAX
        &&& self.output_tokens + other.output_tokens <= u64::MAX
        &&& self.cache_creation_input_tokens + other.cache_creation_input_tokens <= u64::MAX
        &&& self.cache_read_input_tokens + other.cache_read_input_tokens <= u64::MAX
    }

    /// Two usages together.
    pub open spec fn plus(self, other: Usage) -> Usage {
        Usage {
            input_tokens: (self.input_tokens + other.input_tokens) as u64,
            output_tokens: (self.output_tokens + other.output_tokens) as u64,
            cache_creation_input_tokens: (self.cache_creation_input_tokens
                + other.cache_creation_input_tokens) as u64,
            cache_read_input_tokens: (self.cache_read_input_tokens
                + other.cache_read_input_tokens) as u64,
        }
    }

    /// Whether the sums of two usages can be counted.
    pub fn can_add(&self, other: &Usage) -> (r: bool)
        ensures
            r == self.fits(*other),
    {
        self.input_tokens <= u64::MAX - other.input_tokens && self.output_tokens <= u64::MAX
            - other.output_tokens && self.cache_creation_input_tokens <= u64::MAX
            - other.cache_creation_input_tokens && self.cache_read_input_tokens <= u64::MAX
            - other.cache_read_input_tokens
    }

    /// Add the usage of another reply.
    pub fn add(&mut self, other: &Usage)
        requires
            old(self).fits(*other),
        ensures
            *final(self) == old(self).plus(*other),
    {
        self.input_tokens = self.input_tokens + other.input_tokens;
        self.output_tokens = self.output_tokens + other.output_tokens;
        self.cache_creation_input_tokens = self.cache_creation_input_tokens
            + other.cache_creation_input_tokens;
        self.cache_read_input_tokens = self.cache_read_input_tokens
            + other.cache_read_input_tokens;
    }
}

// ---------------------------------------------------------------------------
// Reading a reply
// ---------------------------------------------------------------------------

/// Accept a reply by its status: any success passes, anything else is an error
/// with the status and the body.
pub fn check_reply(code: u16, status: &str, body: &str) -> (r: Result<(), ScoreError>)
    ensures
        200 <= code <= 299 <==> r is Ok,
        r matches Err(e) ==> e matches ScoreError::Status { status: s, body: b } && s@ == status@
            && b@ == body@,
{
    if 200 <= code && code <= 299 {
        Ok(())
    } else {
        Err(ScoreError::Status { status: status.to_owned(), body: body.to_owned() })
    }
}

/// The first text block.
pub open spec fn first_text(content: Seq<ContentBlock>) -> Option<Seq<char>>
    decreases content.len(),
{
    if content.len() == 0 {
        None
    } else if content[0].kind@ == "text"@ {
        Some(content[0].text@)
    } else {
        first_text(content.drop_first())
    }
}

/// The text of a reply: that of its first text block, unless the model refused.
pub fn reply_text(reply: &AnthropicResponse) -> (r: Result<String, ScoreError>)
    ensures
        match r {
            Ok(s) => opt_text(reply.stop_reason) != Some("refusal"@) && first_text(
                reply.content@,
            ) == Some(s@),
            Err(ScoreError::Refused) => opt_text(reply.stop_reason) == Some("refusal"@),
            Err(ScoreError::NoText) => opt_text(reply.stop_reason) != Some("refusal"@)
                && first_text(reply.content@) is None,
            Err(_) => false,
        },
{
    match &reply.stop_reason {
        Some(s) => if same_text(s.as_str(), "refusal") {
            return Err(ScoreError::Refused);
        },
        None => {},
    }
    let mut i: usize = 0;
    assert(reply.content@.skip(0) =~= reply.content@);
    while i < reply.content.len()
        invariant
            i <= reply.content.len(),
            opt_text(reply.stop_reason) != Some("refusal"@),
            first_text(reply.content@) == first_text(reply.content@.skip(i as int)),
        decreases reply.content.len() - i,
    {
        let b = &reply.content[i];
        if same_text(b.kind.as_str(), "text") {
            return Ok(b.text.clone());
        }
        assert(reply.content@.skip(i as int).drop_first() =~= reply.content@.skip(i + 1));
        i += 1;
    }
    Err(ScoreError::NoText)
}

/// The array in the model's output, tolerating stray prose or code fences: what
/// stands between the outermost brackets, with them. A closing bracket that comes
/// before the opening one ends no array.
pub fn parse_scores(raw: &str) -> (r: Result<String, ScoreError>)
    ensures
        match (find(trim(raw@), '['), rfind(trim(raw@), ']')) {
            (None, _) => r == Err::<String, ScoreError>(ScoreError::NoArray),
            (Some(_), None) => r == Err::<String, ScoreError>(ScoreError::NoTerminator),
            (Some(i), Some(j)) => if i <= j {
                r matches Ok(s) && s@ == trim(raw@).subrange(i, j + 1)
            } else {
                r == Err::<String, ScoreError>(ScoreError::NoTerminator)
            },
        },
        r matches Ok(s) ==> s@.len() >= 2 && s@[0] == '[' && s@.last() == ']' && exists|
            a: Seq<char>,
            b: Seq<char>,
        |
            trim(raw@) == #[trigger] (a + s@ + b) && !a.contains('[') && !b.contains(']'),
{
    let v = trim_chars(chars_of(raw).as_slice());
    proof {
        lemma_rfind(v@, ']');
        lemma_find(v@, '[');
    }
    match find_char(v.as_slice(), '[') {
        Some(i) => match rfind_char(v.as_slice(), ']') {
            Some(j) => if i <= j {
                let array = string_of(range_of(v.as_slice(), i, j + 1).as_slice());
                proof {
                    let a = v@.take(i as int);
                    let b = v@.skip(j + 1);
                    assert(array@ =~= v@.subrange(i as int, j + 1));
                    assert(array@[0] == v@[i as int]);
                    assert(array@.last() == v@[j as int]);
                    assert(i < j);
                    assert(v@ =~= a + array@ + b);
                    if a.contains('[') {
                        let k = choose|k: int| 0 <= k < a.len() && a[k] == '[';
                        assert(v@[k] == '[');
                    }
                    if b.contains(']') {
                        let k = choose|k: int| 0 <= k < b.len() && b[k] == ']';
                        assert(v@[k + j + 1] == ']');
                    }
                }
                Ok(array)
            } else {
                Err(ScoreError::NoTerminator)
            },
            None => Err(ScoreError::NoTerminator),
        },
        None => Err(ScoreError::NoArray),
    }
}

// ---------------------------------------------------------------------------
// Recording scores
// ---------------------------------------------------------------------------

/// The flags that say that a posting's location fails the hard gate.
pub open spec fn is_location_failure(flag: Seq<char>) -> bool {
    flag == "no_location"@ || flag == "hybrid_offsite"@
}

/// Whether a flag says that the location fails the hard gate.
pub open spec fn location_failed(flags: Seq<Seq<char>>) -> bool {
    exists|i: int| 0 <= i < flags.len() && is_location_failure(#[trigger] flags[i])
}

/// The score with the location cap applied.
pub open spec fn gated_score(score: int, flags: Seq<Seq<char>>) -> int {
    if location_failed(flags) && score > LOCATION_FAIL_CAP {
        LOCATION_FAIL_CAP as int
    } else {
        score
    }
}

/// The reason, marked if the location cap lowered the score.
pub open spec fn gated_reason(score: int, reason: Seq<char>, flags: Seq<Seq<char>>) -> Seq<char> {
    if location_failed(flags) && score > LOCATION_FAIL_CAP {
        "[location gate] "@ + reason
    } else {
        reason
    }
}

/// Enforce the rubric's hard location cap from the model's own flags. Returns the
/// possibly lowered score and its reason, prefixed if the cap took effect.
pub fn enforce_location_gate(score: i32, reason: &str, flags: &[String]) -> (r: (i32, String))
    ensures
        r.0 == gated_score(score as int, texts(flags@)),
        r.1@ == gated_reason(score as int, reason@, texts(flags@)),
{
    let mut failed = false;
    let mut i: usize = 0;
    while i < flags.len()
        invariant
            i <= flags.len(),
            failed == exists|k: int|
                0 <= k < i && is_location_failure(#[trigger] texts(flags@)[k]),
        decreases flags.len() - i,
    {
        let f = flags[i].as_str();
        assert(texts(flags@)[i as int] == f@);
        if same_text(f, "no_location") || same_text(f, "hybrid_offsite") {
            failed = true;
        }
        i += 1;
    }
    if failed && score > LOCATION_FAIL_CAP {
        let mut s = "[location gate] ".to_owned();
        s.append(reason);
        (LOCATION_FAIL_CAP, s)
    } else {
        (score, reason.to_owned())
    }
}

/// What is recorded of a posting.
#[derive(Debug, Clone)]
pub struct Verdict {
    pub posting_id: i32,
    pub score: i32,
    pub reason: String,
    pub flags_json: String,
}

/// A score brought into the range from 0 to 10.
pub open spec fn clamped(score: int) -> int {
    if score < 0 {
        0
    } else if score > 10 {
        10
    } else {
        score
    }
}

/// Whether a verdict is what is recorded of the posting for a result: the score in
/// range and under the location cap, the reason, and the flags as JSON.
pub open spec fn is_verdict(v: Verdict, p: posting::Model, s: Scored) -> bool {
    &&& v.posting_id == p.id
    &&& v.score == gated_score(clamped(s.score as int), texts(s.flags@))
    &&& v.reason@ == gated_reason(clamped(s.score as int), s.reason@, texts(s.flags@))
    &&& v.flags_json@ == json_strings(texts(s.flags@))
}

/// The first result for a posting.
pub open spec fn result_for(results: Seq<Scored>, external_id: Seq<char>) -> Option<Scored>
    decreases results.len(),
{
    if results.len() == 0 {
        None
    } else if results[0].external_id@ == external_id {
        Some(results[0])
    } else {
        result_for(results.drop_first(), external_id)
    }
}

/// The postings of the batch that a result came back for.
pub open spec fn is_answered(results: Seq<Scored>) -> spec_fn(posting::Model) -> bool {
    |p: posting::Model| result_for(results, p.external_id@) is Some
}

/// Whether the verdicts are those of the answered postings, in their order.
pub open spec fn are_verdicts(
    verdicts: Seq<Verdict>,
    batch: Seq<posting::Model>,
    results: Seq<Scored>,
) -> bool {
    let answered = batch.filter(is_answered(results));
    &&& verdicts.len() == answered.len()
    &&& forall|i: int|
        0 <= i < verdicts.len() ==> is_verdict(
            #[trigger] verdicts[i],
            answered[i],
            result_for(results, answered[i].external_id@)->Some_0,
        )
}

/// The index of the first result for a posting.
fn find_result(results: &[Scored], external_id: &str) -> (r: Option<usize>)
    ensures
        match r {
            Some(i) => i < results@.len() && result_for(results@, external_id@) == Some(
                results@[i as int],
            ),
            None => result_for(results@, external_id@) is None,
        },
{
    let mut i: usize = 0;
    assert(results@.skip(0) =~= results@);
    while i < results.len()
        invariant
            i <= results.len(),
            result_for(results@, external_id@) == result_for(
                results@.skip(i as int),
                external_id@,
            ),
        decreases results.len() - i,
    {
        if same_text(results[i].external_id.as_str(), external_id) {
            return Some(i);
        }
        assert(results@.skip(i as int).drop_first() =~= results@.skip(i + 1));
        i += 1;
    }
    None
}

/// What is recorded of a posting for a result.
fn verdict_on(p: &posting::Model, s: &Scored) -> (v: Verdict)
    ensures
        is_verdict(v, *p, *s),
{
    let raw: i32 = if s.score < 0 {
        0
    } else if s.score > 10 {
        10
    } else {
        s.score as i32
    };
    let (score, reason) = enforce_location_gate(raw, s.reason.as_str(), s.flags.as_slice());
    let flags_json = match strings_to_json(s.flags.as_slice()) {
        Some(j) => j,
        None => "[]".to_owned(),
    };
    Verdict { posting_id: p.id, score, reason, flags_json }
}

/// What to record for a batch, matched by `external_id`. Postings the model left
/// out get no verdict, so they stay untriaged and a later run retries them.
pub fn apply_scores(batch: &[posting::Model], results: &[Scored]) -> (r: Vec<Verdict>)
    ensures
        are_verdicts(r@, batch@, results@),
{
    let mut out: Vec<Verdict> = Vec::new();
    let mut i: usize = 0;
    proof {
        reveal(Seq::filter);
        assert(batch@.take(0).filter(is_answered(results@)) =~= Seq::empty());
    }
    while i < batch.len()
        invariant
            i <= batch.len(),
            are_verdicts(out@, batch@.take(i as int), results@),
        decreases batch.len() - i,
    {
        let p = &batch[i];
        proof {
            reveal(Seq::filter);
            assert(batch@.take(i + 1).drop_last() =~= batch@.take(i as int));
            assert(batch@.take(i + 1).last() == *p);
        }
        match find_result(results, p.external_id.as_str()) {
            Some(k) => {
                out.push(verdict_on(p, &results[k]));
            },
            None => {},
        }
        i += 1;
    }
    assert(batch@.take(batch.len() as int) =~= batch@);
    out
}

/// The postings of the batch that no result came back for.
pub open spec fn is_left_out(results: Seq<Scored>) -> spec_fn(posting::Model) -> bool {
    |p: posting::Model| result_for(results, p.external_id@) is None
}

/// The external ids of the postings that the model left out, in their order.
pub fn left_out(batch: &[posting::Model], results: &[Scored]) -> (r: Vec<String>)
    ensures
        texts(r@) == batch@.filter(is_left_out(results@)).map_values(
            |p: posting::Model| p.external_id@,
        ),
{
    let mut out: Vec<String> = Vec::new();
    let mut i: usize = 0;
    let ghost f = |p: posting::Model| p.external_id@;
    proof {
        reveal(Seq::filter);
        assert(batch@.take(0).filter(is_left_out(results@)) =~= Seq::empty());
    }
    while i < batch.len()
        invariant
            i <= batch.len(),
            f == (|p: posting::Model| p.external_id@),
            texts(out@) =~= batch@.take(i as int).filter(is_left_out(results@)).map_values(f),
        decreases batch.len() - i,
    {
        let p = &batch[i];
        proof {
            reveal(Seq::filter);
            assert(batch@.take(i + 1).drop_last() =~= batch@.take(i as int));
            assert(batch@.take(i + 1).last() == *p);
        }
        match find_result(results, p.external_id.as_str()) {
            Some(_) => {},
            None => {
                let ghost before = out@;
                out.push(p.external_id.clone());
                assert(texts(out@) =~= texts(before).push(p.external_id@));
            },
        }
        i += 1;
    }
    assert(batch@.take(batch.len() as int) =~= batch@);
    out
}

/// Every posting of a batch either gets a verdict or is left out.
pub proof fn batch_is_answered_or_left_out(
    verdicts: Seq<Verdict>,
    batch: Seq<posting::Model>,
    results: Seq<Scored>,
)
    requires
        are_verdicts(verdicts, batch, results),
    ensures
        verdicts.len() + batch.filter(is_left_out(results)).len() == batch.len(),
{
    lemma_answered_or_left_out(batch, results);
}

/// A posting is answered or left out, never both.
proof fn lemma_answered_or_left_out(batch: Seq<posting::Model>, results: Seq<Scored>)
    ensures
        batch.filter(is_answered(results)).len() + batch.filter(is_left_out(results)).len()
            == batch.len(),
    decreases batch.len(),
{
    reveal(Seq::filter);
    if batch.len() > 0 {
        lemma_answered_or_left_out(batch.drop_last(), results);
    }
}

/// A recorded score is in range, and at most the cap if a flag says that the
/// location fails.
pub proof fn verdicts_are_in_range(v: Verdict, p: posting::Model, s: Scored)
    requires
        is_verdict(v, p, s),
    ensures
        0 <= v.score <= 10,
        location_failed(texts(s.flags@)) ==> v.score <= LOCATION_FAIL_CAP,
{
}

/// Whether the flags of a result say that the location fails.
pub open spec fn has_location_flag(s: Scored) -> bool {
    exists|i: int|
        0 <= i < s.flags@.len() && ((#[trigger] s.flags@[i])@ == "no_location"@ || s.flags@[i]@
            == "hybrid_offsite"@)
}

/// A score from 0 to 10 is recorded as it is, with its reason as it is, unless a flag says
/// that the location fails. What is below the range is recorded as 0, what is above it as
/// 10.
pub proof fn scores_in_range_are_recorded_as_they_are(v: Verdict, p: posting::Model, s: Scored)
    requires
        is_verdict(v, p, s),
        !has_location_flag(s),
    ensures
        v.posting_id == p.id,
        0 <= s.score <= 10 ==> v.score == s.score,
        s.score < 0 ==> v.score == 0,
        s.score > 10 ==> v.score == 10,
        v.reason@ == s.reason@,
        v.flags_json@ == json_strings(texts(s.flags@)),
{
    lemma_flags(s);
}

/// Where a flag says that the location fails, a score of at most 3 is recorded as it is,
/// and a higher one as 3 with a mark in front of its reason.
pub proof fn failed_locations_are_capped(v: Verdict, p: posting::Model, s: Scored)
    requires
        is_verdict(v, p, s),
        has_location_flag(s),
    ensures
        v.posting_id == p.id,
        0 <= s.score <= 3 ==> v.score == s.score && v.reason@ == s.reason@,
        s.score < 0 ==> v.score == 0 && v.reason@ == s.reason@,
        s.score > 3 ==> v.score == 3 && v.reason@ == "[location gate] "@ + s.reason@,
        v.flags_json@ == json_strings(texts(s.flags@)),
{
    lemma_flags(s);
}

/// The flags that are looked for.
proof fn lemma_flags(s: Scored)
    ensures
        location_failed(texts(s.flags@)) == has_location_flag(s),
{
    let flags = texts(s.flags@);
    if has_location_flag(s) {
        let i = choose|i: int|
            0 <= i < s.flags@.len() && ((#[trigger] s.flags@[i])@ == "no_location"@ || s.flags@[i]@
                == "hybrid_offsite"@);
        assert(is_location_failure(flags[i]));
    }
    if location_failed(flags) {
        let i = choose|i: int| 0 <= i < flags.len() && is_location_failure(#[trigger] flags[i]);
        assert(s.flags@[i]@ == flags[i]);
    }
}

/// A higher score is never recorded as a lower one: of two results with the same flags
/// the order of the scores is kept.
pub proof fn recording_keeps_the_order_of_scores(
    v: Verdict,
    p: posting::Model,
    s: Scored,
    w: Verdict,
    q: posting::Model,
    t: Scored,
)
    requires
        is_verdict(v, p, s),
        is_verdict(w, q, t),
        texts(s.flags@) == texts(t.flags@),
        s.score <= t.score,
    ensures
        v.score <= w.score,
{
}

/// The result that counts for a posting is the first one under its external id.
pub proof fn the_first_result_counts(results: Seq<Scored>, external_id: Seq<char>, i: int)
    requires
        0 <= i < results.len(),
        results[i].external_id@ == external_id,
        forall|j: int| 0 <= j < i ==> (#[trigger] results[j]).external_id@ != external_id,
    ensures
        result_for(results, external_id) == Some(results[i]),
    decreases results.len(),
{
    if i > 0 {
        let d = results.drop_first();
        assert(results[0].external_id@ != external_id);
        assert forall|j: int| 0 <= j < i - 1 implies (#[trigger] d[j]).external_id@
            != external_id by {
            assert(d[j] == results[j + 1]);
        }
        the_first_result_counts(d, external_id, i - 1);
    }
}

/// Without a result under its external id a posting has none.
pub proof fn no_result_is_made_up(results: Seq<Scored>, external_id: Seq<char>)
    requires
        forall|j: int| 0 <= j < results.len() ==> (#[trigger] results[j]).external_id@
            != external_id,
    ensures
        result_for(results, external_id) is None,
    decreases results.len(),
{
    if results.len() > 0 {
        let d = results.drop_first();
        assert forall|j: int| 0 <= j < d.len() implies (#[trigger] d[j]).external_id@
            != external_id by {
            assert(d[j] == results[j + 1]);
        }
        assert(results[0].external_id@ != external_id);
        no_result_is_made_up(d, external_id);
    }
}

/// Every posting of a batch that a result came back for is recorded, by the first result
/// under its external id; and its place among the verdicts is that among the answered.
pub proof fn answered_postings_are_recorded(
    verdicts: Seq<Verdict>,
    batch: Seq<posting::Model>,
    results: Seq<Scored>,
    b: int,
    i: int,
)
    requires
        are_verdicts(verdicts, batch, results),
        0 <= b < batch.len(),
        0 <= i < results.len(),
        results[i].external_id@ == batch[b].external_id@,
        forall|j: int|
            0 <= j < i ==> (#[trigger] results[j]).external_id@ != batch[b].external_id@,
    ensures
        exists|k: int|
            0 <= k < verdicts.len() && is_verdict(#[trigger] verdicts[k], batch[b], results[i]),
{
    broadcast use vstd::seq_lib::group_filter_ensures;

    the_first_result_counts(results, batch[b].external_id@, i);
    let answered = batch.filter(is_answered(results));
    assert(is_answered(results)(batch[b]));
    assert(answered.contains(batch[b]));
    let k = choose|k: int| 0 <= k < answered.len() && answered[k] == batch[b];
    assert(is_verdict(
        verdicts[k],
        answered[k],
        result_for(results, answered[k].external_id@)->Some_0,
    ));
}

/// The usage of replies adds up, count by count.
pub proof fn usage_adds_up(a: Usage, b: Usage)
    requires
        a.fits(b),
    ensures
        a.plus(b).input_tokens == a.input_tokens + b.input_tokens,
        a.plus(b).output_tokens == a.output_tokens + b.output_tokens,
        a.plus(b).cache_creation_input_tokens == a.cache_creation_input_tokens
            + b.cache_creation_input_tokens,
        a.plus(b).cache_read_input_tokens == a.cache_read_input_tokens + b.cache_read_input_tokens,
        a.plus(Usage::zero()) == a,
        Usage::zero().input_tokens == 0,
        Usage::zero().output_tokens == 0,
        Usage::zero().cache_creation_input_tokens == 0,
        Usage::zero().cache_read_input_tokens == 0,
{
}

/// The text of a reply is that of its first block of kind `text`.
pub proof fn the_first_text_block_counts(content: Seq<ContentBlock>, i: int)
    requires
        0 <= i < content.len(),
        forall|j: int| 0 <= j < i ==> (#[trigger] content[j]).kind@ != "text"@,
    ensures
        content[i].kind@ == "text"@ ==> first_text(content) == Some(content[i].text@),
        i == content.len() - 1 && content[i].kind@ != "text"@ ==> first_text(content) is None,
    decreases content.len(),
{
    let d = content.drop_first();
    if i > 0 {
        assert(content[0].kind@ != "text"@);
        assert forall|j: int| 0 <= j < i - 1 implies (#[trigger] d[j]).kind@ != "text"@ by {
            assert(d[j] == content[j + 1]);
        }
        the_first_text_block_counts(d, i - 1);
        assert(d[i - 1] == content[i]);
    } else if content.len() == 1 {
        assert(first_text(d) is None);
    }
}

/// The location cap never raises a score, and applying it twice is applying it once.
pub proof fn location_cap_only_lowers(score: int, flags: Seq<Seq<char>>)
    ensures
        gated_score(score, flags) <= score,
        gated_score(gated_score(score, flags), flags) == gated_score(score, flags),
        location_failed(flags) ==> gated_score(score, flags) <= LOCATION_FAIL_CAP,
        !location_failed(flags) ==> gated_score(score, flags) == score,
{
}

/// Only postings of the batch that a result came back for are recorded.
pub proof fn unanswered_stay_untriaged(
    verdicts: Seq<Verdict>,
    batch: Seq<posting::Model>,
    results: Seq<Scored>,
    i: int,
)
    requires
        are_verdicts(verdicts, batch, results),
        0 <= i < verdicts.len(),
    ensures
        exists|k: int|
            0 <= k < batch.len() && (#[trigger] batch[k]).id == verdicts[i].posting_id
                && is_answered(results)(batch[k]),
{
    broadcast use vstd::seq_lib::group_filter_ensures;

    let answered = batch.filter(is_answered(results));
    assert(is_verdict(
        verdicts[i],
        answered[i],
        result_for(results, answered[i].external_id@)->Some_0,
    ));
    assert(answered.contains(answered[i]));
    batch.lemma_filter_contains_rev(is_answered(results), answered[i]);
    let k = choose|k: int| 0 <= k < batch.len() && batch[k] == answered[i];
    assert(batch[k].id == verdicts[i].posting_id);
}

/// A posting is left out if and only if no result names it.
pub proof fn left_out_postings_are_named_by_no_result(results: Seq<Scored>, p: posting::Model)
    ensures
        is_left_out(results)(p) <==> forall|i: int|
            0 <= i < results.len() ==> (#[trigger] results[i]).external_id@ != p.external_id@,
    decreases results.len(),
{
    if results.len() > 0 {
        let d = results.drop_first();
        left_out_postings_are_named_by_no_result(d, p);
        if is_left_out(results)(p) {
            assert forall|i: int| 0 <= i < results.len() implies (
            #[trigger] results[i]).external_id@ != p.external_id@ by {
                if i > 0 {
                    assert(results[i] == d[i - 1]);
                }
            }
        } else {
            if results[0].external_id@ != p.external_id@ {
                let i = choose|i: int|
                    0 <= i < d.len() && (#[trigger] d[i]).external_id@ == p.external_id@;
                assert(results[i + 1] == d[i]);
            }
        }
    }
}

} // verus!
