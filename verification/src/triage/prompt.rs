//! What is sent for scoring.

use vstd::prelude::*;

use crate::db::entities::posting;
use crate::text::{as_opt_str, chars_of, opt_text, range_of, string_of};

verus! {

/// The address that requests go to.
pub const ANTHROPIC_URL: &'static str = "https://api.anthropic.com/v1/messages";

/// The version of the interface.
pub const ANTHROPIC_VERSION: &'static str = "2023-06-01";

/// The most tokens that a reply may have.
pub const MAX_TOKENS: u32 = 4096;

/// Descriptions are cut to this many characters, to bound what a request costs.
pub const DESC_LIMIT: usize = 1200;

/// The role, the output contract and the scoring rubric, up to the candidate's
/// profile.
pub const RUBRIC: &'static str = "You are screening job postings against one candidate's profile. Score each posting
for fit and output JSON only — no prose, no markdown fences.

Return a JSON array with one object per posting, in this exact shape:
[{\"external_id\": \"...\", \"score\": 0, \"reason\": \"one sentence, max 20 words\", \"flags\": [\"priority_stack\", \"no_location\", \"hybrid_offsite\"]}]

The candidate's profile is embedded at the end of this prompt as TOML. Everything you need —
location constraints, skills, seniority, and role preferences — comes from it. Read it first.

HARD LOCATION GATE — apply this FIRST, before the rubric. From the profile's `[location]` block:
`base` is the candidate's home metro (they cannot relocate or commute beyond it), `acceptable`
lists the location arrangements they can take, and `work_authorization` is the country/region
where they are legally allowed to work. A posting's location is WORKABLE only if it matches one of
the `acceptable` arrangements — generally at least one of:
  - Onsite OR hybrid where the office is in the candidate's `base` metro, or
  - Fully remote within their `work_authorization` region, or
  - Fully remote that explicitly includes their `work_authorization` region (e.g. a multi-region
    remote role that names it).

HYBRID AND ONSITE ARE NOT REMOTE. \"Hybrid\" means mandatory in-office days and \"onsite\" means
full-time in-office, both at a specific office — so a hybrid OR onsite role is workable ONLY when
that office is in the candidate's `base` metro. A hybrid/onsite role tied to any other city is NOT
workable, because the candidate cannot commute there. This is the single most common mistake to
avoid: being in the SAME COUNTRY does NOT rescue a hybrid/onsite role. A hybrid or onsite office in
another city of the work-authorization country (for a Vancouver-based candidate: Toronto, Montreal,
Ottawa, Waterloo, etc.) FAILS the \
gate exactly like a foreign office does. \"Canada remote\" in the
`acceptable` list means fully-remote-anywhere-in-Canada; it does NOT mean \"any office located in
Canada\". Only a base-metro office or a fully-remote role in the authorized region qualifies.

When a posting lists SEVERAL cities with a hybrid/onsite arrangement (e.g. \"San Francisco | Toronto
| New York | Montreal\", hybrid), the candidate would have to be in ONE of those offices — none of
which is the base metro — so it FAILS the \
gate. Do not pass it just because one listed city is in
the authorized country. It passes ONLY if one listed option is the base metro, or one option is
genuine full remote covering the authorized region.

A location is NOT workable if the only options are: onsite or hybrid outside the `base` metro,
remote restricted to a region that excludes the candidate's `work_authorization`, or any country
where the candidate is not authorized to work — even when the role is otherwise partly remote.

If a posting lists several locations and ANY one is workable, treat it as workable and score
normally. If NONE is workable, you MUST cap the score at 3 and add the \"no_location\" flag (and, for
a hybrid or onsite role tied to an offsite metro, also the \"hybrid_offsite\" flag) — no matter how
strong the stack, seniority, or role fit is. Emitting the \"no_location\" flag whenever the location
fails is MANDATORY and non-optional: it is the machine-readable signal that the cap applies, and a
downstream check re-enforces the cap from it, so a failed location with a high score and no flag is
a contradiction you must never produce. Only when the location is genuinely unstated should you skip
the cap and score on the other axes.

Scoring rubric (0-10), applied only after a posting passes the location gate. Judge fit from the
profile's `[preferences]` (`priority` is the highest-value target, `also_strong` is a genuine
second specialty, `avoid` lists dealbreakers), `[skills]`, and the candidate's seniority
(`seniority_band`, `years_experience`):
- 9-10: A role squarely in the candidate's `priority` area at or near their experience level, or a
  role that explicitly names their `priority` stack. Do not down-rank a priority-stack role for
  wanting commercial experience the profile shows the candidate already has.
- 7-8: A strong match on the candidate's core `[skills]` within their seniority band, or a role in
  their `also_strong` secondary specialty. (Location is already confirmed workable by the \
gate.)
  `also_strong` is a SPECIFIC stack (for this candidate, Rust systems work) — not \"any backend or
  infrastructure role\". A role whose primary language is one the candidate does not work in
  (e.g. Python, Go, Scala, Java — anything absent from `[skills].languages`) is NOT an `also_strong`
  match just because it is backend/infra/platform work; treat a primary language the candidate lacks
  as a stack mismatch, not a strength.
- 4-6: Plausible but mismatched on one axis (slightly senior, adjacent stack, or a backend role in a
  language the candidate does not use but could plausibly pick up).
- 0-3: Wrong discipline, wrong seniority by 5+ years, hits an `avoid` dealbreaker the candidate
  cannot satisfy (e.g. clearance or citizenship they lack), or location failed the \
gate above.

Useful flags (include any that apply, free-form): priority_stack, also_strong, senior_only,
requires_citizenship, no_location, hybrid_offsite (hybrid role tied to an offsite metro), contract,
remote.

CANDIDATE PROFILE (TOML):
";

/// The system prompt: role, output contract, scoring rubric, and the candidate
/// profile. Every fact about the candidate is read from the embedded profile, so
/// the rest is the same for every candidate.
pub fn system_prompt(profile_text: &str) -> (r: String)
    ensures
        r@ == RUBRIC@ + profile_text@,
{
    let mut s = RUBRIC.to_owned();
    s.append(profile_text);
    s
}

/// The first `n` characters.
pub open spec fn first_chars(s: Seq<char>, n: nat) -> Seq<char> {
    if s.len() <= n {
        s
    } else {
        s.take(n as int)
    }
}

/// An optional text, or another if there is none.
pub open spec fn text_or(o: Option<Seq<char>>, other: Seq<char>) -> Seq<char> {
    match o {
        Some(s) => s,
        None => other,
    }
}

/// What the message says of one posting.
pub open spec fn posting_entry(p: posting::Model) -> Seq<char> {
    "---\nexternal_id: "@ + p.external_id@ + "\ntitle: "@ + p.title@ + "\nlocation: "@ + text_or(
        opt_text(p.location),
        "unspecified"@,
    ) + " ("@ + text_or(opt_text(p.remote), "unknown"@) + ")\ndescription: "@ + first_chars(
        p.description@,
        DESC_LIMIT as nat,
    ) + "\n"@
}

/// The user message: the postings of a batch, one after the other.
pub open spec fn message_of(batch: Seq<posting::Model>) -> Seq<char>
    decreases batch.len(),
{
    if batch.len() == 0 {
        "Score these postings:\n\n"@
    } else {
        message_of(batch.drop_last()) + posting_entry(batch.last())
    }
}

/// The first `n` characters of a text.
pub(crate) fn prefix_text(s: &str, n: usize) -> (r: String)
    ensures
        r@ == first_chars(s@, n as nat),
{
    let v = chars_of(s);
    if v.len() <= n {
        s.to_owned()
    } else {
        string_of(range_of(v.as_slice(), 0, n).as_slice())
    }
}

/// An optional text, or another if there is none.
pub(crate) fn str_or<'a>(o: &'a Option<String>, other: &'a str) -> (r: &'a str)
    ensures
        r@ == text_or(opt_text(*o), other@),
{
    match as_opt_str(o) {
        Some(s) => s,
        None => other,
    }
}

/// What the message says of one posting.
fn entry_text(p: &posting::Model) -> (r: String)
    ensures
        r@ == posting_entry(*p),
{
    let desc = prefix_text(p.description.as_str(), DESC_LIMIT);
    let mut s = "---\nexternal_id: ".to_owned();
    s.append(p.external_id.as_str());
    s.append("\ntitle: ");
    s.append(p.title.as_str());
    s.append("\nlocation: ");
    s.append(str_or(&p.location, "unspecified"));
    s.append(" (");
    s.append(str_or(&p.remote, "unknown"));
    s.append(")\ndescription: ");
    s.append(desc.as_str());
    s.append("\n");
    s
}

/// Build the user message: a compact list of the batch's postings.
pub fn user_message(batch: &[posting::Model]) -> (r: String)
    ensures
        r@ == message_of(batch@),
{
    let mut s = "Score these postings:\n\n".to_owned();
    let mut i: usize = 0;
    while i < batch.len()
        invariant
            i <= batch.len(),
            s@ == message_of(batch@.take(i as int)),
        decreases batch.len() - i,
    {
        let entry = entry_text(&batch[i]);
        s.append(entry.as_str());
        assert(batch@.take(i + 1).drop_last() =~= batch@.take(i as int));
        assert(batch@.take(i + 1).last() == batch@[i as int]);
        i += 1;
    }
    assert(batch@.take(batch.len() as int) =~= batch@);
    s
}

/// A scoring request.
#[derive(Debug, Clone)]
pub struct ScoreRequest {
    pub url: String,
    pub version: String,
    pub model: String,
    pub max_tokens: u32,
    pub system: String,
    pub user: String,
}

/// The request that has a model score a batch. The system prompt is the same for
/// every batch of a run, so that it can be cached.
pub fn score_request(model: &str, system: &str, batch: &[posting::Model]) -> (r: ScoreRequest)
    ensures
        r.url@ == ANTHROPIC_URL@,
        r.version@ == ANTHROPIC_VERSION@,
        r.model@ == model@,
        r.max_tokens == MAX_TOKENS,
        r.system@ == system@,
        r.user@ == message_of(batch@),
        r.url@ == "https://api.anthropic.com/v1/messages"@,
        r.version@ == "2023-06-01"@,
        r.max_tokens == 4096,
{
    ScoreRequest {
        url: ANTHROPIC_URL.to_owned(),
        version: ANTHROPIC_VERSION.to_owned(),
        model: model.to_owned(),
        max_tokens: MAX_TOKENS,
        system: system.to_owned(),
        user: user_message(batch),
    }
}

/// The first characters of a text are the text itself where there are no more, and else
/// a prefix of that length.
pub proof fn first_chars_are_a_prefix(s: Seq<char>, n: nat)
    ensures
        s.len() <= n ==> first_chars(s, n) == s,
        s.len() > n ==> first_chars(s, n).len() == n && first_chars(s, n) == s.subrange(
            0,
            n as int,
        ),
{
    if s.len() > n {
        assert(s.take(n as int) =~= s.subrange(0, n as int));
    }
}

/// The message says of a posting under which id to score it, its title, where it is and
/// how remote, as far as that is known, and what it is about, in at most 1200 characters.
pub proof fn messages_say_what_to_score(p: posting::Model)
    ensures
        ({
            let place = match p.location {
                Some(l) => l@,
                None => "unspecified"@,
            };
            let remote = match p.remote {
                Some(r) => r@,
                None => "unknown"@,
            };
            let about = if p.description@.len() <= 1200 {
                p.description@
            } else {
                p.description@.take(1200)
            };
            posting_entry(p) == "---\nexternal_id: "@ + p.external_id@ + "\ntitle: "@ + p.title@
                + "\nlocation: "@ + place + " ("@ + remote + ")\ndescription: "@ + about + "\n"@
        }),
{
}

/// The message of a batch holds every posting of it, once and in order.
pub proof fn messages_hold_every_posting(batch: Seq<posting::Model>, p: posting::Model)
    ensures
        message_of(Seq::empty()) == "Score these postings:\n\n"@,
        message_of(batch.push(p)) == message_of(batch) + posting_entry(p),
{
    assert(batch.push(p).drop_last() =~= batch);
}

} // verus!
