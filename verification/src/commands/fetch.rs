//! `fetch`: what a board's answer means, and what the run amounts to.

use vstd::prelude::*;

use crate::db::queries::postings::UpsertOutcome;
use crate::normalize::{is_normalized, normalize, NormalizedPosting};
use crate::sources::{FetchError, RawPosting};
use crate::text::number::{decimal, u128_text, u64_text};

verus! {

/// Result of fetching one company's board.
#[derive(Debug, Clone)]
pub enum Outcome {
    Fetched { new: u64, updated: u64 },
    Empty,
    NeedsReview,
    Error(String),
}

/// What a board's answer calls for.
#[derive(Debug, Clone)]
pub enum Board {
    /// Store these postings and stamp the fetch.
    Listed(Vec<NormalizedPosting>),
    /// The board is empty: flag the company for review and stamp the fetch.
    Empty,
    /// There is no such board: flag the company for review.
    Missing,
    /// The fetch failed: leave the company as it is.
    Failed(String),
}

impl Board {
    /// Whether the company is flagged for review.
    pub open spec fn needs_review(self) -> bool {
        self is Empty || self is Missing
    }

    /// Whether the fetch is stamped.
    pub open spec fn is_fetched(self) -> bool {
        self is Listed || self is Empty
    }

    /// Whether the company is flagged for review.
    pub fn flags_review(&self) -> (r: bool)
        ensures
            r == self.needs_review(),
    {
        match self {
            Board::Empty => true,
            Board::Missing => true,
            Board::Listed(_) => false,
            Board::Failed(_) => false,
        }
    }

    /// Whether the fetch is stamped.
    pub fn stamps_fetch(&self) -> (r: bool)
        ensures
            r == self.is_fetched(),
    {
        match self {
            Board::Listed(_) => true,
            Board::Empty => true,
            Board::Missing => false,
            Board::Failed(_) => false,
        }
    }
}

/// Whether postings are the normalized forms of those off a board, in order.
pub open spec fn are_normalized(n: Seq<NormalizedPosting>, raw: Seq<RawPosting>) -> bool {
    n.len() == raw.len() && forall|i: int|
        0 <= i < n.len() ==> is_normalized(#[trigger] n[i], raw[i])
}

/// What a board's answer calls for: postings are to be stored, an empty board and a
/// missing one are signs that the company has changed its system, and any other
/// failure is passed over, so that one bad board cannot end the run.
pub fn judge(answer: Result<Vec<RawPosting>, FetchError>) -> (r: Board)
    ensures
        match answer {
            Ok(raw) => if raw@.len() == 0 {
                r is Empty
            } else {
                r matches Board::Listed(n) && are_normalized(n@, raw@) && n@.len() == raw@.len()
                    && forall|i: int|
                    0 <= i < raw@.len() ==> is_normalized(#[trigger] n@[i], raw@[i])
            },
            Err(FetchError::NotFound) => r is Missing,
            Err(e) => r matches Board::Failed(m) && m@ == e.text(),
        },
{
    match answer {
        Ok(raw) => {
            if raw.len() == 0 {
                return Board::Empty;
            }
            let ghost all = raw@;
            let mut out: Vec<NormalizedPosting> = Vec::new();
            let mut seen: Ghost<int> = Ghost(0);
            for p in it: raw
                invariant
                    it.seq() == all,
                    seen@ == it.index(),
                    are_normalized(out@, all.take(seen@)),
            {
                let n = normalize(p);
                out.push(n);
                proof {
                    assert(all.take(seen@ + 1)[seen@] == p);
                    seen@ = seen@ + 1;
                }
            }
            assert(all.take(all.len() as int) =~= all);
            Board::Listed(out)
        },
        Err(FetchError::NotFound) => Board::Missing,
        Err(e) => Board::Failed(e.message()),
    }
}

/// The board of a system that has no source.
pub fn no_source(ats: &str) -> (r: Board)
    ensures
        r matches Board::Failed(m) && m@ == "no source for ats '"@ + ats@ + "'"@,
{
    let mut s = "no source for ats '".to_owned();
    s.append(ats);
    s.append("'");
    Board::Failed(s)
}

/// How many of the upserts inserted a posting.
pub open spec fn inserted(v: Seq<UpsertOutcome>) -> nat {
    v.filter(|o: UpsertOutcome| o == UpsertOutcome::Inserted).len()
}

/// How many of the upserts refreshed a posting.
pub open spec fn updated(v: Seq<UpsertOutcome>) -> nat {
    v.filter(|o: UpsertOutcome| o == UpsertOutcome::Updated).len()
}

/// The outcome of a board, given how the upserts of its postings went. Those that
/// failed are not counted.
pub fn outcome(board: &Board, upserts: &Vec<UpsertOutcome>) -> (r: Outcome)
    ensures
        match *board {
            Board::Listed(_) => r == (Outcome::Fetched {
                new: inserted(upserts@) as u64,
                updated: updated(upserts@) as u64,
            }) && inserted(upserts@) + updated(upserts@) == upserts@.len(),
            Board::Empty => r == Outcome::Empty,
            Board::Missing => r == Outcome::NeedsReview,
            Board::Failed(m) => r == Outcome::Error(m),
        },
{
    match board {
        Board::Listed(_) => {
            let ghost ins = |o: UpsertOutcome| o == UpsertOutcome::Inserted;
            let ghost upd = |o: UpsertOutcome| o == UpsertOutcome::Updated;
            let mut new: u64 = 0;
            let mut changed: u64 = 0;
            let mut i: usize = 0;
            proof {
                reveal(Seq::filter);
                assert(upserts@.take(0).filter(ins) =~= Seq::empty());
                assert(upserts@.take(0).filter(upd) =~= Seq::empty());
            }
            while i < upserts.len()
                invariant
                    i <= upserts.len(),
                    ins == (|o: UpsertOutcome| o == UpsertOutcome::Inserted),
                    upd == (|o: UpsertOutcome| o == UpsertOutcome::Updated),
                    new == upserts@.take(i as int).filter(ins).len(),
                    changed == upserts@.take(i as int).filter(upd).len(),
                    new + changed == i,
                decreases upserts.len() - i,
            {
                proof {
                    reveal(Seq::filter);
                    assert(upserts@.take(i + 1).drop_last() =~= upserts@.take(i as int));
                    assert(upserts@.take(i + 1).last() == upserts@[i as int]);
                }
                match upserts[i] {
                    UpsertOutcome::Inserted => {
                        new = new + 1;
                    },
                    UpsertOutcome::Updated => {
                        changed = changed + 1;
                    },
                }
                i += 1;
            }
            assert(upserts@.take(upserts.len() as int) =~= upserts@);
            Outcome::Fetched { new, updated: changed }
        },
        Board::Empty => Outcome::Empty,
        Board::Missing => Outcome::NeedsReview,
        Board::Failed(m) => Outcome::Error(m.clone()),
    }
}

// ---------------------------------------------------------------------------
// The run
// ---------------------------------------------------------------------------

/// What a run amounts to.
#[derive(Debug, Clone)]
pub struct Totals {
    pub new: u128,
    pub updated: u128,
    pub review: u64,
    pub errors: u64,
    /// the companies whose boards were fetched
    pub fetched_ids: Vec<i32>,
}

/// Whether the outcome says that the board was fetched.
pub open spec fn was_fetched() -> spec_fn((i32, Outcome)) -> bool {
    |r: (i32, Outcome)| r.1 is Fetched || r.1 is Empty
}

/// Whether the outcome calls for a review.
pub open spec fn wants_review() -> spec_fn((i32, Outcome)) -> bool {
    |r: (i32, Outcome)| r.1 is Empty || r.1 is NeedsReview
}

/// Whether the outcome is an error.
pub open spec fn is_error() -> spec_fn((i32, Outcome)) -> bool {
    |r: (i32, Outcome)| r.1 is Error
}

/// The postings that are new, over all outcomes.
pub open spec fn total_new(results: Seq<(i32, Outcome)>) -> nat
    decreases results.len(),
{
    if results.len() == 0 {
        0
    } else {
        total_new(results.drop_last()) + match results.last().1 {
            Outcome::Fetched { new, .. } => new as nat,
            _ => 0,
        }
    }
}

/// The postings that were refreshed, over all outcomes.
pub open spec fn total_updated(results: Seq<(i32, Outcome)>) -> nat
    decreases results.len(),
{
    if results.len() == 0 {
        0
    } else {
        total_updated(results.drop_last()) + match results.last().1 {
            Outcome::Fetched { updated, .. } => updated as nat,
            _ => 0,
        }
    }
}

/// Add up the outcomes, and tell which boards' postings are eligible for being
/// closed: those of the boards that were fetched.
pub fn totals(results: &Vec<(i32, Outcome)>) -> (t: Totals)
    ensures
        t.new == total_new(results@),
        t.updated == total_updated(results@),
        t.review == results@.filter(wants_review()).len(),
        t.errors == results@.filter(is_error()).len(),
        t.fetched_ids@ == results@.filter(was_fetched()).map_values(|r: (i32, Outcome)| r.0),
{
    let mut new: u128 = 0;
    let mut changed: u128 = 0;
    let mut review: u64 = 0;
    let mut errors: u64 = 0;
    let mut fetched_ids: Vec<i32> = Vec::new();
    let ghost id_of = |r: (i32, Outcome)| r.0;
    let mut i: usize = 0;
    proof {
        reveal(Seq::filter);
        assert(results@.take(0).filter(wants_review()) =~= Seq::empty());
        assert(results@.take(0).filter(is_error()) =~= Seq::empty());
        assert(results@.take(0).filter(was_fetched()) =~= Seq::empty());
    }
    while i < results.len()
        invariant
            i <= results.len(),
            id_of == (|r: (i32, Outcome)| r.0),
            new == total_new(results@.take(i as int)),
            changed == total_updated(results@.take(i as int)),
            new <= i * u64::MAX,
            changed <= i * u64::MAX,
            review == results@.take(i as int).filter(wants_review()).len(),
            errors == results@.take(i as int).filter(is_error()).len(),
            review <= i,
            errors <= i,
            fetched_ids@ =~= results@.take(i as int).filter(was_fetched()).map_values(id_of),
        decreases results.len() - i,
    {
        proof {
            reveal(Seq::filter);
            assert(results@.take(i + 1).drop_last() =~= results@.take(i as int));
            assert(results@.take(i + 1).last() == results@[i as int]);
            assert(i * u64::MAX + u64::MAX == (i + 1) * u64::MAX) by (nonlinear_arith);
            assert((i + 1) * u64::MAX <= u128::MAX) by (nonlinear_arith)
                requires
                    i + 1 <= 0xffff_ffff_ffff_ffff,
            ;
        }
        match &results[i].1 {
            Outcome::Fetched { new: n, updated: u } => {
                new = new + *n as u128;
                changed = changed + *u as u128;
                fetched_ids.push(results[i].0);
            },
            Outcome::Empty => {
                fetched_ids.push(results[i].0);
                review = review + 1;
            },
            Outcome::NeedsReview => {
                review = review + 1;
            },
            Outcome::Error(_) => {
                errors = errors + 1;
            },
        }
        i += 1;
    }
    assert(results@.take(results.len() as int) =~= results@);
    Totals { new, updated: changed, review, errors, fetched_ids }
}

/// A company whose fetch failed, or whose board is missing, is not among those
/// whose postings may be closed, unless another of its boards was fetched.
pub proof fn failed_boards_close_nothing(results: Seq<(i32, Outcome)>, id: i32)
    requires
        forall|k: int| 0 <= k < results.len() && (#[trigger] results[k]).0 == id ==> results[k].1
            is NeedsReview || results[k].1 is Error,
    ensures
        !results.filter(was_fetched()).map_values(|r: (i32, Outcome)| r.0).contains(id),
{
    broadcast use vstd::seq_lib::group_filter_ensures;

    let kept = results.filter(was_fetched());
    let ids = kept.map_values(|r: (i32, Outcome)| r.0);
    if ids.contains(id) {
        let i = choose|i: int| 0 <= i < ids.len() && ids[i] == id;
        assert(kept.contains(kept[i]));
        results.lemma_filter_contains_rev(was_fetched(), kept[i]);
        let k = choose|k: int| 0 <= k < results.len() && results[k] == kept[i];
        assert(results[k].0 == id);
    }
}

/// There is nothing to fetch.
pub const NOTHING_LINE: &'static str = "No active companies to fetch. Run `jobpipe init` first.";

/// What is said after a run.
pub fn fetch_line(t: &Totals, closed: u64) -> (r: String)
    ensures
        r@ == "Fetch complete: "@ + decimal(t.new as nat) + " new, "@ + decimal(t.updated as nat)
            + " updated, "@ + decimal(closed as nat) + " closed, "@ + decimal(t.review as nat)
            + " needs-review, "@ + decimal(t.errors as nat) + " error(s)."@,
{
    let mut s = "Fetch complete: ".to_owned();
    s.append(u128_text(t.new).as_str());
    s.append(" new, ");
    s.append(u128_text(t.updated).as_str());
    s.append(" updated, ");
    s.append(u64_text(closed).as_str());
    s.append(" closed, ");
    s.append(u64_text(t.review).as_str());
    s.append(" needs-review, ");
    s.append(u64_text(t.errors).as_str());
    s.append(" error(s).");
    s
}

} // verus!
