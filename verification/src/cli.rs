//! The commands and their arguments.

use vstd::prelude::*;

verus! {

/// Default digest score threshold. Also the floor for the interactive `apply`
/// picker, so it offers the same postings the digest surfaces.
pub const DEFAULT_MIN_SCORE: i32 = 7;

/// The command line.
#[derive(Debug, Clone)]
pub struct Cli {
    /// Path to the database file.
    pub db: String,
    pub command: Command,
}

/// The commands.
#[derive(Debug, Clone)]
pub enum Command {
    /// Write the starter config files.
    Setup { force: bool },
    /// Create the database and seed the companies.
    Init { companies: String },
    /// Manage the company list.
    Companies { action: CompaniesAction },
    /// Poll all active boards and upsert postings.
    Fetch { only: Option<String> },
    /// Score untriaged postings against the candidate's profile.
    Triage { limit: Option<u64>, dry_run: bool, retriage: bool, profile: String },
    /// Record an application against a posting; without an id, pick one.
    Apply { posting_id: Option<i32>, yes: bool },
    /// Show a posting in full.
    Show { posting_id: i32 },
    /// Hide a posting from the digest, or restore it.
    Dismiss { posting_id: i32, undo: bool },
    /// List open applications, or those at one stage.
    Track { stage: Option<Stage> },
    /// Remove an application.
    Untrack { application_id: i32 },
    /// Move an application to a new stage.
    Stage { application_id: i32, stage: Stage, note: Option<String> },
    /// List applications that are due for a nudge.
    Followup,
    /// Print the digest of open postings.
    Digest { min_score: i32, since: Option<String>, format: DigestFormat, out: Option<String> },
    /// Fetch, triage and digest in one go.
    Run { min_score: i32, out: Option<String>, profile: String },
}

/// What to do with the company list.
#[derive(Debug, Clone)]
pub enum CompaniesAction {
    /// Detect the board behind a careers address and insert the company.
    Add(CompaniesAdd),
    /// List companies, or only those needing review.
    List { needs_review: bool },
}

/// The company to add.
#[derive(Debug, Clone)]
pub struct CompaniesAdd {
    /// A careers or job-board address.
    pub url: String,
}

/// The digest's output formats.
#[derive(Debug, Clone, Copy, PartialEq, Eq, Structural)]
pub enum DigestFormat {
    Term,
    Md,
}

/// The application stages, in order.
#[derive(Debug, Clone, Copy, PartialEq, Eq, Structural)]
pub enum Stage {
    Applied,
    Screen,
    Interview,
    Offer,
    Rejected,
    Ghosted,
}

impl Stage {
    /// The name under which the stage is stored.
    pub open spec fn name(self) -> Seq<char> {
        match self {
            Stage::Applied => "applied"@,
            Stage::Screen => "screen"@,
            Stage::Interview => "interview"@,
            Stage::Offer => "offer"@,
            Stage::Rejected => "rejected"@,
            Stage::Ghosted => "ghosted"@,
        }
    }

    /// The canonical lowercase string that is stored.
    pub fn as_str(self) -> (r: &'static str)
        ensures
            r@ == self.name(),
    {
        match self {
            Stage::Applied => "applied",
            Stage::Screen => "screen",
            Stage::Interview => "interview",
            Stage::Offer => "offer",
            Stage::Rejected => "rejected",
            Stage::Ghosted => "ghosted",
        }
    }
}

/// No two stages are stored under the same name.
pub proof fn stages_have_distinct_names(a: Stage, b: Stage)
    requires
        a.name() == b.name(),
    ensures
        a == b,
{
    reveal_strlit("applied");
    reveal_strlit("screen");
    reveal_strlit("interview");
    reveal_strlit("offer");
    reveal_strlit("rejected");
    reveal_strlit("ghosted");
    assert("applied"@ != "ghosted"@) by {
        assert("applied"@[0] == 'a' && "ghosted"@[0] == 'g');
    }
    assert("applied"@.len() == 7 && "screen"@.len() == 6 && "interview"@.len() == 9);
    assert("offer"@.len() == 5 && "rejected"@.len() == 8 && "ghosted"@.len() == 7);
    match a {
        Stage::Applied => {},
        Stage::Screen => {},
        Stage::Interview => {},
        Stage::Offer => {},
        Stage::Rejected => {},
        Stage::Ghosted => {},
    }
}

} // verus!
