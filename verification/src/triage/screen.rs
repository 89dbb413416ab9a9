//! The code-side pre-filter, built from the profile's `[prefilter]` section.

use vstd::prelude::*;

use crate::config::Prefilter;
use crate::db::entities::posting;
use crate::pattern::compiled::{found_in, regex_found, Compiled};
use crate::pattern::{
    are_ascii_texts, compile_alternation, mentions, opt_pattern, pattern_of, PatternError,
};
use crate::text::texts;
use crate::unicode::is_ascii_text;

verus! {

/// The pre-filter as compiled patterns. A posting is rejected when its title matches
/// `reject`, unless its description matches `keep`.
#[derive(Debug)]
pub struct Screen {
    pub reject: Option<Compiled>,
    pub keep: Option<Compiled>,
}

/// Whether an optional pattern is found in a text.
pub open spec fn opt_found(pattern: Option<Seq<char>>, text: Seq<char>) -> bool {
    pattern matches Some(p) && regex_found(p, text)
}

impl Screen {
    /// Whether the screen is built from the lists.
    pub open spec fn is_of(self, reject: Seq<Seq<char>>, keep: Seq<Seq<char>>) -> bool {
        &&& opt_pattern(self.reject) == pattern_of(reject)
        &&& opt_pattern(self.keep) == pattern_of(keep)
    }

    /// Whether the posting is dropped before scoring.
    pub open spec fn rejects(self, p: posting::Model) -> bool {
        rejected_by(opt_pattern(self.reject), opt_pattern(self.keep))(p)
    }

    /// The patterns of a pre-filter. It fails only where a list that is not empty
    /// cannot be compiled.
    pub fn build(cfg: &Prefilter) -> (r: Result<Screen, PatternError>)
        ensures
            r matches Ok(s) ==> s.is_of(texts(cfg.reject_titles@), texts(cfg.keep_keywords@)),
            cfg.reject_titles@.len() == 0 && cfg.keep_keywords@.len() == 0 ==> r is Ok,
    {
        match compile_alternation(&cfg.reject_titles) {
            Ok(reject) => match compile_alternation(&cfg.keep_keywords) {
                Ok(keep) => Ok(Screen { reject, keep }),
                Err(e) => Err(e),
            },
            Err(e) => Err(e),
        }
    }

    /// True if the posting should be dropped before it is scored. Of ASCII lists and
    /// texts it is the words themselves that decide: a reject title is mentioned and
    /// no keep keyword is.
    pub fn is_reject(&self, p: &posting::Model) -> (r: bool)
        ensures
            r == self.rejects(*p),
            forall|reject: Seq<Seq<char>>, keep: Seq<Seq<char>>| #[trigger]
                self.is_of(reject, keep) && are_ascii_texts(reject) && are_ascii_texts(keep)
                    && is_ascii_posting(*p) ==> r == rejected_by_words(reject, keep)(*p),
    {
        let hit = match &self.reject {
            Some(pattern) => found_in(pattern, p.title.as_str()),
            None => false,
        };
        let rescued = match &self.keep {
            Some(pattern) => hit && found_in(pattern, p.description.as_str()),
            None => false,
        };
        drops(hit, rescued)
    }
}

/// Whether a posting is dropped, given whether its title matches a reject term and
/// whether its description mentions a keep keyword.
pub fn drops(title_hit: bool, rescued: bool) -> (r: bool)
    ensures
        r == (title_hit && !rescued),
{
    title_hit && !rescued
}

/// The postings that are dropped before scoring: the title matches the reject
/// pattern and the description does not match the keep pattern.
pub open spec fn rejected_by(reject: Option<Seq<char>>, keep: Option<Seq<char>>) -> spec_fn(
    posting::Model,
) -> bool {
    |p: posting::Model| opt_found(reject, p.title@) && !opt_found(keep, p.description@)
}

/// The postings that are to be scored: all others.
pub open spec fn passed_by(reject: Option<Seq<char>>, keep: Option<Seq<char>>) -> spec_fn(
    posting::Model,
) -> bool {
    |p: posting::Model| !rejected_by(reject, keep)(p)
}

/// Whether what is looked at of a posting is made of ASCII characters.
pub open spec fn is_ascii_posting(p: posting::Model) -> bool {
    is_ascii_text(p.title@) && is_ascii_text(p.description@)
}

/// Whether what is looked at of each posting is made of ASCII characters.
pub open spec fn are_ascii_postings(v: Seq<posting::Model>) -> bool {
    forall|i: int| 0 <= i < v.len() ==> is_ascii_posting(#[trigger] v[i])
}

/// The postings that are dropped before scoring, by the words of ASCII lists: the
/// title mentions a reject title and the description mentions no keep keyword.
pub open spec fn rejected_by_words(reject: Seq<Seq<char>>, keep: Seq<Seq<char>>) -> spec_fn(
    posting::Model,
) -> bool {
    |p: posting::Model| mentions(reject, p.title@) && !mentions(keep, p.description@)
}

/// The postings that are to be scored, by the words of ASCII lists: all others.
pub open spec fn passed_by_words(reject: Seq<Seq<char>>, keep: Seq<Seq<char>>) -> spec_fn(
    posting::Model,
) -> bool {
    |p: posting::Model| !rejected_by_words(reject, keep)(p)
}

/// Split postings into those that the screen rejects and those to be scored, each
/// in their order. Of ASCII lists and postings it is the words themselves that decide.
pub fn screen_postings(screen: &Screen, postings: Vec<posting::Model>) -> (r: (
    Vec<posting::Model>,
    Vec<posting::Model>,
))
    ensures
        r.0@ == postings@.filter(
            rejected_by(opt_pattern(screen.reject), opt_pattern(screen.keep)),
        ),
        r.1@ == postings@.filter(passed_by(opt_pattern(screen.reject), opt_pattern(screen.keep))),
        forall|reject: Seq<Seq<char>>, keep: Seq<Seq<char>>| #[trigger]
            screen.is_of(reject, keep) && are_ascii_texts(reject) && are_ascii_texts(keep)
                && are_ascii_postings(postings@) ==> r.0@ == postings@.filter(
                rejected_by_words(reject, keep),
            ) && r.1@ == postings@.filter(passed_by_words(reject, keep)),
{
    let mut rejects: Vec<posting::Model> = Vec::new();
    let mut candidates: Vec<posting::Model> = Vec::new();
    let ghost all = postings@;
    let ghost rejected = rejected_by(opt_pattern(screen.reject), opt_pattern(screen.keep));
    let ghost passed = passed_by(opt_pattern(screen.reject), opt_pattern(screen.keep));
    let mut seen: Ghost<int> = Ghost(0);
    proof {
        reveal(Seq::filter);
        assert(all.take(0).filter(rejected) =~= Seq::empty());
        assert(all.take(0).filter(passed) =~= Seq::empty());
    }
    for p in it: postings
        invariant
            it.seq() == all,
            seen@ == it.index(),
            rejected == rejected_by(opt_pattern(screen.reject), opt_pattern(screen.keep)),
            passed == passed_by(opt_pattern(screen.reject), opt_pattern(screen.keep)),
            rejects@ == all.take(seen@).filter(rejected),
            candidates@ == all.take(seen@).filter(passed),
            forall|i: int, reject: Seq<Seq<char>>, keep: Seq<Seq<char>>|
                #![trigger all[i], screen.is_of(reject, keep)]
                0 <= i < seen@ && screen.is_of(reject, keep) && are_ascii_texts(reject)
                    && are_ascii_texts(keep) && is_ascii_posting(all[i]) ==> rejected(all[i])
                    == rejected_by_words(reject, keep)(all[i]),
    {
        proof {
            reveal(Seq::filter);
            assert(all.take(seen@ + 1).drop_last() =~= all.take(seen@));
            assert(all.take(seen@ + 1).last() == p);
        }
        if screen.is_reject(&p) {
            rejects.push(p);
        } else {
            candidates.push(p);
        }
        proof {
            seen@ = seen@ + 1;
        }
    }
    assert(all.take(all.len() as int) =~= all);
    proof {
        assert forall|reject: Seq<Seq<char>>, keep: Seq<Seq<char>>| #[trigger]
            screen.is_of(reject, keep) && are_ascii_texts(reject) && are_ascii_texts(keep)
                && are_ascii_postings(all) implies rejects@ == all.filter(
            rejected_by_words(reject, keep),
        ) && candidates@ == all.filter(passed_by_words(reject, keep)) by {
            let by_words = rejected_by_words(reject, keep);
            assert(forall|i: int|
                0 <= i < all.len() ==> rejected(#[trigger] all[i]) == by_words(all[i]));
            lemma_same_filter(all, rejected, by_words);
            lemma_same_filter(all, passed, passed_by_words(reject, keep));
        }
    }
    (rejects, candidates)
}

/// Two tests that agree on the items keep the same of them.
proof fn lemma_same_filter(
    v: Seq<posting::Model>,
    f: spec_fn(posting::Model) -> bool,
    g: spec_fn(posting::Model) -> bool,
)
    requires
        forall|i: int| 0 <= i < v.len() ==> f(#[trigger] v[i]) == g(v[i]),
    ensures
        v.filter(f) == v.filter(g),
    decreases v.len(),
{
    reveal(Seq::filter);
    if v.len() > 0 {
        let d = v.drop_last();
        assert(forall|i: int| 0 <= i < d.len() ==> d[i] == v[i]);
        lemma_same_filter(d, f, g);
    }
}

/// Every posting is either rejected or passed, never both: together the two parts
/// have as many postings as there were.
pub proof fn screening_loses_nothing(
    reject: Option<Seq<char>>,
    keep: Option<Seq<char>>,
    postings: Seq<posting::Model>,
)
    ensures
        postings.filter(rejected_by(reject, keep)).len() + postings.filter(
            passed_by(reject, keep),
        ).len() == postings.len(),
    decreases postings.len(),
{
    reveal(Seq::filter);
    if postings.len() > 0 {
        screening_loses_nothing(reject, keep, postings.drop_last());
    }
}

/// Without reject terms nothing is pre-filtered: every posting is to be scored.
pub proof fn empty_prefilter_rejects_nothing(
    keep: Option<Seq<char>>,
    postings: Seq<posting::Model>,
)
    ensures
        postings.filter(passed_by(pattern_of(Seq::empty()), keep)) == postings,
    decreases postings.len(),
{
    reveal(Seq::filter);
    if postings.len() > 0 {
        empty_prefilter_rejects_nothing(keep, postings.drop_last());
        assert(postings.drop_last().push(postings.last()) =~= postings);
    }
}

/// A posting is dropped exactly when the reject pattern is found in its title and the keep
/// pattern is not found in its description. Without a reject pattern none is dropped, and
/// without a keep pattern none is rescued.
pub proof fn titles_reject_and_descriptions_rescue(
    reject: Seq<char>,
    keep: Seq<char>,
    p: posting::Model,
)
    ensures
        rejected_by(Some(reject), Some(keep))(p) <==> regex_found(reject, p.title@)
            && !regex_found(keep, p.description@),
        rejected_by(Some(reject), None)(p) <==> regex_found(reject, p.title@),
        !rejected_by(None, Some(keep))(p),
        !rejected_by(None, None)(p),
        passed_by(Some(reject), Some(keep))(p) <==> !regex_found(reject, p.title@) || regex_found(
            keep,
            p.description@,
        ),
        passed_by(None, None)(p),
{
}

/// By their words, a posting is dropped exactly when its title mentions a reject title and
/// its description no keep keyword.
pub proof fn reject_titles_and_keep_keywords_decide(
    reject: Seq<Seq<char>>,
    keep: Seq<Seq<char>>,
    p: posting::Model,
)
    ensures
        rejected_by_words(reject, keep)(p) <==> mentions(reject, p.title@) && !mentions(
            keep,
            p.description@,
        ),
        passed_by_words(reject, keep)(p) <==> !mentions(reject, p.title@) || mentions(
            keep,
            p.description@,
        ),
{
}

/// A screen looks for its reject pattern in the title and for its keep pattern in the
/// description; a pattern that it does not have is found nowhere.
pub proof fn screens_look_at_titles_and_descriptions(s: Screen, p: posting::Model)
    ensures
        s.reject is None ==> !s.rejects(p),
        s.reject matches Some(c) ==> s.keep is None ==> (s.rejects(p) <==> regex_found(
            c@,
            p.title@,
        )),
        s.reject matches Some(c) ==> s.keep matches Some(k) ==> (s.rejects(p) <==> regex_found(
            c@,
            p.title@,
        ) && !regex_found(k@, p.description@)),
{
}

/// A screen is of two lists if and only if each of its patterns is that of its list.
pub proof fn screens_are_of_their_lists(s: Screen, reject: Seq<Seq<char>>, keep: Seq<Seq<char>>)
    requires
        s.is_of(reject, keep),
    ensures
        reject.len() == 0 <==> s.reject is None,
        keep.len() == 0 <==> s.keep is None,
        s.reject matches Some(c) ==> Some(c@) == pattern_of(reject),
        s.keep matches Some(c) ==> Some(c@) == pattern_of(keep),
{
}

} // verus!
