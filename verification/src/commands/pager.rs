//! Which pagers to try.

use vstd::prelude::*;

use crate::text::words::{words, words_of};
use crate::text::{blank, chars_of, is_blank, opt_str, texts};

verus! {

/// The command lines of the pagers to try, in order: the user's own, which may have
/// arguments, or else `less` and then `more`.
pub open spec fn pagers(own: Option<Seq<char>>) -> Seq<Seq<Seq<char>>> {
    match own {
        Some(p) => if is_blank(p) {
            default_pagers()
        } else {
            seq![words(p)]
        },
        None => default_pagers(),
    }
}

/// The pagers to try where the user has none.
pub open spec fn default_pagers() -> Seq<Seq<Seq<char>>> {
    seq![seq!["less"@, "-RF"@], seq!["more"@]]
}

/// The texts of command lines.
pub open spec fn argv_texts(v: Seq<Vec<String>>) -> Seq<Seq<Seq<char>>> {
    v.map_values(|a: Vec<String>| texts(a@))
}

/// The command lines of the pagers to try, in order. None of them is empty.
pub fn pager_candidates(own: Option<&str>) -> (r: Vec<Vec<String>>)
    ensures
        argv_texts(r@) == pagers(opt_str(own)),
        forall|i: int| 0 <= i < r@.len() ==> (#[trigger] r@[i])@.len() > 0,
{
    let mut out: Vec<Vec<String>> = Vec::new();
    match own {
        Some(p) => if !blank(p) {
            let argv = words_of(chars_of(p).as_slice());
            proof {
                crate::text::words::lemma_words(p@);
                assert(texts(argv@).len() == argv@.len());
            }
            out.push(argv);
            assert(argv_texts(out@) =~= seq![words(p@)]);
            return out;
        },
        None => {},
    }
    let mut less: Vec<String> = Vec::new();
    less.push("less".to_owned());
    less.push("-RF".to_owned());
    assert(texts(less@) =~= seq!["less"@, "-RF"@]);
    let mut more: Vec<String> = Vec::new();
    more.push("more".to_owned());
    assert(texts(more@) =~= seq!["more"@]);
    out.push(less);
    out.push(more);
    assert(argv_texts(out@) =~= default_pagers());
    out
}

} // verus!
