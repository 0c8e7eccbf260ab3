//! Normalizing the input: a bare video identifier becomes a full page URL,
//! a full page URL passes through unchanged.

use vstd::prelude::*;
use crate::text::{chars_of, is_match_at, matches_at};
use vstd::string::StringExecFns;

verus! {

/// The canonical page-URL template of the site.
pub open spec fn url_prefix() -> Seq<char> {
    "https://www.bilibili.com/video/"@
}

/// Whether `s` already is a fully-qualified video-page URL.
pub open spec fn is_complete_url(s: Seq<char>) -> bool {
    s.len() >= url_prefix().len() && s.subrange(0, url_prefix().len() as int) == url_prefix()
}

/// The normalized page URL: the input itself when it is already complete,
/// else the canonical template with the input appended as the identifier.
pub open spec fn normalized_url(s: Seq<char>) -> Seq<char> {
    if is_complete_url(s) {
        s
    } else {
        url_prefix() + s
    }
}

pub fn complete_url(url: String) -> (r: String)
    ensures
        r@ == normalized_url(url@),
{
    let chars = chars_of(url.as_str());
    let pref = chars_of("https://www.bilibili.com/video/");
    if is_match_at(&chars, &pref, 0) {
        proof {
            assert(is_complete_url(url@));
        }
        url
    } else {
        proof {
            assert(!is_complete_url(url@)) by {
                if is_complete_url(url@) {
                    assert(matches_at(url@, url_prefix(), 0));
                }
            }
        }
        let base = "https://www.bilibili.com/video/".to_owned();
        base.concat(url.as_str())
    }
}

} // verus!
