//! Shard keys and the sitemap index.
//!
//! The sitemap space is partitioned by the lowercase first letter of the
//! package name; a shard key is a single lowercase ASCII letter. The sitemap
//! index is the fixed, ordered list of all 26 shard keys and never depends on
//! database state.

use crate::error::SiteError;
use vstd::prelude::*;

verus! {

/// Whether a character is a legal shard identifier: a lowercase ASCII letter.
pub open spec fn is_shard_letter(c: char) -> bool {
    'a' as int <= c as int <= 'z' as int
}

/// A validated shard identifier. Invariant: the letter is lowercase ASCII.
#[derive(Debug, Clone, Copy, PartialEq, Eq, Structural)]
pub struct ShardKey {
    pub letter: char,
}

impl ShardKey {
    /// Well-formedness: the letter is a lowercase ASCII letter.
    pub open spec fn wf(self) -> bool {
        is_shard_letter(self.letter)
    }
}

/// Whether a raw path segment is a legal shard key: exactly one character,
/// and that character a lowercase ASCII letter.
pub open spec fn valid_shard_segment(raw: Seq<char>) -> bool {
    raw.len() == 1 && is_shard_letter(raw[0])
}

/// Decide whether a raw path segment names a shard. Returns the shard key
/// exactly when the segment is one lowercase ASCII letter, and a not-found
/// failure on every other input.
pub fn validate_shard_key(raw: &str) -> (r: Result<ShardKey, SiteError>)
    ensures
        r is Ok <==> valid_shard_segment(raw@),
        r matches Ok(k) ==> k.wf() && k.letter == raw@[0],
        r matches Err(e) ==> e == SiteError::NotFound,
{
    let n = raw.unicode_len();
    if n != 1 {
        return Err(SiteError::NotFound);
    }
    let c = raw.get_char(0);
    let v = c as u32;
    if 97 <= v && v <= 122 {
        Ok(ShardKey { letter: c })
    } else {
        Err(SiteError::NotFound)
    }
}

/// The fixed partition of the sitemap space: the 26 lowercase ASCII letters
/// in ascending order.
pub open spec fn shard_letters() -> Seq<char> {
    seq![
        'a', 'b', 'c', 'd', 'e', 'f', 'g', 'h', 'i', 'j', 'k', 'l', 'm', 'n', 'o', 'p', 'q', 'r',
        's', 't', 'u', 'v', 'w', 'x', 'y', 'z',
    ]
}

/// The sitemap index document: the ordered list of shard keys the index
/// refers crawlers to. Recomputed per request, never cached.
#[derive(Debug, Clone, PartialEq, Eq)]
pub struct SitemapIndexDocument {
    pub sitemaps: Vec<char>,
}

/// Build the sitemap index: always the 26 letters `a` through `z` in
/// ascending order, whatever the database holds.
pub fn build_sitemap_index() -> (r: SitemapIndexDocument)
    ensures
        r.sitemaps@ == shard_letters(),
{
    let sitemaps: Vec<char> = vec![
        'a', 'b', 'c', 'd', 'e', 'f', 'g', 'h', 'i', 'j', 'k', 'l', 'm', 'n', 'o', 'p', 'q', 'r',
        's', 't', 'u', 'v', 'w', 'x', 'y', 'z',
    ];
    proof {
        assert(sitemaps@ =~= shard_letters());
    }
    SitemapIndexDocument { sitemaps }
}

/// The index lists exactly 26 entries, each a well-formed shard letter, in
/// strictly ascending order starting at `a`; every shard letter occurs.
pub proof fn lemma_index_is_the_shard_partition()
    ensures
        shard_letters().len() == 26,
        forall|i: int| 0 <= i < 26 ==> is_shard_letter(#[trigger] shard_letters()[i]),
        forall|i: int| 0 <= i < 26 ==> (#[trigger] shard_letters()[i]) as int == 'a' as int + i,
        forall|c: char| is_shard_letter(c) ==> shard_letters().contains(c),
{
    assert forall|c: char| is_shard_letter(c) implies shard_letters().contains(c) by {
        let i = c as int - 'a' as int;
        assert(shard_letters()[i] == c);
    }
}

} // verus!
