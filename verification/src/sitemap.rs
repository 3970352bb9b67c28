//! Per-shard sitemap assembly: the release aggregation and the document
//! builder.
//!
//! The aggregation consumes one record per (package, build target, release)
//! from the persisted release data, keeps those of successfully built
//! packages whose name starts with the shard letter (case-insensitively),
//! groups them by (package name, target name), and keeps the most recent
//! release time of each group. The document builder then raises each time to
//! the recrawl floor and renders it.

use crate::shard::{is_shard_letter, ShardKey};
use crate::timestamp::{format_timestamp, iso8601_utc, normalize, spec_normalize, MAX_FORMAT_SECS};
use vstd::prelude::*;
use vstd::string::StrSliceExecFns;

verus! {

/// One persisted release record, as the aggregation consumes it: a package
/// name, the build target the documentation was built for, the release time
/// in seconds since the Unix epoch, and whether the documentation build
/// succeeded.
#[derive(Debug, Clone)]
pub struct ReleaseRecord {
    pub name: String,
    pub target: String,
    pub release_time: i64,
    pub build_success: bool,
}

/// Case-insensitive match of a package's first character against a lowercase
/// shard letter: the character is the letter itself or its uppercase form,
/// 32 code points below it.
pub open spec fn letter_matches(c: char, k: char) -> bool {
    c == k || c as int + 32 == k as int
}

/// Whether a record belongs to shard `k`: its build succeeded and its
/// package name starts, case-insensitively, with the shard letter.
pub open spec fn in_shard(rec: ReleaseRecord, k: char) -> bool {
    &&& rec.build_success
    &&& rec.name@.len() > 0
    &&& letter_matches(rec.name@[0], k)
}

/// One aggregated group: a (package, target) pair with its most recent
/// release time.
pub struct ReleaseEntry {
    pub name: String,
    pub target: String,
    pub release_time: i64,
}

/// `time` is the release time of group `(name, target)` in shard `k` over
/// the records `rs`: some record of the shard carries exactly this name,
/// target and time, and no record of the shard with this name and target is
/// more recent.
pub open spec fn group_max(
    rs: Seq<ReleaseRecord>,
    k: char,
    name: Seq<char>,
    target: Seq<char>,
    time: int,
) -> bool {
    &&& exists|i: int|
        0 <= i < rs.len() && in_shard(#[trigger] rs[i], k) && rs[i].name@ == name
            && rs[i].target@ == target && rs[i].release_time as int == time
    &&& forall|i: int|
        0 <= i < rs.len() && in_shard(#[trigger] rs[i], k) && rs[i].name@ == name
            && rs[i].target@ == target ==> rs[i].release_time as int <= time
}

/// Whether the aggregated entries list the (package, target) pair.
pub open spec fn lists_pair(entries: Seq<ReleaseEntry>, name: Seq<char>, target: Seq<char>) -> bool {
    exists|j: int|
        0 <= j < entries.len() && (#[trigger] entries[j]).name@ == name && entries[j].target@
            == target
}

/// The aggregation contract: every entry is a group of the shard with its
/// most recent release time, every shard record's (package, target) pair is
/// listed, and no pair is listed twice.
pub open spec fn is_aggregation(
    rs: Seq<ReleaseRecord>,
    k: char,
    entries: Seq<ReleaseEntry>,
) -> bool {
    &&& forall|j: int|
        0 <= j < entries.len() ==> group_max(
            rs,
            k,
            (#[trigger] entries[j]).name@,
            entries[j].target@,
            entries[j].release_time as int,
        )
    &&& forall|i: int|
        0 <= i < rs.len() && in_shard(#[trigger] rs[i], k) ==> lists_pair(
            entries,
            rs[i].name@,
            rs[i].target@,
        )
    &&& forall|j1: int, j2: int|
        0 <= j1 < j2 < entries.len() ==> !((#[trigger] entries[j1]).name@ == (
        #[trigger] entries[j2]).name@ && entries[j1].target@ == entries[j2].target@)
}

/// Whether a record belongs to the shard; mirrors `in_shard`.
fn record_in_shard(rec: &ReleaseRecord, key: ShardKey) -> (r: bool)
    ensures
        r == in_shard(*rec, key.letter),
{
    if !rec.build_success {
        return false;
    }
    if rec.name.as_str().unicode_len() == 0 {
        return false;
    }
    let c = rec.name.as_str().get_char(0);
    let cv = c as u32;
    let kv = key.letter as u32;
    cv == kv || cv + 32 == kv
}

/// Find the index of the entry carrying this (package, target) pair, if any.
fn find_pair(entries: &Vec<ReleaseEntry>, name: &String, target: &String) -> (r: Option<usize>)
    ensures
        match r {
            Some(j) => 0 <= j < entries@.len() && entries@[j as int].name@ == name@
                && entries@[j as int].target@ == target@,
            None => forall|j: int|
                0 <= j < entries@.len() ==> !((#[trigger] entries@[j]).name@ == name@
                    && entries@[j].target@ == target@),
        },
{
    let mut j: usize = 0;
    while j < entries.len()
        invariant
            j <= entries@.len(),
            forall|l: int|
                0 <= l < j ==> !((#[trigger] entries@[l]).name@ == name@ && entries@[l].target@
                    == target@),
        decreases entries@.len() - j,
    {
        let e = &entries[j];
        if e.name == *name && e.target == *target {
            return Some(j);
        }
        j += 1;
    }
    None
}

/// A group's release time stays a group's release time when one more record
/// is taken in, as long as the new record is not of this group or is not
/// more recent.
proof fn lemma_group_max_extend(
    rs: Seq<ReleaseRecord>,
    k: char,
    name: Seq<char>,
    target: Seq<char>,
    time: int,
    i: int,
)
    requires
        0 <= i < rs.len(),
        group_max(rs.take(i), k, name, target, time),
        in_shard(rs[i], k) && rs[i].name@ == name && rs[i].target@ == target
            ==> rs[i].release_time as int <= time,
    ensures
        group_max(rs.take(i + 1), k, name, target, time),
{
    assert(rs.take(i + 1) =~= rs.take(i).push(rs[i]));
    let l = choose|l: int|
        0 <= l < rs.take(i).len() && in_shard(#[trigger] rs.take(i)[l], k) && rs.take(i)[l].name@
            == name && rs.take(i)[l].target@ == target && rs.take(i)[l].release_time as int == time;
    assert(rs.take(i + 1)[l] == rs.take(i)[l]);
    assert forall|m: int|
        0 <= m < rs.take(i + 1).len() && in_shard(#[trigger] rs.take(i + 1)[m], k) && rs.take(
            i + 1,
        )[m].name@ == name && rs.take(i + 1)[m].target@ == target implies rs.take(
        i + 1,
    )[m].release_time as int <= time by {
        if m < i {
            assert(rs.take(i + 1)[m] == rs.take(i)[m]);
        } else {
            assert(rs.take(i + 1)[m] == rs[i]);
        }
    }
}

/// When a group's record arrives, the larger of the group's time so far and
/// the record's time is the group's time over the extended prefix.
proof fn lemma_group_max_update(
    rs: Seq<ReleaseRecord>,
    k: char,
    name: Seq<char>,
    target: Seq<char>,
    time: int,
    i: int,
    newtime: int,
)
    requires
        0 <= i < rs.len(),
        group_max(rs.take(i), k, name, target, time),
        in_shard(rs[i], k),
        rs[i].name@ == name,
        rs[i].target@ == target,
        newtime == if rs[i].release_time as int > time {
            rs[i].release_time as int
        } else {
            time
        },
    ensures
        group_max(rs.take(i + 1), k, name, target, newtime),
{
    assert(rs.take(i + 1) =~= rs.take(i).push(rs[i]));
    if rs[i].release_time as int > time {
        assert(rs.take(i + 1)[i] == rs[i]);
    } else {
        let l = choose|l: int|
            0 <= l < rs.take(i).len() && in_shard(#[trigger] rs.take(i)[l], k) && rs.take(
                i,
            )[l].name@ == name && rs.take(i)[l].target@ == target && rs.take(
                i,
            )[l].release_time as int == time;
        assert(rs.take(i + 1)[l] == rs.take(i)[l]);
    }
    assert forall|m: int|
        0 <= m < rs.take(i + 1).len() && in_shard(#[trigger] rs.take(i + 1)[m], k) && rs.take(
            i + 1,
        )[m].name@ == name && rs.take(i + 1)[m].target@ == target implies rs.take(
        i + 1,
    )[m].release_time as int <= newtime by {
        if m < i {
            assert(rs.take(i + 1)[m] == rs.take(i)[m]);
        } else {
            assert(rs.take(i + 1)[m] == rs[i]);
        }
    }
}

/// A record of the shard whose group has not been seen before is its own
/// group over the extended prefix.
proof fn lemma_group_max_new(rs: Seq<ReleaseRecord>, k: char, i: int)
    requires
        0 <= i < rs.len(),
        in_shard(rs[i], k),
        forall|l: int|
            0 <= l < i && in_shard(#[trigger] rs[l], k) ==> !(rs[l].name@ == rs[i].name@
                && rs[l].target@ == rs[i].target@),
    ensures
        group_max(rs.take(i + 1), k, rs[i].name@, rs[i].target@, rs[i].release_time as int),
{
    assert(rs.take(i + 1) =~= rs.take(i).push(rs[i]));
    assert(rs.take(i + 1)[i] == rs[i]);
    assert forall|m: int|
        0 <= m < rs.take(i + 1).len() && in_shard(#[trigger] rs.take(i + 1)[m], k) && rs.take(
            i + 1,
        )[m].name@ == rs[i].name@ && rs.take(i + 1)[m].target@ == rs[i].target@ implies rs.take(
        i + 1,
    )[m].release_time as int <= rs[i].release_time as int by {
        if m < i {
            assert(rs.take(i + 1)[m] == rs[m]);
        } else {
            assert(rs.take(i + 1)[m] == rs[i]);
        }
    }
}

/// Group the shard's records by (package, target), keeping each group's most
/// recent release time. Total: any record set, including an empty one,
/// yields a document.
pub fn aggregate_releases(key: ShardKey, records: &Vec<ReleaseRecord>) -> (r: Vec<ReleaseEntry>)
    ensures
        is_aggregation(records@, key.letter, r@),
{
    let ghost rs = records@;
    let ghost k = key.letter;
    let mut entries: Vec<ReleaseEntry> = Vec::new();
    let mut i: usize = 0;
    while i < records.len()
        invariant
            rs == records@,
            k == key.letter,
            i <= rs.len(),
            forall|j: int|
                0 <= j < entries@.len() ==> group_max(
                    rs.take(i as int),
                    k,
                    (#[trigger] entries@[j]).name@,
                    entries@[j].target@,
                    entries@[j].release_time as int,
                ),
            forall|l: int|
                0 <= l < i && in_shard(#[trigger] rs[l], k) ==> lists_pair(
                    entries@,
                    rs[l].name@,
                    rs[l].target@,
                ),
            forall|j1: int, j2: int|
                0 <= j1 < j2 < entries@.len() ==> !((#[trigger] entries@[j1]).name@ == (
                #[trigger] entries@[j2]).name@ && entries@[j1].target@ == entries@[j2].target@),
        decreases rs.len() - i,
    {
        let ghost pre = entries@;
        let rec = &records[i];
        if record_in_shard(rec, key) {
            match find_pair(&entries, &rec.name, &rec.target) {
                Some(j) => {
                    if entries[j].release_time < rec.release_time {
                        entries[j].release_time = rec.release_time;
                    }
                    proof {
                        assert(entries@[j as int].name@ == pre[j as int].name@);
                        assert(entries@[j as int].target@ == pre[j as int].target@);
                        assert forall|j2: int| 0 <= j2 < entries@.len() implies group_max(
                            rs.take(i + 1),
                            k,
                            (#[trigger] entries@[j2]).name@,
                            entries@[j2].target@,
                            entries@[j2].release_time as int,
                        ) by {
                            if j2 == j as int {
                                lemma_group_max_update(
                                    rs,
                                    k,
                                    pre[j2].name@,
                                    pre[j2].target@,
                                    pre[j2].release_time as int,
                                    i as int,
                                    entries@[j2].release_time as int,
                                );
                            } else {
                                assert(entries@[j2] == pre[j2]);
                                // distinctness: the pair of entry j2 differs from the
                                // record's pair, which is the pair of entry j
                                assert(!(pre[j2].name@ == pre[j as int].name@ && pre[j2].target@
                                    == pre[j as int].target@));
                                lemma_group_max_extend(
                                    rs,
                                    k,
                                    pre[j2].name@,
                                    pre[j2].target@,
                                    pre[j2].release_time as int,
                                    i as int,
                                );
                            }
                        }
                        assert forall|l: int|
                            0 <= l < i + 1 && in_shard(#[trigger] rs[l], k) implies lists_pair(
                            entries@,
                            rs[l].name@,
                            rs[l].target@,
                        ) by {
                            if l < i {
                                let j0 = choose|j0: int|
                                    0 <= j0 < pre.len() && (#[trigger] pre[j0]).name@ == rs[l].name@
                                        && pre[j0].target@ == rs[l].target@;
                                assert(entries@[j0].name@ == pre[j0].name@ && entries@[j0].target@
                                    == pre[j0].target@);
                            } else {
                                assert(entries@[j as int].name@ == rs[l].name@
                                    && entries@[j as int].target@ == rs[l].target@);
                            }
                        }
                    }
                },
                None => {
                    let entry = ReleaseEntry {
                        name: rec.name.clone(),
                        target: rec.target.clone(),
                        release_time: rec.release_time,
                    };
                    entries.push(entry);
                    proof {
                        assert(entries@ == pre.push(entries@[pre.len() as int]));
                        let last = pre.len() as int;
                        assert(entries@[last].name@ == rs[i as int].name@);
                        assert(entries@[last].target@ == rs[i as int].target@);
                        assert forall|j2: int| 0 <= j2 < entries@.len() implies group_max(
                            rs.take(i + 1),
                            k,
                            (#[trigger] entries@[j2]).name@,
                            entries@[j2].target@,
                            entries@[j2].release_time as int,
                        ) by {
                            if j2 < last {
                                assert(entries@[j2] == pre[j2]);
                                // no earlier entry carries the record's pair
                                assert(!(pre[j2].name@ == rs[i as int].name@ && pre[j2].target@
                                    == rs[i as int].target@));
                                lemma_group_max_extend(
                                    rs,
                                    k,
                                    pre[j2].name@,
                                    pre[j2].target@,
                                    pre[j2].release_time as int,
                                    i as int,
                                );
                            } else {
                                // no earlier record of the shard carries this pair,
                                // else its pair would already be listed
                                assert forall|l: int|
                                    0 <= l < i && in_shard(#[trigger] rs[l], k) implies !(rs[l].name@
                                    == rs[i as int].name@ && rs[l].target@
                                    == rs[i as int].target@) by {
                                    if rs[l].name@ == rs[i as int].name@ && rs[l].target@
                                        == rs[i as int].target@ {
                                        assert(lists_pair(pre, rs[l].name@, rs[l].target@));
                                    }
                                }
                                lemma_group_max_new(rs, k, i as int);
                            }
                        }
                        assert forall|l: int|
                            0 <= l < i + 1 && in_shard(#[trigger] rs[l], k) implies lists_pair(
                            entries@,
                            rs[l].name@,
                            rs[l].target@,
                        ) by {
                            if l < i {
                                let j0 = choose|j0: int|
                                    0 <= j0 < pre.len() && (#[trigger] pre[j0]).name@ == rs[l].name@
                                        && pre[j0].target@ == rs[l].target@;
                                assert(entries@[j0].name@ == rs[l].name@ && entries@[j0].target@
                                    == rs[l].target@);
                            } else {
                                assert(entries@[last].name@ == rs[l].name@ && entries@[last].target@
                                    == rs[l].target@);
                            }
                        }
                    }
                },
            }
        } else {
            proof {
                assert forall|j2: int| 0 <= j2 < entries@.len() implies group_max(
                    rs.take(i + 1),
                    k,
                    (#[trigger] entries@[j2]).name@,
                    entries@[j2].target@,
                    entries@[j2].release_time as int,
                ) by {
                    lemma_group_max_extend(
                        rs,
                        k,
                        entries@[j2].name@,
                        entries@[j2].target@,
                        entries@[j2].release_time as int,
                        i as int,
                    );
                }
            }
        }
        i += 1;
    }
    proof {
        assert(rs.take(rs.len() as int) =~= rs);
    }
    entries
}

/// One row of a shard's sitemap document: a package, a build target, and the
/// rendered last-modified time.
#[derive(Debug, Clone)]
pub struct SitemapRow {
    pub crate_name: String,
    pub target_name: String,
    pub last_modified: String,
}

/// A shard's sitemap document. Built fresh per request; row order carries no
/// contract beyond what the aggregation yields.
#[derive(Debug, Clone)]
pub struct SitemapDocument {
    pub releases: Vec<SitemapRow>,
}

/// A document row is correct for shard `k` over the records `rs`: its pair
/// is a group of the shard, and its last-modified text renders the group's
/// most recent release time raised to the recrawl floor.
pub open spec fn row_for_group(rs: Seq<ReleaseRecord>, k: char, row: SitemapRow) -> bool {
    exists|t: int|
        #[trigger] group_max(rs, k, row.crate_name@, row.target_name@, t) && row.last_modified@
            == iso8601_utc(spec_normalize(t))
}

/// Whether the document lists the (package, target) pair.
pub open spec fn doc_lists_pair(rows: Seq<SitemapRow>, name: Seq<char>, target: Seq<char>) -> bool {
    exists|j: int|
        0 <= j < rows.len() && (#[trigger] rows[j]).crate_name@ == name && rows[j].target_name@
            == target
}

/// Whether the document lists the package under any build target.
pub open spec fn doc_lists_package(rows: Seq<SitemapRow>, name: Seq<char>) -> bool {
    exists|j: int| 0 <= j < rows.len() && (#[trigger] rows[j]).crate_name@ == name
}

/// The shard document contract: every row is a correct group row, every
/// shard record's pair is listed, and no pair is listed twice.
pub open spec fn is_shard_document(rs: Seq<ReleaseRecord>, k: char, rows: Seq<SitemapRow>) -> bool {
    &&& forall|j: int| 0 <= j < rows.len() ==> row_for_group(rs, k, #[trigger] rows[j])
    &&& forall|i: int|
        0 <= i < rs.len() && in_shard(#[trigger] rs[i], k) ==> doc_lists_pair(
            rows,
            rs[i].name@,
            rs[i].target@,
        )
    &&& forall|j1: int, j2: int|
        0 <= j1 < j2 < rows.len() ==> !((#[trigger] rows[j1]).crate_name@ == (
        #[trigger] rows[j2]).crate_name@ && rows[j1].target_name@ == rows[j2].target_name@)
}

/// Build the sitemap document of one shard from the persisted release
/// records: aggregate the shard's records by (package, target), raise each
/// group's most recent release time to the recrawl floor, and render it.
/// Total over every record set, the empty one included.
pub fn build_shard_sitemap(key: ShardKey, records: &Vec<ReleaseRecord>) -> (r: SitemapDocument)
    requires
        forall|i: int|
            0 <= i < records@.len() ==> (#[trigger] records@[i]).release_time <= MAX_FORMAT_SECS,
    ensures
        is_shard_document(records@, key.letter, r.releases@),
{
    let ghost rs = records@;
    let ghost k = key.letter;
    let entries = aggregate_releases(key, records);
    let mut rows: Vec<SitemapRow> = Vec::new();
    let mut j: usize = 0;
    while j < entries.len()
        invariant
            rs == records@,
            k == key.letter,
            is_aggregation(rs, k, entries@),
            forall|i: int|
                0 <= i < rs.len() ==> (#[trigger] rs[i]).release_time <= MAX_FORMAT_SECS,
            j <= entries@.len(),
            rows@.len() == j,
            forall|l: int|
                0 <= l < j ==> (#[trigger] rows@[l]).crate_name@ == entries@[l].name@
                    && rows@[l].target_name@ == entries@[l].target@ && rows@[l].last_modified@
                    == iso8601_utc(spec_normalize(entries@[l].release_time as int)),
        decreases entries@.len() - j,
    {
        let e = &entries[j];
        proof {
            // the entry's time is some record's time, so it is within the
            // formatter's range
            let w = choose|w: int|
                0 <= w < rs.len() && in_shard(#[trigger] rs[w], k) && rs[w].name@ == e.name@
                    && rs[w].target@ == e.target@ && rs[w].release_time as int
                    == e.release_time as int;
            assert(rs[w].release_time <= MAX_FORMAT_SECS);
        }
        let t = normalize(e.release_time);
        let last_modified = format_timestamp(t);
        rows.push(
            SitemapRow {
                crate_name: e.name.clone(),
                target_name: e.target.clone(),
                last_modified,
            },
        );
        j += 1;
    }
    proof {
        assert forall|l: int| 0 <= l < rows@.len() implies row_for_group(
            rs,
            k,
            #[trigger] rows@[l],
        ) by {
            let t = entries@[l].release_time as int;
            assert(group_max(rs, k, rows@[l].crate_name@, rows@[l].target_name@, t));
        }
        assert forall|i: int| 0 <= i < rs.len() && in_shard(#[trigger] rs[i], k) implies
            doc_lists_pair(rows@, rs[i].name@, rs[i].target@) by {
            let j0 = choose|j0: int|
                0 <= j0 < entries@.len() && (#[trigger] entries@[j0]).name@ == rs[i].name@
                    && entries@[j0].target@ == rs[i].target@;
            assert(rows@[j0].crate_name@ == rs[i].name@ && rows@[j0].target_name@ == rs[i].target@);
        }
    }
    SitemapDocument { releases: rows }
}

/// Every shard request succeeds even against an empty database: for every
/// shard letter, the empty document is the shard's document of an empty
/// record set.
pub proof fn lemma_empty_database_yields_empty_document(k: char)
    ensures
        is_shard_document(Seq::<ReleaseRecord>::empty(), k, Seq::<SitemapRow>::empty()),
{
}

/// A successfully built package is listed in the document of the shard its
/// first letter names.
pub proof fn lemma_successful_package_is_listed(
    rs: Seq<ReleaseRecord>,
    k: char,
    rows: Seq<SitemapRow>,
    i: int,
)
    requires
        is_shard_document(rs, k, rows),
        0 <= i < rs.len(),
        in_shard(rs[i], k),
    ensures
        doc_lists_package(rows, rs[i].name@),
{
    assert(doc_lists_pair(rows, rs[i].name@, rs[i].target@));
    let j = choose|j: int|
        0 <= j < rows.len() && (#[trigger] rows[j]).crate_name@ == rs[i].name@ && rows[j].target_name@
            == rs[i].target@;
    assert(rows[j].crate_name@ == rs[i].name@);
}

/// A package is listed in at most one shard: listed in the document of one
/// shard letter, it is absent from the document of every other.
pub proof fn lemma_package_in_at_most_one_shard(
    rs: Seq<ReleaseRecord>,
    k1: char,
    k2: char,
    rows1: Seq<SitemapRow>,
    rows2: Seq<SitemapRow>,
    name: Seq<char>,
)
    requires
        is_shard_letter(k1),
        is_shard_letter(k2),
        k1 != k2,
        is_shard_document(rs, k1, rows1),
        is_shard_document(rs, k2, rows2),
        doc_lists_package(rows1, name),
    ensures
        !doc_lists_package(rows2, name),
{
    let j1 = choose|j: int| 0 <= j < rows1.len() && (#[trigger] rows1[j]).crate_name@ == name;
    assert(row_for_group(rs, k1, rows1[j1]));
    let t1 = choose|t: int|
        #[trigger] group_max(rs, k1, name, rows1[j1].target_name@, t) && rows1[j1].last_modified@
            == iso8601_utc(spec_normalize(t));
    let i1 = choose|i: int|
        0 <= i < rs.len() && in_shard(#[trigger] rs[i], k1) && rs[i].name@ == name && rs[i].target@
            == rows1[j1].target_name@ && rs[i].release_time as int == t1;
    if doc_lists_package(rows2, name) {
        let j2 = choose|j: int| 0 <= j < rows2.len() && (#[trigger] rows2[j]).crate_name@ == name;
        assert(row_for_group(rs, k2, rows2[j2]));
        let t2 = choose|t: int|
            #[trigger] group_max(rs, k2, name, rows2[j2].target_name@, t)
                && rows2[j2].last_modified@ == iso8601_utc(spec_normalize(t));
        let i2 = choose|i: int|
            0 <= i < rs.len() && in_shard(#[trigger] rs[i], k2) && rs[i].name@ == name
                && rs[i].target@ == rows2[j2].target_name@ && rs[i].release_time as int == t2;
        // both shards match the same first character of the same name,
        // which two distinct lowercase letters cannot both do
        assert(letter_matches(name[0], k1));
        assert(letter_matches(name[0], k2));
        assert(false);
    }
}

/// A package whose builds all failed is listed in no shard's document.
pub proof fn lemma_failed_package_never_listed(
    rs: Seq<ReleaseRecord>,
    k: char,
    rows: Seq<SitemapRow>,
    name: Seq<char>,
)
    requires
        is_shard_document(rs, k, rows),
        forall|i: int| 0 <= i < rs.len() && (#[trigger] rs[i]).name@ == name ==> !rs[i].build_success,
    ensures
        !doc_lists_package(rows, name),
{
    if doc_lists_package(rows, name) {
        let j = choose|j: int| 0 <= j < rows.len() && (#[trigger] rows[j]).crate_name@ == name;
        assert(row_for_group(rs, k, rows[j]));
        let t = choose|t: int|
            #[trigger] group_max(rs, k, name, rows[j].target_name@, t) && rows[j].last_modified@
                == iso8601_utc(spec_normalize(t));
        let i = choose|i: int|
            0 <= i < rs.len() && in_shard(#[trigger] rs[i], k) && rs[i].name@ == name
                && rs[i].target@ == rows[j].target_name@ && rs[i].release_time as int == t;
        assert(rs[i].build_success);
        assert(false);
    }
}

} // verus!
