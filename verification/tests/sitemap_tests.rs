use docs_sitemap::error::{InternalCause, SiteError};
use docs_sitemap::shard::{build_sitemap_index, validate_shard_key, ShardKey};
use docs_sitemap::sitemap::{build_shard_sitemap, ReleaseRecord, SitemapDocument};

fn rec(name: &str, target: &str, release_time: i64, build_success: bool) -> ReleaseRecord {
    ReleaseRecord {
        name: name.to_string(),
        target: target.to_string(),
        release_time,
        build_success,
    }
}

fn shard(letter: char, records: &Vec<ReleaseRecord>) -> SitemapDocument {
    let key = validate_shard_key(&letter.to_string()).expect("a lowercase letter");
    build_shard_sitemap(key, records)
}

#[test]
fn sitemap_index() {
    let index = build_sitemap_index();
    let letters: Vec<char> = ('a'..='z').collect();
    assert_eq!(index.sitemaps, letters);
}

#[test]
fn sitemap_invalid_letters() {
    // everything not length=1 and ascii-lowercase should fail
    for invalid_letter in &["1", "aa", "A", ""] {
        println!("trying to fail letter {}", invalid_letter);
        assert_eq!(validate_shard_key(invalid_letter), Err(SiteError::NotFound));
    }
}

#[test]
fn sitemap_letter() {
    // letter-sitemaps always work, even without crates & releases
    let empty: Vec<ReleaseRecord> = Vec::new();
    for letter in 'a'..='z' {
        let key = validate_shard_key(&letter.to_string());
        assert!(key.is_ok());
        let doc = build_shard_sitemap(key.unwrap(), &empty);
        assert!(doc.releases.is_empty());
    }

    let records = vec![
        rec("some_random_crate", "x86_64-unknown-linux-gnu", 1661731200, true),
        rec(
            "some_random_crate_that_failed",
            "x86_64-unknown-linux-gnu",
            1661731200,
            false,
        ),
    ];

    // these fake crates appear only in the `s` sitemap
    let doc = shard('s', &records);
    assert!(doc
        .releases
        .iter()
        .any(|row| row.crate_name == "some_random_crate"));
    assert!(!doc
        .releases
        .iter()
        .any(|row| row.crate_name == "some_random_crate_that_failed"));

    // and not in the others
    for letter in ('a'..='z').filter(|&c| c != 's') {
        let doc = shard(letter, &records);
        assert!(!doc
            .releases
            .iter()
            .any(|row| row.crate_name == "some_random_crate"));
    }
}

#[test]
fn sitemap_max_age() {
    // released 2020-01-01T00:00:00Z, before the recrawl floor
    let records = vec![rec(
        "some_random_crate",
        "x86_64-unknown-linux-gnu",
        1577836800,
        true,
    )];

    let doc = shard('s', &records);
    assert_eq!(doc.releases.len(), 1);
    assert_eq!(doc.releases[0].last_modified, "2022-08-28T00:00:00+00:00");
}

#[test]
fn sitemap_recent_release_kept() {
    // released 2022-08-29T00:00:00Z, after the floor: reported unchanged
    let records = vec![rec("serde", "x86_64-unknown-linux-gnu", 1661731200, true)];

    let doc = shard('s', &records);
    assert_eq!(doc.releases.len(), 1);
    assert_eq!(doc.releases[0].last_modified, "2022-08-29T00:00:00+00:00");
}

#[test]
fn sitemap_groups_by_package_and_target() {
    let records = vec![
        rec("alpha", "x86_64-unknown-linux-gnu", 1661731200, true),
        rec("alpha", "x86_64-unknown-linux-gnu", 1700000000, true),
        rec("alpha", "x86_64-apple-darwin", 1661731200, true),
        rec("anchor", "x86_64-unknown-linux-gnu", 1661731200, true),
    ];

    let doc = shard('a', &records);
    // one row per (package, target) pair, not per release
    assert_eq!(doc.releases.len(), 3);
    let linux_alpha = doc
        .releases
        .iter()
        .find(|row| row.crate_name == "alpha" && row.target_name == "x86_64-unknown-linux-gnu")
        .expect("alpha on linux is listed");
    // the most recent release of the group wins: 2023-11-14T22:13:20Z
    assert_eq!(linux_alpha.last_modified, "2023-11-14T22:13:20+00:00");
    assert!(doc
        .releases
        .iter()
        .any(|row| row.crate_name == "alpha" && row.target_name == "x86_64-apple-darwin"));
    assert!(doc.releases.iter().any(|row| row.crate_name == "anchor"));
}

#[test]
fn sitemap_prefix_is_case_insensitive() {
    let records = vec![rec("Serde_Fork", "x86_64-unknown-linux-gnu", 1661731200, true)];

    let doc = shard('s', &records);
    assert_eq!(doc.releases.len(), 1);
    assert_eq!(doc.releases[0].crate_name, "Serde_Fork");
    // and it is in no other shard
    for letter in ('a'..='z').filter(|&c| c != 's') {
        assert!(shard(letter, &records).releases.is_empty());
    }
}

#[test]
fn shard_key_accepts_every_letter() {
    for letter in 'a'..='z' {
        let key = validate_shard_key(&letter.to_string());
        assert_eq!(key, Ok(ShardKey { letter }));
    }
}

#[test]
fn error_status_codes() {
    assert_eq!(SiteError::NotFound.status_code(), 404);
    assert_eq!(SiteError::Internal(InternalCause::QueryFailed).status_code(), 500);
    assert_eq!(SiteError::Internal(InternalCause::WorkerFailed).status_code(), 500);
}
