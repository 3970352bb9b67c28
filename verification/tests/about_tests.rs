use docs_sitemap::about::{about_builds, resolve_about_page};
use docs_sitemap::error::SiteError;

#[test]
fn about_page() {
    // every known page name resolves to its like-named template
    for name in &["badges", "metadata", "redirections", "download"] {
        let page = resolve_about_page(name).expect("a known page name");
        assert_eq!(page.template, format!("core/about/{}.html", name));
        assert_eq!(page.active_tab, *name);
    }
    // the bare /about segment resolves to the index page
    let page = resolve_about_page("about").expect("the index alias");
    assert_eq!(page.template, "core/about/index.html");
    assert_eq!(page.active_tab, "index");
}

#[test]
fn about_and_index_are_aliases() {
    let via_about = resolve_about_page("about").expect("a known page name");
    let via_index = resolve_about_page("index").expect("a known page name");
    assert_eq!(via_about.template, via_index.template);
    assert_eq!(via_about.active_tab, via_index.active_tab);
}

#[test]
fn unknown_about_page_is_not_found() {
    for name in &["builds-limits", "Badges", "", "sitemap"] {
        let err = resolve_about_page(name).expect_err("an unknown page name");
        assert_eq!(err.title, "the requested page does not exist");
        assert_eq!(err.status, SiteError::NotFound);
        assert!(err.message.contains("creating"));
    }
}

#[test]
fn about_builds_carries_the_reported_version() {
    let with_version = about_builds(Some("rustc 1.70.0".to_string()));
    assert_eq!(with_version.rustc_version.as_deref(), Some("rustc 1.70.0"));
    assert_eq!(with_version.active_tab, "builds");

    let without_version = about_builds(None);
    assert_eq!(without_version.rustc_version, None);
    assert_eq!(without_version.active_tab, "builds");
}
