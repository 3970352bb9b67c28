//! Resolution of informational ("about") page names.
//!
//! A requested page name maps to a fixed set of templates: `about` and
//! `index` are aliases of the index page, four further names map to
//! like-named templates, and every other name yields the not-found error
//! page. The resolved name doubles as the navigation tab to highlight.

use crate::error::SiteError;
use vstd::prelude::*;
use vstd::string::StrSliceExecFns;

verus! {

/// A resolved informational page: the template the rendering collaborator
/// should serialize, and the navigation tab to highlight.
#[derive(Debug, Clone)]
pub struct AboutPage {
    pub template: String,
    pub active_tab: String,
}

/// The error page shown for an unknown informational page name.
#[derive(Debug, Clone)]
pub struct ErrorPage {
    pub title: String,
    pub message: String,
    pub status: SiteError,
}

/// The fixed name-to-page table: the (tab, template) pair a page name
/// resolves to, or nothing for an unknown name.
pub open spec fn about_resolution(name: Seq<char>) -> Option<(Seq<char>, Seq<char>)> {
    if name == "about"@ || name == "index"@ {
        Some(("index"@, "core/about/index.html"@))
    } else if name == "badges"@ {
        Some(("badges"@, "core/about/badges.html"@))
    } else if name == "metadata"@ {
        Some(("metadata"@, "core/about/metadata.html"@))
    } else if name == "redirections"@ {
        Some(("redirections"@, "core/about/redirections.html"@))
    } else if name == "download"@ {
        Some(("download"@, "core/about/download.html"@))
    } else {
        None
    }
}

/// Character-for-character string equality.
fn str_eq(a: &str, b: &str) -> (r: bool)
    ensures
        r == (a@ == b@),
{
    let alen = a.unicode_len();
    let blen = b.unicode_len();
    if alen != blen {
        return false;
    }
    let mut i: usize = 0;
    while i < alen
        invariant
            alen == a@.len(),
            blen == b@.len(),
            alen == blen,
            i <= alen,
            forall|l: int| 0 <= l < i ==> a@[l] == b@[l],
        decreases alen - i,
    {
        if a.get_char(i) != b.get_char(i) {
            return false;
        }
        i += 1;
    }
    proof {
        assert(a@ =~= b@);
    }
    true
}

/// Map a requested page name to its template, or to the not-found error
/// page. `about` and `index` resolve to the index page; `badges`,
/// `metadata`, `redirections` and `download` resolve to their like-named
/// templates; everything else yields the error page with the fixed title, a
/// hint toward contributing the page, and a not-found status.
pub fn resolve_about_page(name: &str) -> (r: Result<AboutPage, ErrorPage>)
    ensures
        r is Ok <==> about_resolution(name@) is Some,
        r matches Ok(p) ==> about_resolution(name@) == Some((p.active_tab@, p.template@)),
        r matches Err(e) ==> e.title@ == "the requested page does not exist"@ && e.message@
            == "This /about page does not exist. Perhaps you are interested in <a href=\"https://github.com/rust-lang/docs.rs/tree/master/templates/core/about\">creating</a> it?"@
            && e.status == SiteError::NotFound,
{
    if str_eq(name, "about") || str_eq(name, "index") {
        Ok(AboutPage { template: "core/about/index.html".to_owned(), active_tab: "index".to_owned() })
    } else if str_eq(name, "badges") {
        Ok(
            AboutPage {
                template: "core/about/badges.html".to_owned(),
                active_tab: "badges".to_owned(),
            },
        )
    } else if str_eq(name, "metadata") {
        Ok(
            AboutPage {
                template: "core/about/metadata.html".to_owned(),
                active_tab: "metadata".to_owned(),
            },
        )
    } else if str_eq(name, "redirections") {
        Ok(
            AboutPage {
                template: "core/about/redirections.html".to_owned(),
                active_tab: "redirections".to_owned(),
            },
        )
    } else if str_eq(name, "download") {
        Ok(
            AboutPage {
                template: "core/about/download.html".to_owned(),
                active_tab: "download".to_owned(),
            },
        )
    } else {
        Err(
            ErrorPage {
                title: "the requested page does not exist".to_owned(),
                message: "This /about page does not exist. Perhaps you are interested in <a href=\"https://github.com/rust-lang/docs.rs/tree/master/templates/core/about\">creating</a> it?".to_owned(),
                status: SiteError::NotFound,
            },
        )
    }
}

/// `about` and `index` are aliases: both names resolve, and to the same
/// (tab, template) pair.
pub proof fn lemma_about_aliases_index()
    ensures
        about_resolution("about"@) is Some,
        about_resolution("about"@) == about_resolution("index"@),
{
}

/// The about-builds page content: the compiler version the site currently
/// builds with, as the configuration store reports it, and the tab to
/// highlight. The build-limit table belongs to the rendering collaborator.
#[derive(Debug, Clone)]
pub struct AboutBuilds {
    pub rustc_version: Option<String>,
    pub active_tab: String,
}

/// Assemble the about-builds page from the configuration value the caller
/// fetched; the lookup itself is the configuration store's work.
pub fn about_builds(rustc_version: Option<String>) -> (r: AboutBuilds)
    ensures
        r.rustc_version == rustc_version,
        r.active_tab@ == "builds"@,
{
    AboutBuilds { rustc_version, active_tab: "builds".to_owned() }
}

} // verus!
