//! The operations behind the HTTP routes, on plain values: what each route
//! answers, given the registry and the request's payload.

use crate::registry::{
    allocates, is_first_free, none_free, url_of, Pair, ShortenError, UrlRegistry,
};
use vstd::prelude::*;
use vstd::string::StringExecFns;

verus! {

/// The payload of a request to shorten a URL.
#[derive(Debug)]
pub struct UrlRequest {
    pub long_url: String,
}

/// One mapping as the routes report it: the path that redirects, and the
/// long URL it redirects to.
#[derive(Debug)]
pub struct ShortenedUrl {
    pub short_url: String,
    pub long_url: String,
}

impl View for ShortenedUrl {
    type V = Pair;

    open spec fn view(&self) -> Pair {
        (self.short_url@, self.long_url@)
    }
}

/// The text served at the root.
pub open spec fn usage_text() -> Seq<char> {
    "URL Shortener API - POST to /shorten with {\"long_url\": \"your-url\"} to create a short URL"@
}

/// The path under which a code redirects: `/s/` followed by the code.
pub open spec fn short_url_of(code: Seq<char>) -> Seq<char> {
    seq!['/', 's', '/'] + code
}

/// A pair of the registry as the routes report it.
pub open spec fn reported(pair: Pair) -> Pair {
    (short_url_of(pair.0), pair.1)
}

/// The path under which `code` redirects.
pub fn short_url(code: &str) -> (path: String)
    ensures
        path@ == short_url_of(code@),
{
    proof {
        reveal_strlit("/s/");
    }
    let mut path = String::from_str("/s/");
    path.append(code);
    assert(path@ =~= short_url_of(code@));
    path
}

/// The usage text served at the root.
pub fn index() -> (text: &'static str)
    ensures
        text@ == usage_text(),
{
    "URL Shortener API - POST to /shorten with {\"long_url\": \"your-url\"} to create a short URL"
}

/// Allocates a fresh code for the requested URL and reports the new
/// mapping.
///
/// On success the registry has grown by one pair, of a well-formed code that
/// was free and the requested URL; the code resolves to that URL, and the
/// answer reports the pair. On failure the registry is as it was.
pub fn shorten(url_request: UrlRequest, db: &mut UrlRegistry) -> (result: Result<
    ShortenedUrl,
    ShortenError,
>)
    requires
        old(db).wf(),
    ensures
        final(db).wf(),
        final(db).spec_max_draws() == old(db).spec_max_draws(),
        match result {
            Ok(answer) => {
                &&& final(db)@.len() == old(db)@.len() + 1
                &&& allocates(
                    old(db)@,
                    url_request.long_url@,
                    final(db)@.last().0,
                    final(db)@,
                )
                &&& url_of(final(db)@, final(db)@.last().0) == Some(url_request.long_url@)
                &&& answer@ == reported(final(db)@.last())
            },
            Err(e) => e == ShortenError::KeyspaceExhaustion && final(db)@ == old(db)@,
        },
        old(db).spec_max_draws() == 0 ==> result is Err,
        old(db)@.len() == 0 && old(db).spec_max_draws() > 0 ==> result is Ok,
{
    match db.shorten(url_request.long_url.as_str()) {
        Ok(code) => Ok(
            ShortenedUrl { short_url: short_url(code.as_str()), long_url: url_request.long_url },
        ),
        Err(e) => Err(e),
    }
}

/// Answers a request to shorten from given draws, as `shorten` does from
/// its own: the first free candidate among the first `max_draws` is allocated
/// for the requested URL, and the answer reports that pair. Where none of
/// them is free the request fails and the registry is as it was.
pub fn shorten_with_draws(
    url_request: UrlRequest,
    db: &mut UrlRegistry,
    draws: &Vec<String>,
) -> (result: Result<ShortenedUrl, ShortenError>)
    requires
        old(db).wf(),
    ensures
        final(db).wf(),
        final(db).spec_max_draws() == old(db).spec_max_draws(),
        match result {
            Ok(answer) => exists|j: int|
                {
                    &&& is_first_free(old(db)@, draws@, old(db).spec_max_draws() as int, j)
                    &&& allocates(
                        old(db)@,
                        url_request.long_url@,
                        (#[trigger] draws@[j])@,
                        final(db)@,
                    )
                    &&& url_of(final(db)@, draws@[j]@) == Some(url_request.long_url@)
                    &&& answer@ == reported((draws@[j]@, url_request.long_url@))
                },
            Err(e) => {
                &&& e == ShortenError::KeyspaceExhaustion
                &&& final(db)@ == old(db)@
                &&& none_free(old(db)@, draws@, old(db).spec_max_draws() as int)
            },
        },
{
    match db.shorten_with_draws(url_request.long_url.as_str(), draws) {
        Ok(code) => Ok(
            ShortenedUrl { short_url: short_url(code.as_str()), long_url: url_request.long_url },
        ),
        Err(e) => Err(e),
    }
}

/// Where the path of `short_code` redirects to: the long URL it was
/// allocated for, or `None` where it was never allocated.
pub fn redirect(short_code: String, db: &UrlRegistry) -> (target: Option<String>)
    requires
        db.wf(),
    ensures
        match target {
            Some(url) => url_of(db@, short_code@) == Some(url@),
            None => url_of(db@, short_code@) is None,
        },
{
    db.resolve(short_code.as_str())
}

/// Every mapping of the registry, oldest first, as the routes report it.
pub fn list_urls(db: &UrlRegistry) -> (urls: Vec<ShortenedUrl>)
    requires
        db.wf(),
    ensures
        urls@.len() == db@.len(),
        forall|i: int| 0 <= i < urls@.len() ==> (#[trigger] urls@[i])@ == reported(db@[i]),
{
    let entries = db.list_all();
    let mut urls: Vec<ShortenedUrl> = Vec::new();
    let mut i: usize = 0;
    while i < entries.len()
        invariant
            i <= entries@.len(),
            entries@.len() == db@.len(),
            forall|k: int| 0 <= k < entries@.len() ==> (#[trigger] entries@[k])@ == db@[k],
            urls@.len() == i,
            forall|k: int| 0 <= k < i ==> (#[trigger] urls@[k])@ == reported(db@[k]),
        decreases entries@.len() - i,
    {
        let entry = &entries[i];
        urls.push(
            ShortenedUrl {
                short_url: short_url(entry.code.as_str()),
                long_url: entry.long_url.clone(),
            },
        );
        i += 1;
    }
    urls
}

/// The state a service starts from: an empty registry.
pub fn rocket() -> (db: UrlRegistry)
    ensures
        db.wf(),
        db@ == Seq::<Pair>::empty(),
        db.spec_max_draws() == crate::registry::DEFAULT_MAX_DRAWS,
{
    UrlRegistry::new()
}

} // verus!
