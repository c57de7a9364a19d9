//! Resolution: an incoming identifier, optionally carrying the preview
//! marker, is looked up and answered with a redirect, a preview of the
//! mapping, or not-found.

use vstd::prelude::*;
use vstd::string::StrSliceExecFns;

use crate::model::{has_link_id, link_for, LinkModel, VisitModel};
use crate::store::{visit_model, ClientContext, Link};

verus! {

/// How long a client may cache a redirect, in seconds: short and fixed, so
/// corrections propagate quickly while still allowing client caching.
pub const REDIRECT_CACHE_SECONDS: u64 = 90;

/// The reserved preview marker: an identifier ending in it asks for a
/// preview of the mapping instead of a redirect.
pub const PREVIEW_MARKER: char = '+';

/// The answer to a resolution request.
#[derive(Debug, Clone, PartialEq, Eq)]
pub enum ResolveOutcome {
    /// Redirect the client to this destination URL, cacheable for
    /// [`REDIRECT_CACHE_SECONDS`]; a visit is recorded.
    Redirect(String),
    /// Show the mapping (identifier, destination URL) without redirecting;
    /// no visit is recorded.
    Preview(String, String),
    /// The identifier is unknown, or its stored URL does not parse.
    NotFound,
}

/// A resolution answer, as the contracts see it.
#[verifier::ext_equal]
pub enum ResolveModel {
    /// Redirect to this URL.
    Redirect(Seq<char>),
    /// Preview of (identifier, URL).
    Preview(Seq<char>, Seq<char>),
    /// Unknown or unusable identifier.
    NotFound,
}

/// Maps the executable answer to its model.
pub open spec fn resolve_outcome_model(r: ResolveOutcome) -> ResolveModel {
    match r {
        ResolveOutcome::Redirect(u) => ResolveModel::Redirect(u@),
        ResolveOutcome::Preview(id, u) => ResolveModel::Preview(id@, u@),
        ResolveOutcome::NotFound => ResolveModel::NotFound,
    }
}

/// Whether a string parses as a well-formed absolute URL.
pub uninterp spec fn url_ok(s: Seq<char>) -> bool;

/// Relies on `url::Url::parse`: whether a string parses as an absolute URL
/// depends on the string alone.
#[verifier::external_body]
fn destination_ok(s: &String) -> (r: bool)
    ensures
        r == url_ok(s@),
{
    url::Url::parse(s.as_str()).is_ok()
}

/// The identifier with the preview marker split off: a trailing marker
/// requests preview mode and is not part of the identifier.
pub open spec fn strip_preview_spec(raw: Seq<char>) -> (Seq<char>, bool) {
    if raw.len() > 0 && raw.last() == PREVIEW_MARKER {
        (raw.drop_last(), true)
    } else {
        (raw, false)
    }
}

/// Splits the preview marker off an incoming identifier.
pub fn strip_preview(raw: &String) -> (r: (String, bool))
    ensures
        (r.0@, r.1) == strip_preview_spec(raw@),
{
    let n = raw.as_str().unicode_len();
    if n > 0 && raw.as_str().get_char(n - 1) == PREVIEW_MARKER {
        let stripped = raw.as_str().substring_char(0, n - 1).to_owned();
        proof {
            assert(raw@.drop_last() =~= raw@.subrange(0, n - 1));
        }
        (stripped, true)
    } else {
        (raw.clone(), false)
    }
}

/// The answer for a fetched link: a missing link and a link whose stored
/// URL does not parse answer alike, and preview mode suppresses the
/// redirect.
pub open spec fn resolve_fetched_spec(found: Option<LinkModel>, preview: bool) -> ResolveModel {
    match found {
        None => ResolveModel::NotFound,
        Some(l) => if !url_ok(l.url) {
            ResolveModel::NotFound
        } else if preview {
            ResolveModel::Preview(l.id, l.url)
        } else {
            ResolveModel::Redirect(l.url)
        },
    }
}

/// Judges a fetched link. The stored URL is validated here, at resolution
/// time: a link whose URL does not parse is answered exactly like a missing
/// one. Embeddings that keep their links elsewhere call this on the result
/// of their own lookup.
pub fn resolve_fetched(found: Option<Link>, preview: bool) -> (r: ResolveOutcome)
    ensures
        resolve_outcome_model(r) == resolve_fetched_spec(
            (match found {
                Some(l) => Some(l.model()),
                None => None,
            }),
            preview,
        ),
{
    match found {
        None => ResolveOutcome::NotFound,
        Some(l) => {
            if !destination_ok(&l.url) {
                ResolveOutcome::NotFound
            } else if preview {
                ResolveOutcome::Preview(l.id, l.url)
            } else {
                ResolveOutcome::Redirect(l.url)
            }
        },
    }
}

/// What resolving `raw` against the stored links answers.
pub open spec fn resolve_spec(links: Seq<LinkModel>, raw: Seq<char>) -> ResolveModel {
    let stripped = strip_preview_spec(raw);
    if has_link_id(links, stripped.0) {
        resolve_fetched_spec(Some(link_for(links, stripped.0)), stripped.1)
    } else {
        resolve_fetched_spec(None, stripped.1)
    }
}

/// What the visit log holds after resolving `raw`: exactly one visit is
/// appended when the answer is a redirect, and none otherwise.
pub open spec fn resolve_visits_spec(
    links: Seq<LinkModel>,
    visits: Seq<VisitModel>,
    raw: Seq<char>,
    ctx: ClientContext,
    now: u64,
) -> Seq<VisitModel> {
    if resolve_spec(links, raw) is Redirect {
        visits.push(visit_model(strip_preview_spec(raw).0, ctx, now))
    } else {
        visits
    }
}

/// The client IP a resolution should record. Behind a reverse proxy the
/// socket peer is the proxy itself, so only the forwarded address counts,
/// absent or not; otherwise the socket peer is the client.
pub fn client_ip(behind_proxy: bool, forwarded: Option<String>, socket: Option<String>) -> (r:
    Option<String>)
    ensures
        r == if behind_proxy {
            forwarded
        } else {
            socket
        },
{
    if behind_proxy {
        forwarded
    } else {
        socket
    }
}

/// Law: preview mode never records a visit. Resolving an identifier that
/// carries the preview marker leaves the visit log unchanged.
pub proof fn lemma_preview_no_visit(
    links: Seq<LinkModel>,
    visits: Seq<VisitModel>,
    raw: Seq<char>,
    ctx: ClientContext,
    now: u64,
)
    requires
        raw.len() > 0,
        raw.last() == PREVIEW_MARKER,
    ensures
        resolve_visits_spec(links, visits, raw, ctx, now) == visits,
{
}

/// Law: a resolution that redirects records exactly one visit, for the
/// stripped identifier, with the client context it was given.
pub proof fn lemma_redirect_one_visit(
    links: Seq<LinkModel>,
    visits: Seq<VisitModel>,
    raw: Seq<char>,
    ctx: ClientContext,
    now: u64,
)
    requires
        resolve_spec(links, raw) is Redirect,
    ensures
        resolve_visits_spec(links, visits, raw, ctx, now) == visits.push(
            visit_model(strip_preview_spec(raw).0, ctx, now),
        ),
        resolve_visits_spec(links, visits, raw, ctx, now).len() == visits.len() + 1,
{
}

/// Law: a link whose stored URL does not parse resolves exactly like a
/// missing identifier, to `NotFound` — not to an error.
pub proof fn lemma_malformed_resolves_not_found(links: Seq<LinkModel>, raw: Seq<char>)
    requires
        ({
            let id = strip_preview_spec(raw).0;
            has_link_id(links, id) && !url_ok(link_for(links, id).url)
        }),
    ensures
        resolve_spec(links, raw) == ResolveModel::NotFound,
{
}

/// Law: a missing identifier resolves to `NotFound`.
pub proof fn lemma_missing_resolves_not_found(links: Seq<LinkModel>, raw: Seq<char>)
    requires
        !has_link_id(links, strip_preview_spec(raw).0),
    ensures
        resolve_spec(links, raw) == ResolveModel::NotFound,
{
}

} // verus!
