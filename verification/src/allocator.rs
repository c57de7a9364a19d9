//! Identifier allocation: decides, for a creation request, whether an
//! existing link is reused, a new link is created, or the request is
//! rejected because the identifier is taken.

use vstd::prelude::*;

use crate::model::{
    has_link_id, has_link_url, first_url_match, ids_unique, is_first_url_match, link_for,
    lemma_first_url_match_unique, lemma_link_for, store_wf, LinkModel,
};

verus! {

/// A successful creation request: either an existing link already satisfied
/// it, or a new link was just persisted.
#[derive(Debug, Clone, PartialEq, Eq)]
pub enum AllocationResult {
    /// An existing link already maps this identifier to this URL; nothing
    /// was written.
    Reused(String),
    /// A new link was persisted under this identifier.
    Created(String),
}

/// A failed creation request.
#[derive(Debug, Clone, PartialEq, Eq)]
pub enum AllocError {
    /// The identifier is already bound to a different destination URL.
    IdentifierTaken(String),
    /// The codec could not produce an identifier for the drawn sequence
    /// index: the blocklist rejected every candidate.
    EncodingFailed,
}

/// The outcome of an allocation, as the contracts see it.
#[verifier::ext_equal]
pub enum AllocOutcome {
    /// An existing link was reused.
    Reused(Seq<char>),
    /// A new link was created.
    Created(Seq<char>),
    /// The identifier was already bound to a different URL.
    Taken(Seq<char>),
    /// No identifier could be encoded for the drawn sequence index.
    NoEncoding,
}

/// An allocation result, as the contracts see it.
pub open spec fn outcome_model(r: Result<AllocationResult, AllocError>) -> AllocOutcome {
    match r {
        Ok(AllocationResult::Reused(s)) => AllocOutcome::Reused(s@),
        Ok(AllocationResult::Created(s)) => AllocOutcome::Created(s@),
        Err(AllocError::IdentifierTaken(s)) => AllocOutcome::Taken(s@),
        Err(AllocError::EncodingFailed) => AllocOutcome::NoEncoding,
    }
}

/// The store after an allocation, with its outcome.
#[verifier::ext_equal]
pub struct AllocStep {
    /// The stored links afterwards.
    pub links: Seq<LinkModel>,
    /// The sequence counter afterwards.
    pub next: int,
    /// What the caller is told.
    pub outcome: AllocOutcome,
}

/// What allocating does, for every request.
///
/// An empty `req` asks for an auto-generated identifier: a link with the
/// same destination URL is reused (the first one stored); otherwise a
/// sequence index is drawn — and stays consumed whatever follows — and
/// encoded. A non-empty `req` asks for that custom identifier: reused when
/// it is already bound to the same URL, rejected when bound to a different
/// one, created otherwise.
pub open spec fn alloc_spec(
    links: Seq<LinkModel>,
    next: int,
    alphabet: Seq<char>,
    blocklist: Set<Seq<char>>,
    req: Seq<char>,
    url: Seq<char>,
) -> AllocStep {
    if req.len() == 0 {
        if has_link_url(links, url) {
            AllocStep {
                links: links,
                next: next,
                outcome: AllocOutcome::Reused(links[first_url_match(links, url)].id),
            }
        } else {
            match crate::codec::sqids_id_of(alphabet, blocklist, next as u64) {
                Some(id) => if has_link_id(links, id) {
                    AllocStep { links: links, next: next + 1, outcome: AllocOutcome::Taken(id) }
                } else {
                    AllocStep {
                        links: links.push(
                            LinkModel { index: next, id: id, url: url, custom: false },
                        ),
                        next: next + 1,
                        outcome: AllocOutcome::Created(id),
                    }
                },
                None => AllocStep {
                    links: links,
                    next: next + 1,
                    outcome: AllocOutcome::NoEncoding,
                },
            }
        }
    } else {
        if has_link_id(links, req) {
            if link_for(links, req).url == url {
                AllocStep { links: links, next: next, outcome: AllocOutcome::Reused(req) }
            } else {
                AllocStep { links: links, next: next, outcome: AllocOutcome::Taken(req) }
            }
        } else {
            AllocStep {
                links: links.push(LinkModel { index: next, id: req, url: url, custom: true }),
                next: next + 1,
                outcome: AllocOutcome::Created(req),
            }
        }
    }
}

/// Allocation preserves the store's invariant.
pub proof fn lemma_alloc_wf(
    links: Seq<LinkModel>,
    next: int,
    alphabet: Seq<char>,
    blocklist: Set<Seq<char>>,
    req: Seq<char>,
    url: Seq<char>,
)
    requires
        store_wf(links, next),
        next < u64::MAX,
    ensures
        ({
            let s = alloc_spec(links, next, alphabet, blocklist, req, url);
            store_wf(s.links, s.next)
        }),
{
    let s = alloc_spec(links, next, alphabet, blocklist, req, url);
    if s.links.len() == links.len() + 1 {
        let new = s.links.last();
        assert(!has_link_id(links, new.id));
        assert forall|i: int, j: int| 0 <= i < j < s.links.len() implies (#[trigger] s.links[i]).id
            != (#[trigger] s.links[j]).id by {
            if j < links.len() {
                assert(links[i].id != links[j].id);
            } else {
                assert(s.links[j] == new);
                if s.links[i].id == new.id {
                    assert(0 <= i < links.len() && links[i].id == new.id);
                }
            }
        }
        assert forall|i: int, j: int| 0 <= i < j < s.links.len() implies (#[trigger] s.links[i]).index
            < (#[trigger] s.links[j]).index by {
            if j == links.len() {
                assert(links[i].index < next);
            }
        }
    }
}

/// Law: dedup idempotence. When an auto-generate request for `url` creates
/// a link, it creates exactly one, and an identical request submitted next
/// reuses that link's identifier and writes nothing.
pub proof fn lemma_dedup_idempotent(
    links: Seq<LinkModel>,
    next: int,
    alphabet: Seq<char>,
    blocklist: Set<Seq<char>>,
    url: Seq<char>,
    id: Seq<char>,
)
    requires
        store_wf(links, next),
        next < u64::MAX,
        alloc_spec(links, next, alphabet, blocklist, Seq::empty(), url).outcome
            == AllocOutcome::Created(id),
    ensures
        ({
            let s1 = alloc_spec(links, next, alphabet, blocklist, Seq::empty(), url);
            let s2 = alloc_spec(s1.links, s1.next, alphabet, blocklist, Seq::empty(), url);
            &&& s1.links.len() == links.len() + 1
            &&& s2.outcome == AllocOutcome::Reused(id)
            &&& s2.links == s1.links
            &&& s2.next == s1.next
        }),
{
    let s1 = alloc_spec(links, next, alphabet, blocklist, Seq::empty(), url);
    let new = LinkModel { index: next, id: id, url: url, custom: false };
    assert(s1.links == links.push(new));
    assert(s1.links[links.len() as int] == new);
    assert(has_link_url(s1.links, url));
    assert forall|j: int| 0 <= j < links.len() implies (#[trigger] s1.links[j]).url != url by {
        assert(s1.links[j] == links[j]);
        if links[j].url == url {
            assert(has_link_url(links, url));
        }
    }
    assert(is_first_url_match(s1.links, url, links.len() as int));
    lemma_first_url_match_unique(s1.links, url, links.len() as int);
}

/// Law: custom idempotence. A custom request that creates a link creates
/// exactly one, and the same request submitted next is answered `Reused`
/// with nothing written.
pub proof fn lemma_custom_idempotent(
    links: Seq<LinkModel>,
    next: int,
    alphabet: Seq<char>,
    blocklist: Set<Seq<char>>,
    id: Seq<char>,
    url: Seq<char>,
)
    requires
        store_wf(links, next),
        next < u64::MAX,
        id.len() > 0,
        !has_link_id(links, id),
    ensures
        ({
            let s1 = alloc_spec(links, next, alphabet, blocklist, id, url);
            let s2 = alloc_spec(s1.links, s1.next, alphabet, blocklist, id, url);
            &&& s1.outcome == AllocOutcome::Created(id)
            &&& s1.links.len() == links.len() + 1
            &&& s2.outcome == AllocOutcome::Reused(id)
            &&& s2.links == s1.links
            &&& s2.next == s1.next
        }),
{
    let s1 = alloc_spec(links, next, alphabet, blocklist, id, url);
    let new = LinkModel { index: next, id: id, url: url, custom: true };
    assert(s1.links == links.push(new));
    assert(s1.links[links.len() as int] == new);
    lemma_alloc_wf(links, next, alphabet, blocklist, id, url);
    lemma_link_for(s1.links, id, links.len() as int);
}

/// Law: conflict. After a custom identifier is bound to one URL, a request
/// binding it to a different URL is rejected as taken, and the stored link
/// still points to the first URL.
pub proof fn lemma_custom_conflict(
    links: Seq<LinkModel>,
    next: int,
    alphabet: Seq<char>,
    blocklist: Set<Seq<char>>,
    id: Seq<char>,
    url1: Seq<char>,
    url2: Seq<char>,
)
    requires
        store_wf(links, next),
        next < u64::MAX,
        id.len() > 0,
        url1 != url2,
        !has_link_id(links, id),
    ensures
        ({
            let s1 = alloc_spec(links, next, alphabet, blocklist, id, url1);
            let s2 = alloc_spec(s1.links, s1.next, alphabet, blocklist, id, url2);
            &&& s1.outcome == AllocOutcome::Created(id)
            &&& s2.outcome == AllocOutcome::Taken(id)
            &&& s2.links == s1.links
            &&& s2.next == s1.next
            &&& link_for(s2.links, id).url == url1
        }),
{
    let s1 = alloc_spec(links, next, alphabet, blocklist, id, url1);
    let new = LinkModel { index: next, id: id, url: url1, custom: true };
    assert(s1.links == links.push(new));
    assert(s1.links[links.len() as int] == new);
    lemma_alloc_wf(links, next, alphabet, blocklist, id, url1);
    lemma_link_for(s1.links, id, links.len() as int);
}

/// What a custom-identifier request does, judged from the link already
/// stored under that identifier.
#[derive(Debug, Clone, Copy, PartialEq, Eq)]
pub enum CustomDecision {
    /// The identifier is already bound to this URL: idempotent re-submission.
    ReuseExisting,
    /// The identifier is bound to a different URL: reject as taken.
    Conflict,
    /// The identifier is free: persist a new link.
    CreateNew,
}

/// The decision for a custom request, given the stored URL, if any.
pub open spec fn custom_decision_spec(url: Seq<char>, existing: Option<Seq<char>>) -> CustomDecision {
    match existing {
        None => CustomDecision::CreateNew,
        Some(u) => if u == url {
            CustomDecision::ReuseExisting
        } else {
            CustomDecision::Conflict
        },
    }
}

/// Judges a custom-identifier request against the URL already stored under
/// that identifier, if any. Embeddings that keep their links elsewhere call
/// this on the result of their own lookup.
pub fn decide_custom(url: &String, existing_url: Option<&String>) -> (d: CustomDecision)
    ensures
        d == custom_decision_spec(
            url@,
            (match existing_url {
                Some(u) => Some(u@),
                None => None,
            }),
        ),
{
    match existing_url {
        None => CustomDecision::CreateNew,
        Some(u) => {
            if *u == *url {
                CustomDecision::ReuseExisting
            } else {
                CustomDecision::Conflict
            }
        },
    }
}

} // verus!
