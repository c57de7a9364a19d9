//! The link store: the persistent mapping from identifiers to destination
//! URLs, the append-only visit log, and the shared sequence counter.
//!
//! The store is the engine's reference backend: `allocate` and `resolve`
//! are driven against it, and the laws of the crate are stated over its
//! model. An embedding that keeps its links elsewhere performs the lookups
//! itself and feeds their results to the decision functions of
//! [`crate::allocator`] and [`crate::resolver`].

use vstd::prelude::*;

use crate::allocator::{
    alloc_spec, lemma_alloc_wf, outcome_model, AllocError, AllocationResult,
};
use crate::codec::Codec;
use crate::model::{
    has_link_id, has_link_url, is_first_url_match, lemma_first_url_match_unique, lemma_link_for,
    link_for, store_wf, visits_with_id, LinkModel, VisitModel,
};
use crate::resolver::{
    resolve_fetched, resolve_outcome_model, resolve_spec, resolve_visits_spec, strip_preview,
    ResolveOutcome,
};

verus! {

/// A stored link: one identifier bound to one destination URL, never
/// mutated and never deleted.
pub struct Link {
    /// The sequence index the store assigned on creation.
    pub sequence_index: u64,
    /// The short identifier; unique across the store.
    pub id: String,
    /// The destination URL, kept exactly as the creator supplied it.
    pub url: String,
    /// Whether the identifier was supplied by the caller.
    pub is_custom: bool,
}

impl Link {
    /// The link as the contracts see it.
    pub open spec fn model(&self) -> LinkModel {
        LinkModel {
            index: self.sequence_index as int,
            id: self.id@,
            url: self.url@,
            custom: self.is_custom,
        }
    }
}

impl Clone for Link {
    fn clone(&self) -> (r: Self)
        ensures
            r.model() == self.model(),
    {
        Link {
            sequence_index: self.sequence_index,
            id: self.id.clone(),
            url: self.url.clone(),
            is_custom: self.is_custom,
        }
    }
}

/// One logged access to an identifier, with optional client metadata.
pub struct VisitRecord {
    /// When the visit was recorded.
    pub timestamp: u64,
    /// The identifier that was resolved.
    pub id: String,
    /// Client IP, when known.
    pub ip: Option<String>,
    /// Referrer header, when present.
    pub referrer: Option<String>,
    /// User agent header, when present.
    pub user_agent: Option<String>,
}

/// An optional string, as the contracts see it.
pub open spec fn opt_model(o: Option<String>) -> Option<Seq<char>> {
    match o {
        Some(s) => Some(s@),
        None => None,
    }
}

/// Clones an optional string.
fn clone_opt(o: &Option<String>) -> (r: Option<String>)
    ensures
        opt_model(r) == opt_model(*o),
{
    match o {
        Some(s) => Some(s.clone()),
        None => None,
    }
}

impl VisitRecord {
    /// The visit as the contracts see it.
    pub open spec fn model(&self) -> VisitModel {
        VisitModel {
            timestamp: self.timestamp as int,
            id: self.id@,
            ip: opt_model(self.ip),
            referrer: opt_model(self.referrer),
            user_agent: opt_model(self.user_agent),
        }
    }
}

impl Clone for VisitRecord {
    fn clone(&self) -> (r: Self)
        ensures
            r.model() == self.model(),
    {
        VisitRecord {
            timestamp: self.timestamp,
            id: self.id.clone(),
            ip: clone_opt(&self.ip),
            referrer: clone_opt(&self.referrer),
            user_agent: clone_opt(&self.user_agent),
        }
    }
}

/// What a resolution knows about the client, for the visit log.
pub struct ClientContext {
    /// Client IP, when known.
    pub ip: Option<String>,
    /// Referrer header, when present.
    pub referrer: Option<String>,
    /// User agent header, when present.
    pub user_agent: Option<String>,
}

/// The visit that recording `id` under this context at `now` appends.
pub open spec fn visit_model(id: Seq<char>, ctx: ClientContext, now: u64) -> VisitModel {
    VisitModel {
        timestamp: now as int,
        id: id,
        ip: opt_model(ctx.ip),
        referrer: opt_model(ctx.referrer),
        user_agent: opt_model(ctx.user_agent),
    }
}

/// The links as the contracts see them.
pub open spec fn links_model(links: Seq<Link>) -> Seq<LinkModel> {
    links.map_values(|l: Link| l.model())
}

/// The visit log as the contracts see it.
pub open spec fn visits_model(vs: Seq<VisitRecord>) -> Seq<VisitModel> {
    vs.map_values(|v: VisitRecord| v.model())
}

/// The reference store: links, the visit log, and the sequence counter.
pub struct LinkStore {
    links: Vec<Link>,
    visits: Vec<VisitRecord>,
    next_index: u64,
}

impl LinkStore {
    /// The stored links, in creation order.
    pub closed spec fn links_m(&self) -> Seq<LinkModel> {
        links_model(self.links@)
    }

    /// The recorded visits, in order.
    pub closed spec fn visits_m(&self) -> Seq<VisitModel> {
        visits_model(self.visits@)
    }

    /// The next value of the sequence counter.
    pub closed spec fn next_m(&self) -> int {
        self.next_index as int
    }

    /// The store's invariant.
    pub open spec fn wf(&self) -> bool {
        store_wf(self.links_m(), self.next_m())
    }

    /// An empty store; the sequence counter starts at one.
    pub fn new() -> (s: Self)
        ensures
            s.wf(),
            s.links_m() == Seq::<LinkModel>::empty(),
            s.visits_m() == Seq::<VisitModel>::empty(),
            s.next_m() == 1,
    {
        let s = LinkStore { links: Vec::new(), visits: Vec::new(), next_index: 1 };
        proof {
            assert(s.links_m() =~= Seq::<LinkModel>::empty());
            assert(s.visits_m() =~= Seq::<VisitModel>::empty());
        }
        s
    }

    /// How many links are stored.
    pub fn link_count(&self) -> (n: usize)
        ensures
            n == self.links_m().len(),
    {
        self.links.len()
    }

    /// How many visits are recorded, over all identifiers.
    pub fn visit_count(&self) -> (n: usize)
        ensures
            n == self.visits_m().len(),
    {
        self.visits.len()
    }

    /// Looks an identifier up; exact string match.
    pub fn lookup_id(&self, id: &String) -> (r: Option<Link>)
        ensures
            match r {
                Some(l) => has_link_id(self.links_m(), id@) && l.model().id == id@ && exists|
                    i: int,
                |
                    0 <= i < self.links_m().len() && self.links_m()[i] == l.model(),
                None => !has_link_id(self.links_m(), id@),
            },
    {
        let n = self.links.len();
        let mut i: usize = 0;
        while i < n
            invariant
                i <= n,
                n == self.links_m().len(),
                n == self.links@.len(),
                forall|k: int| 0 <= k < i ==> (#[trigger] self.links_m()[k]).id != id@,
            decreases n - i,
        {
            if self.links[i].id == *id {
                let l = self.links[i].clone();
                proof {
                    assert(self.links_m()[i as int] == self.links@[i as int].model());
                }
                return Some(l);
            }
            i = i + 1;
        }
        None
    }

    /// Looks a destination URL up; exact string match, first stored link wins.
    pub fn lookup_url(&self, url: &String) -> (r: Option<Link>)
        ensures
            match r {
                Some(l) => exists|i: int|
                    is_first_url_match(self.links_m(), url@, i) && #[trigger] self.links_m()[i]
                        == l.model(),
                None => !has_link_url(self.links_m(), url@),
            },
    {
        let n = self.links.len();
        let mut i: usize = 0;
        while i < n
            invariant
                i <= n,
                n == self.links_m().len(),
                n == self.links@.len(),
                forall|k: int| 0 <= k < i ==> (#[trigger] self.links_m()[k]).url != url@,
            decreases n - i,
        {
            if self.links[i].url == *url {
                let l = self.links[i].clone();
                proof {
                    assert(self.links_m()[i as int] == self.links@[i as int].model());
                    assert(is_first_url_match(self.links_m(), url@, i as int));
                }
                return Some(l);
            }
            i = i + 1;
        }
        None
    }

    /// Draws the next sequence index from the shared counter: a single
    /// atomic allocation, never handed out twice. A drawn index that no
    /// link ends up using stays unused — gaps are acceptable.
    pub fn next_sequence_index(&mut self) -> (n: u64)
        requires
            old(self).next_m() < u64::MAX,
        ensures
            n as int == old(self).next_m(),
            final(self).next_m() == old(self).next_m() + 1,
            final(self).links_m() == old(self).links_m(),
            final(self).visits_m() == old(self).visits_m(),
    {
        let n = self.next_index;
        self.next_index = self.next_index + 1;
        n
    }

    /// Appends one visit for `id` to the log, stamped with the caller's
    /// clock reading `now`. Recording is best-effort for callers: the
    /// reference store itself cannot fail.
    pub fn record_visit(&mut self, id: &String, ctx: &ClientContext, now: u64)
        ensures
            final(self).links_m() == old(self).links_m(),
            final(self).next_m() == old(self).next_m(),
            final(self).visits_m() == old(self).visits_m().push(visit_model(id@, *ctx, now)),
    {
        let rec = VisitRecord {
            timestamp: now,
            id: id.clone(),
            ip: clone_opt(&ctx.ip),
            referrer: clone_opt(&ctx.referrer),
            user_agent: clone_opt(&ctx.user_agent),
        };
        proof {
            assert(rec.model() == visit_model(id@, *ctx, now));
            assert(visits_model(self.visits@.push(rec)) =~= self.visits_m().push(rec.model()));
        }
        self.visits.push(rec);
    }

    /// The visits recorded for one identifier, in order.
    pub fn visits_for(&self, id: &String) -> (r: Vec<VisitRecord>)
        ensures
            visits_model(r@) == visits_with_id(self.visits_m(), id@),
    {
        let n = self.visits.len();
        let mut out: Vec<VisitRecord> = Vec::new();
        proof {
            assert(visits_model(out@) =~= Seq::<VisitModel>::empty());
            assert(self.visits_m().take(0) =~= Seq::<VisitModel>::empty());
        }
        let mut i: usize = 0;
        while i < n
            invariant
                i <= n,
                n == self.visits@.len(),
                n == self.visits_m().len(),
                visits_model(out@) == visits_with_id(self.visits_m().take(i as int), id@),
            decreases n - i,
        {
            proof {
                assert(self.visits_m().take(i + 1) =~= self.visits_m().take(i as int).push(
                    self.visits_m()[i as int],
                ));
                crate::model::lemma_visits_with_id_push(
                    self.visits_m().take(i as int),
                    id@,
                    self.visits_m()[i as int],
                );
                assert(self.visits_m()[i as int] == self.visits@[i as int].model());
            }
            if self.visits[i].id == *id {
                let v = self.visits[i].clone();
                proof {
                    let ghost prev = visits_model(out@);
                    assert(visits_model(out@.push(v)) =~= prev.push(v.model()));
                }
                out.push(v);
            }
            i = i + 1;
        }
        proof {
            assert(self.visits_m().take(n as int) =~= self.visits_m());
        }
        out
    }

    /// Serves a creation request: reuses a link that already satisfies it,
    /// persists a new one under a custom or freshly encoded identifier, or
    /// rejects the request.
    ///
    /// An empty `requested_id` asks for an auto-generated identifier. A
    /// drawn sequence index that ends up unused — the encoded identifier
    /// was taken, or encoding failed — stays consumed: gaps in the sequence
    /// are acceptable.
    pub fn allocate(
        &mut self,
        codec: &Codec,
        requested_id: &String,
        url: &String,
    ) -> (r: Result<AllocationResult, AllocError>)
        requires
            old(self).wf(),
            codec.wf(),
            old(self).next_m() < u64::MAX,
        ensures
            final(self).wf(),
            final(self).visits_m() == old(self).visits_m(),
            ({
                let step = alloc_spec(
                    old(self).links_m(),
                    old(self).next_m(),
                    codec.alphabet_m(),
                    codec.blocklist_m(),
                    requested_id@,
                    url@,
                );
                &&& final(self).links_m() == step.links
                &&& final(self).next_m() == step.next
                &&& outcome_model(r) == step.outcome
            }),
    {
        proof {
            lemma_alloc_wf(
                self.links_m(),
                self.next_m(),
                codec.alphabet_m(),
                codec.blocklist_m(),
                requested_id@,
                url@,
            );
        }
        if requested_id.as_str().is_empty() {
            match self.lookup_url(url) {
                Some(l) => {
                    proof {
                        let i = choose|i: int|
                            is_first_url_match(self.links_m(), url@, i) && #[trigger] self.links_m()[i]
                                == l.model();
                        lemma_first_url_match_unique(self.links_m(), url@, i);
                    }
                    Ok(AllocationResult::Reused(l.id))
                },
                None => {
                    let n = self.next_sequence_index();
                    match codec.encode(n) {
                        Some(id) => {
                            if self.lookup_id(&id).is_some() {
                                Err(AllocError::IdentifierTaken(id))
                            } else {
                                let link = Link {
                                    sequence_index: n,
                                    id: id.clone(),
                                    url: url.clone(),
                                    is_custom: false,
                                };
                                proof {
                                    assert(links_model(self.links@.push(link))
                                        =~= self.links_m().push(link.model()));
                                }
                                self.links.push(link);
                                Ok(AllocationResult::Created(id))
                            }
                        },
                        None => Err(AllocError::EncodingFailed),
                    }
                },
            }
        } else {
            match self.lookup_id(requested_id) {
                Some(l) => {
                    proof {
                        let i = choose|i: int|
                            0 <= i < self.links_m().len() && #[trigger] self.links_m()[i]
                                == l.model();
                        lemma_link_for(self.links_m(), requested_id@, i);
                    }
                    if l.url == *url {
                        Ok(AllocationResult::Reused(requested_id.clone()))
                    } else {
                        Err(AllocError::IdentifierTaken(requested_id.clone()))
                    }
                },
                None => {
                    let n = self.next_sequence_index();
                    let link = Link {
                        sequence_index: n,
                        id: requested_id.clone(),
                        url: url.clone(),
                        is_custom: true,
                    };
                    proof {
                        assert(links_model(self.links@.push(link)) =~= self.links_m().push(
                            link.model(),
                        ));
                    }
                    self.links.push(link);
                    Ok(AllocationResult::Created(requested_id.clone()))
                },
            }
        }
    }

    /// Resolves an incoming identifier. A trailing preview marker answers
    /// with the mapping and records nothing; a real resolution records
    /// exactly one visit, stamped with the caller's clock reading `now`,
    /// and answers with a redirect. Recording cannot fail in the reference
    /// store; an embedding whose log lives elsewhere must still never let
    /// a recording failure change the answer.
    pub fn resolve(&mut self, raw: &String, ctx: &ClientContext, now: u64) -> (r: ResolveOutcome)
        requires
            old(self).wf(),
        ensures
            final(self).wf(),
            final(self).links_m() == old(self).links_m(),
            final(self).next_m() == old(self).next_m(),
            resolve_outcome_model(r) == resolve_spec(old(self).links_m(), raw@),
            final(self).visits_m() == resolve_visits_spec(
                old(self).links_m(),
                old(self).visits_m(),
                raw@,
                *ctx,
                now,
            ),
    {
        let (id, preview) = strip_preview(raw);
        let found = self.lookup_id(&id);
        proof {
            if let Some(l) = &found {
                let i = choose|i: int|
                    0 <= i < self.links_m().len() && #[trigger] self.links_m()[i] == l.model();
                lemma_link_for(self.links_m(), id@, i);
            }
        }
        let r = resolve_fetched(found, preview);
        match &r {
            ResolveOutcome::Redirect(_) => {
                self.record_visit(&id, ctx, now);
            },
            _ => {},
        }
        r
    }
}

} // verus!
