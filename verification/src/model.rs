//! Mathematical model of the link store: links and visit records as the
//! contracts see them, and the predicates the engine's specifications share.

use vstd::prelude::*;

verus! {

/// A stored link, as the contracts see it.
#[verifier::ext_equal]
pub struct LinkModel {
    /// The sequence index the store assigned when the link was created.
    pub index: int,
    /// The short identifier.
    pub id: Seq<char>,
    /// The destination URL, as the creator supplied it.
    pub url: Seq<char>,
    /// Whether the identifier was supplied by the caller rather than encoded
    /// from the sequence index.
    pub custom: bool,
}

/// A recorded visit, as the contracts see it.
#[verifier::ext_equal]
pub struct VisitModel {
    /// When the visit was recorded.
    pub timestamp: int,
    /// The identifier that was resolved.
    pub id: Seq<char>,
    /// Client IP, when known.
    pub ip: Option<Seq<char>>,
    /// Referrer header, when present.
    pub referrer: Option<Seq<char>>,
    /// User agent header, when present.
    pub user_agent: Option<Seq<char>>,
}

/// No two stored links share an identifier.
pub open spec fn ids_unique(links: Seq<LinkModel>) -> bool {
    forall|i: int, j: int|
        0 <= i < j < links.len() ==> (#[trigger] links[i]).id != (#[trigger] links[j]).id
}

/// Well-formedness of the stored links against the sequence counter:
/// identifiers are unique, sequence indices strictly increase in creation
/// order, and every assigned index lies below the counter.
pub open spec fn store_wf(links: Seq<LinkModel>, next: int) -> bool {
    &&& ids_unique(links)
    &&& forall|i: int, j: int|
        0 <= i < j < links.len() ==> (#[trigger] links[i]).index < (#[trigger] links[j]).index
    &&& forall|i: int| 0 <= i < links.len() ==> (#[trigger] links[i]).index < next
    &&& 1 <= next <= u64::MAX
}

/// Some stored link carries this identifier.
pub open spec fn has_link_id(links: Seq<LinkModel>, id: Seq<char>) -> bool {
    exists|i: int| 0 <= i < links.len() && (#[trigger] links[i]).id == id
}

/// The stored link carrying this identifier; meaningful under `ids_unique`.
pub open spec fn link_for(links: Seq<LinkModel>, id: Seq<char>) -> LinkModel {
    links[choose|i: int| 0 <= i < links.len() && (#[trigger] links[i]).id == id]
}

/// With unique identifiers, any position holding `id` is the one `link_for`
/// speaks of.
pub proof fn lemma_link_for(links: Seq<LinkModel>, id: Seq<char>, i: int)
    requires
        ids_unique(links),
        0 <= i < links.len(),
        links[i].id == id,
    ensures
        link_for(links, id) == links[i],
        has_link_id(links, id),
{
    assert(has_link_id(links, id));
    let k = choose|k: int| 0 <= k < links.len() && (#[trigger] links[k]).id == id;
    if k < i {
        assert(links[k].id != links[i].id);
    } else if i < k {
        assert(links[i].id != links[k].id);
    }
}

/// Some stored link carries this destination URL.
pub open spec fn has_link_url(links: Seq<LinkModel>, url: Seq<char>) -> bool {
    exists|i: int| 0 <= i < links.len() && (#[trigger] links[i]).url == url
}

/// Position `i` holds the first stored link with this destination URL.
pub open spec fn is_first_url_match(links: Seq<LinkModel>, url: Seq<char>, i: int) -> bool {
    &&& 0 <= i < links.len()
    &&& links[i].url == url
    &&& forall|j: int| 0 <= j < i ==> (#[trigger] links[j]).url != url
}

/// The position of the first stored link with this destination URL;
/// meaningful under `has_link_url`.
pub open spec fn first_url_match(links: Seq<LinkModel>, url: Seq<char>) -> int {
    choose|i: int| is_first_url_match(links, url, i)
}

proof fn lemma_first_below(links: Seq<LinkModel>, url: Seq<char>, w: int)
    requires
        0 <= w < links.len(),
        links[w].url == url,
    ensures
        exists|i: int| is_first_url_match(links, url, i),
    decreases w,
{
    if forall|j: int| 0 <= j < w ==> (#[trigger] links[j]).url != url {
        assert(is_first_url_match(links, url, w));
    } else {
        let w2 = choose|j: int| 0 <= j < w && (#[trigger] links[j]).url == url;
        lemma_first_below(links, url, w2);
    }
}

/// When some link carries the URL, a first match exists and `first_url_match`
/// names it.
pub proof fn lemma_first_url_match(links: Seq<LinkModel>, url: Seq<char>)
    requires
        has_link_url(links, url),
    ensures
        is_first_url_match(links, url, first_url_match(links, url)),
{
    let w = choose|i: int| 0 <= i < links.len() && (#[trigger] links[i]).url == url;
    lemma_first_below(links, url, w);
}

/// Two first matches are the same position.
pub proof fn lemma_first_url_match_unique(links: Seq<LinkModel>, url: Seq<char>, i: int)
    requires
        is_first_url_match(links, url, i),
    ensures
        first_url_match(links, url) == i,
{
    assert(has_link_url(links, url));
    lemma_first_url_match(links, url);
    let k = first_url_match(links, url);
    if k < i {
        assert(links[k].url != url);
    } else if i < k {
        assert(links[i].url != url);
    }
}

/// The visits recorded for one identifier, in order.
pub open spec fn visits_with_id(vs: Seq<VisitModel>, id: Seq<char>) -> Seq<VisitModel>
    decreases vs.len(),
{
    if vs.len() == 0 {
        Seq::empty()
    } else if vs.last().id == id {
        visits_with_id(vs.drop_last(), id).push(vs.last())
    } else {
        visits_with_id(vs.drop_last(), id)
    }
}

/// Appending one visit extends the filtered sequence exactly when the visit
/// carries the identifier.
pub proof fn lemma_visits_with_id_push(vs: Seq<VisitModel>, id: Seq<char>, v: VisitModel)
    ensures
        visits_with_id(vs.push(v), id) == if v.id == id {
            visits_with_id(vs, id).push(v)
        } else {
            visits_with_id(vs, id)
        },
{
    assert(vs.push(v).drop_last() =~= vs);
    assert(vs.push(v).last() == v);
}

} // verus!
