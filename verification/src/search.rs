//! The verified side of full-text search: deciding whether a caller may
//! search at all, narrowing the remote query by the caller's permissions,
//! and reshaping raw index hits into the api's result form. The remote
//! index itself is an outside collaborator driven by the boundary layer.

use vstd::prelude::*;

use crate::encoding::dec_of_int;
use crate::permissions::covered_by;
use crate::permissions::ApiPermission;
use crate::permissions::Caller;
use crate::trusted::i64_to_string;

verus! {

broadcast use vstd::seq_lib::group_seq_properties;

/// The search endpoint's query parameters.
#[derive(Clone, Debug)]
pub struct RfdSearchQuery {
    pub q: String,
    pub limit: Option<u32>,
    pub offset: Option<u32>,
    pub highlight_pre_tag: Option<String>,
    pub highlight_post_tag: Option<String>,
    pub attributes_to_crop: Option<String>,
}

/// The request handed to the remote search index.
#[derive(Clone, Debug)]
pub struct SearchRequest {
    pub q: String,
    pub filter: Option<String>,
    pub attributes_to_highlight: Vec<String>,
    pub highlight_pre_tag: Option<String>,
    pub highlight_post_tag: Option<String>,
    pub attributes_to_crop: Option<String>,
    pub limit: Option<u32>,
    pub offset: Option<u32>,
}

/// One raw hit from the remote index, hierarchy levels flattened.
#[derive(Clone, Debug)]
pub struct RawSearchResult {
    pub hierarchy_radio_lvl0: Option<String>,
    pub hierarchy_radio_lvl1: Option<String>,
    pub hierarchy_radio_lvl2: Option<String>,
    pub hierarchy_radio_lvl3: Option<String>,
    pub hierarchy_radio_lvl4: Option<String>,
    pub hierarchy_radio_lvl5: Option<String>,
    pub hierarchy_lvl0: Option<String>,
    pub hierarchy_lvl1: Option<String>,
    pub hierarchy_lvl2: Option<String>,
    pub hierarchy_lvl3: Option<String>,
    pub hierarchy_lvl4: Option<String>,
    pub hierarchy_lvl5: Option<String>,
    pub content: String,
    pub object_id: String,
    pub rfd_number: u64,
    pub anchor: Option<String>,
    pub url: Option<String>,
}

/// The formatted companion of a raw hit, where the index produced one.
#[derive(Clone, Debug)]
pub struct RawFormattedResult {
    pub hierarchy_radio_lvl0: Option<String>,
    pub hierarchy_radio_lvl1: Option<String>,
    pub hierarchy_radio_lvl2: Option<String>,
    pub hierarchy_radio_lvl3: Option<String>,
    pub hierarchy_radio_lvl4: Option<String>,
    pub hierarchy_radio_lvl5: Option<String>,
    pub hierarchy_lvl0: Option<String>,
    pub hierarchy_lvl1: Option<String>,
    pub hierarchy_lvl2: Option<String>,
    pub hierarchy_lvl3: Option<String>,
    pub hierarchy_lvl4: Option<String>,
    pub hierarchy_lvl5: Option<String>,
    pub content: Option<String>,
    pub anchor: Option<String>,
    pub url: Option<String>,
}

/// One raw hit together with its formatted companion.
#[derive(Clone, Debug)]
pub struct RawSearchHit {
    pub result: RawSearchResult,
    pub formatted_result: Option<RawFormattedResult>,
}

/// What the remote index reports for one query.
#[derive(Clone, Debug)]
pub struct RawSearchResults {
    pub hits: Vec<RawSearchHit>,
    pub query: String,
    pub limit: Option<usize>,
    pub offset: Option<usize>,
}

/// One hit of the api's search response.
#[derive(Clone, Debug)]
pub struct SearchResultHit {
    pub hierarchy: Vec<Option<String>>,
    pub hierarchy_radio: Vec<Option<String>>,
    pub content: String,
    pub object_id: String,
    pub rfd_number: u64,
    pub anchor: Option<String>,
    pub url: Option<String>,
    pub formatted: Option<FormattedSearchResultHit>,
}

/// The formatted companion of one response hit.
#[derive(Clone, Debug)]
pub struct FormattedSearchResultHit {
    pub hierarchy: Vec<Option<String>>,
    pub hierarchy_radio: Vec<Option<String>>,
    pub content: Option<String>,
    pub object_id: String,
    pub rfd_number: u64,
    pub anchor: Option<String>,
    pub url: Option<String>,
}

/// The api's search response.
#[derive(Clone, Debug)]
pub struct SearchResults {
    pub hits: Vec<SearchResultHit>,
    pub query: String,
    pub limit: Option<usize>,
    pub offset: Option<usize>,
}

/// Why a search was refused.
#[derive(Clone, Copy, Debug, PartialEq, Eq, Structural)]
pub enum SearchError {
    Unauthorized,
}

/// The six hierarchy levels of a raw hit, in order.
pub open spec fn hierarchy_of(h: RawSearchResult) -> Seq<Option<String>> {
    seq![
        h.hierarchy_lvl0,
        h.hierarchy_lvl1,
        h.hierarchy_lvl2,
        h.hierarchy_lvl3,
        h.hierarchy_lvl4,
        h.hierarchy_lvl5,
    ]
}

/// The six radio hierarchy levels of a raw hit, in order.
pub open spec fn hierarchy_radio_of(h: RawSearchResult) -> Seq<Option<String>> {
    seq![
        h.hierarchy_radio_lvl0,
        h.hierarchy_radio_lvl1,
        h.hierarchy_radio_lvl2,
        h.hierarchy_radio_lvl3,
        h.hierarchy_radio_lvl4,
        h.hierarchy_radio_lvl5,
    ]
}

/// `o` is the faithful reshaping of the raw hit `h`.
pub open spec fn hit_transformed(h: RawSearchHit, o: SearchResultHit) -> bool {
    &&& o.hierarchy@ == hierarchy_of(h.result)
    &&& o.hierarchy_radio@ == hierarchy_radio_of(h.result)
    &&& o.content == h.result.content
    &&& o.object_id == h.result.object_id
    &&& o.rfd_number == h.result.rfd_number
    &&& o.anchor == h.result.anchor
    &&& o.url == h.result.url
    &&& (o.formatted is Some) == (h.formatted_result is Some)
    &&& h.formatted_result matches Some(f) ==> o.formatted matches Some(of) && {
        &&& of.hierarchy@ == seq![
            f.hierarchy_lvl0,
            f.hierarchy_lvl1,
            f.hierarchy_lvl2,
            f.hierarchy_lvl3,
            f.hierarchy_lvl4,
            f.hierarchy_lvl5,
        ]
        &&& of.hierarchy_radio@ == seq![
            f.hierarchy_radio_lvl0,
            f.hierarchy_radio_lvl1,
            f.hierarchy_radio_lvl2,
            f.hierarchy_radio_lvl3,
            f.hierarchy_radio_lvl4,
            f.hierarchy_radio_lvl5,
        ]
        &&& of.content == f.content
        &&& of.object_id == h.result.object_id
        &&& of.rfd_number == h.result.rfd_number
        &&& of.anchor == f.anchor
        &&& of.url == f.url
    }
}

/// Reshapes one raw hit.
fn transform_hit(hit: RawSearchHit) -> (r: SearchResultHit)
    ensures
        hit_transformed(hit, r),
{
    let RawSearchHit { result, formatted_result } = hit;
    let formatted = match formatted_result {
        Some(f) => Some(
            FormattedSearchResultHit {
                hierarchy: vec![
                    f.hierarchy_lvl0,
                    f.hierarchy_lvl1,
                    f.hierarchy_lvl2,
                    f.hierarchy_lvl3,
                    f.hierarchy_lvl4,
                    f.hierarchy_lvl5,
                ],
                hierarchy_radio: vec![
                    f.hierarchy_radio_lvl0,
                    f.hierarchy_radio_lvl1,
                    f.hierarchy_radio_lvl2,
                    f.hierarchy_radio_lvl3,
                    f.hierarchy_radio_lvl4,
                    f.hierarchy_radio_lvl5,
                ],
                content: f.content,
                object_id: result.object_id.clone(),
                rfd_number: result.rfd_number,
                anchor: f.anchor,
                url: f.url,
            },
        ),
        None => None,
    };
    SearchResultHit {
        hierarchy: vec![
            result.hierarchy_lvl0,
            result.hierarchy_lvl1,
            result.hierarchy_lvl2,
            result.hierarchy_lvl3,
            result.hierarchy_lvl4,
            result.hierarchy_lvl5,
        ],
        hierarchy_radio: vec![
            result.hierarchy_radio_lvl0,
            result.hierarchy_radio_lvl1,
            result.hierarchy_radio_lvl2,
            result.hierarchy_radio_lvl3,
            result.hierarchy_radio_lvl4,
            result.hierarchy_radio_lvl5,
        ],
        content: result.content,
        object_id: result.object_id,
        rfd_number: result.rfd_number,
        anchor: result.anchor,
        url: result.url,
        formatted,
    }
}

/// Reshapes a whole raw response, hit for hit, keeping query, limit and
/// offset as the index reported them.
pub fn build_search_results(results: RawSearchResults) -> (r: SearchResults)
    ensures
        r.hits@.len() == results.hits@.len(),
        forall|i: int|
            0 <= i < r.hits@.len() ==> hit_transformed(results.hits@[i], #[trigger] r.hits@[i]),
        r.query == results.query,
        r.limit == results.limit,
        r.offset == results.offset,
{
    let RawSearchResults { hits, query, limit, offset } = results;
    let ghost raw = hits@;
    let mut out: Vec<SearchResultHit> = Vec::new();
    let mut hits = hits;
    let mut i: usize = 0;
    let n = hits.len();
    while i < n
        invariant
            n == raw.len(),
            i <= n,
            hits@ == raw.skip(i as int),
            out@.len() == i,
            forall|j: int| 0 <= j < i ==> hit_transformed(raw[j], #[trigger] out@[j]),
        decreases n - i,
    {
        let hit = hits.remove(0);
        proof {
            assert(hit == raw[i as int]);
            assert(hits@ =~= raw.skip(i + 1));
        }
        out.push(transform_hit(hit));
        i += 1;
    }
    SearchResults { hits: out, query, limit, offset }
}

/// The numbers joined with a comma and a space, in order.
pub open spec fn joined_numbers(ns: Seq<i32>) -> Seq<char>
    decreases ns.len(),
{
    if ns.len() == 0 {
        Seq::<char>::empty()
    } else if ns.len() == 1 {
        dec_of_int(ns[0] as int)
    } else {
        joined_numbers(ns.drop_last()) + ", "@ + dec_of_int(ns.last() as int)
    }
}

/// The index filter for a caller without the global read tag: public
/// documents, widened by the rfd numbers the caller holds directly.
pub open spec fn filter_chars(ns: Seq<i32>) -> Seq<char> {
    if ns.len() == 0 {
        "public = true"@
    } else {
        "public = true"@ + "OR rfd_number in ["@ + joined_numbers(ns) + "]"@
    }
}

/// The remote filter that narrows a search to what the caller may see:
/// nothing at all for a caller holding the global read tag, else public
/// documents plus the caller's directly held rfd numbers.
pub fn search_filter_for_caller(caller: &Caller) -> (r: Option<String>)
    ensures
        (r is None) == covered_by(caller.permissions@, ApiPermission::GetRfdsAll),
        r matches Some(f) ==> exists|ns: Seq<i32>|
            {
                &&& forall|j: int|
                    0 <= j < ns.len() ==> caller.permissions@.contains(
                        ApiPermission::GetRfd(#[trigger] ns[j]),
                    )
                &&& forall|n: i32|
                    caller.permissions@.contains(ApiPermission::GetRfd(n)) ==> ns.contains(n)
                &&& f@ == filter_chars(ns)
            },
{
    if caller.can(&ApiPermission::GetRfdsAll) {
        return None;
    }
    let allowed = caller.allow_rfds();
    let mut filter = String::from_str("public = true");
    if allowed.len() > 0 {
        filter.append("OR rfd_number in [");
        let mut j: usize = 0;
        let mut joined = String::new();
        while j < allowed.len()
            invariant
                j <= allowed@.len(),
                allowed@.len() > 0,
                joined@ == joined_numbers(allowed@.take(j as int)),
            decreases allowed@.len() - j,
        {
            proof {
                assert(allowed@.take(j + 1).drop_last() =~= allowed@.take(j as int));
                assert(allowed@.take(j + 1).last() == allowed@[j as int]);
            }
            if j > 0 {
                joined.append(", ");
                proof {
                    reveal_strlit(", ");
                }
            }
            let num = i64_to_string(allowed[j] as i64);
            joined.append(num.as_str());
            j += 1;
        }
        proof {
            assert(allowed@.take(allowed@.len() as int) =~= allowed@);
        }
        filter.append(joined.as_str());
        filter.append("]");
        proof {
            assert(filter@ =~= filter_chars(allowed@));
        }
        Some(filter)
    } else {
        proof {
            assert(allowed@ =~= Seq::<i32>::empty());
            assert(filter@ =~= filter_chars(allowed@));
        }
        Some(filter)
    }
}

/// Builds the remote request for an authorized caller: the query as
/// given, every attribute highlighted, and the permission filter. A
/// caller without the search tag is refused outright.
pub fn prepare_search(caller: &Caller, query: RfdSearchQuery) -> (r: Result<
    SearchRequest,
    SearchError,
>)
    ensures
        (r is Ok) == covered_by(caller.permissions@, ApiPermission::SearchRfds),
        r matches Err(e) ==> e == SearchError::Unauthorized,
        r matches Ok(req) ==> {
            &&& req.q == query.q
            &&& (req.filter is None) == covered_by(
                caller.permissions@,
                ApiPermission::GetRfdsAll,
            )
            &&& req.attributes_to_highlight@.len() == 1 && req.attributes_to_highlight@[0]@
                == "*"@
            &&& req.highlight_pre_tag == query.highlight_pre_tag
            &&& req.highlight_post_tag == query.highlight_post_tag
            &&& req.attributes_to_crop == query.attributes_to_crop
            &&& req.limit == query.limit
            &&& req.offset == query.offset
        },
{
    if !caller.can(&ApiPermission::SearchRfds) {
        return Err(SearchError::Unauthorized);
    }
    let filter = search_filter_for_caller(caller);
    let star = String::from_str("*");
    let mut attributes_to_highlight: Vec<String> = Vec::new();
    attributes_to_highlight.push(star);
    Ok(
        SearchRequest {
            q: query.q,
            filter,
            attributes_to_highlight,
            highlight_pre_tag: query.highlight_pre_tag,
            highlight_post_tag: query.highlight_post_tag,
            attributes_to_crop: query.attributes_to_crop,
            limit: query.limit,
            offset: query.offset,
        },
    )
}

} // verus!
