//! The routes the service answers, what each handler does, the CORS
//! headers of the posting endpoint, and the batch writer's step.

use vstd::prelude::*;
use vstd::string::*;
use crate::db::{DbController, queued_tags, try_pop_tag, insert_many_text};
use crate::server::tag::{TagRequest, TagType};

verus! {

/// How many worker threads the listener runs.
pub const THREAD_COUNT_PER_PROTOCOL: usize = 128;

/// The TCP port the service listens on.
pub const LISTEN_PORT: u16 = 9292;

/// The most tags written by one batch.
pub const INSERTS_PER_CYCLE: i64 = 500;

/// The pause between two batches, in milliseconds.
pub const INSERT_PAUSE_MILLIS: u64 = 4000;

/// HTTP request methods the service names.
#[derive(Clone, Copy, Debug, PartialEq, Eq, Structural)]
pub enum HttpMethod {
    Get,
    Post,
    Patch,
    Options,
}

/// The handlers of the service.
#[derive(Clone, Copy, Debug, PartialEq, Eq, Structural)]
pub enum Endpoint {
    HelloWorld,
    DoNothing,
    TaggVisit,
    ImgVisit,
    TagpVisit,
    TagpOption,
    TaglistVisit,
    TaglistGroupVisit,
}

/// One route: its name, method, path pattern and handler.
pub struct Route {
    pub id: String,
    pub method: HttpMethod,
    pub path: String,
    pub endpoint: Endpoint,
}

/// A route with its texts as character sequences.
pub open spec fn route_view(r: Route) -> (Seq<char>, HttpMethod, Seq<char>, Endpoint) {
    (r.id@, r.method, r.path@, r.endpoint)
}

/// The routes of the service, in the order they are tried; the two
/// listings sit under the secret key from the configuration.
pub open spec fn route_table(key: Seq<char>) -> Seq<(Seq<char>, HttpMethod, Seq<char>, Endpoint)> {
    seq![
        ("id_1"@, HttpMethod::Get, "/hello2"@, Endpoint::HelloWorld),
        ("id_2"@, HttpMethod::Get, "/do-nothing"@, Endpoint::DoNothing),
        ("id_3"@, HttpMethod::Get, "/tagg"@, Endpoint::TaggVisit),
        ("id_4"@, HttpMethod::Get, "/tagg/:given-tag"@, Endpoint::TaggVisit),
        ("id_5"@, HttpMethod::Get, "/img/:given-tag"@, Endpoint::ImgVisit),
        ("id_6"@, HttpMethod::Post, "/tagp/:given-tag"@, Endpoint::TagpVisit),
        ("id_7"@, HttpMethod::Options, "/tagp/:given-tag"@, Endpoint::TagpOption),
        ("id_8"@, HttpMethod::Get, "/taglist/all/"@ + key, Endpoint::TaglistVisit),
        ("id_9"@, HttpMethod::Get, "/taglist/group/"@ + key, Endpoint::TaglistGroupVisit),
        ("id_10"@, HttpMethod::Get, "/*"@, Endpoint::DoNothing),
    ]
}

fn route(id: &str, method: HttpMethod, path: String, endpoint: Endpoint) -> (r: Route)
    ensures
        route_view(r) == (id@, method, path@, endpoint),
{
    Route { id: String::from_str(id), method, path, endpoint }
}

/// The routes of the service, the listings under `sensitive_path_key`.
pub fn make_routes(sensitive_path_key: &str) -> (routes: Vec<Route>)
    ensures
        routes@.map_values(|r: Route| route_view(r)) == route_table(sensitive_path_key@),
{
    let mut all_path = String::from_str("/taglist/all/");
    all_path.append(sensitive_path_key);
    let mut group_path = String::from_str("/taglist/group/");
    group_path.append(sensitive_path_key);
    let mut routes: Vec<Route> = Vec::new();
    routes.push(route("id_1", HttpMethod::Get, String::from_str("/hello2"), Endpoint::HelloWorld));
    routes.push(route("id_2", HttpMethod::Get, String::from_str("/do-nothing"), Endpoint::DoNothing));
    routes.push(route("id_3", HttpMethod::Get, String::from_str("/tagg"), Endpoint::TaggVisit));
    routes.push(
        route("id_4", HttpMethod::Get, String::from_str("/tagg/:given-tag"), Endpoint::TaggVisit),
    );
    routes.push(
        route("id_5", HttpMethod::Get, String::from_str("/img/:given-tag"), Endpoint::ImgVisit),
    );
    routes.push(
        route("id_6", HttpMethod::Post, String::from_str("/tagp/:given-tag"), Endpoint::TagpVisit),
    );
    routes.push(
        route(
            "id_7",
            HttpMethod::Options,
            String::from_str("/tagp/:given-tag"),
            Endpoint::TagpOption,
        ),
    );
    routes.push(route("id_8", HttpMethod::Get, all_path, Endpoint::TaglistVisit));
    routes.push(route("id_9", HttpMethod::Get, group_path, Endpoint::TaglistGroupVisit));
    routes.push(route("id_10", HttpMethod::Get, String::from_str("/*"), Endpoint::DoNothing));
    proof {
        assert(routes@.map_values(|r: Route| route_view(r)) =~= route_table(sensitive_path_key@));
    }
    routes
}

/// What a handler answers besides its status, which is always `200 OK`.
#[derive(Clone, Copy, Debug, PartialEq, Eq, Structural)]
pub enum Listing {
    /// A fixed text.
    Text,
    /// Every stored tag, as pretty JSON.
    AllTags,
    /// The grouped counts, as pretty JSON.
    GroupedTags,
}

/// The content type a handler sets.
#[derive(Clone, Copy, Debug, PartialEq, Eq, Structural)]
pub enum ContentKind {
    /// None set.
    Unset,
    /// `image/png`.
    ImagePng,
    /// `application/json`.
    Json,
}

/// What a handler does.
pub struct EndpointPlan {
    /// The kind the visit is queued as, if it is recorded at all.
    pub record_as: Option<TagType>,
    /// Whether the referer comes from the posted JSON body.
    pub referer_from_body: bool,
    /// Whether the grouped counts are read before the visit is queued.
    pub list_before_record: bool,
    /// The body: a text or a listing.
    pub listing: Listing,
    /// The text of a text body.
    pub text: String,
    /// The content type set.
    pub content_type: ContentKind,
    /// Whether the CORS headers of `setup_options` are set.
    pub cors: bool,
}

/// A plan with its text as a character sequence.
pub open spec fn plan_view(p: EndpointPlan) -> (
    Option<TagType>,
    bool,
    bool,
    Listing,
    Seq<char>,
    ContentKind,
    bool,
) {
    (
        p.record_as,
        p.referer_from_body,
        p.list_before_record,
        p.listing,
        p.text@,
        p.content_type,
        p.cors,
    )
}

/// What each handler does.
pub open spec fn endpoint_plan(e: Endpoint) -> (
    Option<TagType>,
    bool,
    bool,
    Listing,
    Seq<char>,
    ContentKind,
    bool,
) {
    match e {
        Endpoint::HelloWorld => (
            None,
            false,
            false,
            Listing::Text,
            "Hello World2 response !"@,
            ContentKind::Unset,
            false,
        ),
        Endpoint::DoNothing => (None, false, false, Listing::Text, "did-nothing"@, ContentKind::Unset, false),
        Endpoint::TaggVisit => (
            Some(TagType::TagGet),
            false,
            false,
            Listing::Text,
            "Tagg"@,
            ContentKind::Unset,
            false,
        ),
        Endpoint::ImgVisit => (
            Some(TagType::ImgGet),
            false,
            false,
            Listing::Text,
            ""@,
            ContentKind::ImagePng,
            false,
        ),
        Endpoint::TagpVisit => (
            Some(TagType::TagPost),
            true,
            false,
            Listing::Text,
            "TAGP"@,
            ContentKind::Unset,
            true,
        ),
        Endpoint::TagpOption => (None, false, false, Listing::Text, "TAGP"@, ContentKind::Unset, true),
        Endpoint::TaglistVisit => (
            Some(TagType::SeeAllList),
            false,
            false,
            Listing::AllTags,
            ""@,
            ContentKind::Json,
            false,
        ),
        Endpoint::TaglistGroupVisit => (
            Some(TagType::SeeGroupList),
            false,
            true,
            Listing::GroupedTags,
            ""@,
            ContentKind::Json,
            false,
        ),
    }
}

/// The kind each handler records its visit as: `GET /tagg` a get, the
/// image a image fetch, a post a post, the two listings a view of each;
/// the greeting, the catch-all and the preflight record nothing.
pub open spec fn recorded_kind(e: Endpoint) -> Option<TagType> {
    if e == Endpoint::TaggVisit {
        Some(TagType::TagGet)
    } else if e == Endpoint::ImgVisit {
        Some(TagType::ImgGet)
    } else if e == Endpoint::TagpVisit {
        Some(TagType::TagPost)
    } else if e == Endpoint::TaglistVisit {
        Some(TagType::SeeAllList)
    } else if e == Endpoint::TaglistGroupVisit {
        Some(TagType::SeeGroupList)
    } else {
        None
    }
}

/// What the handlers decide: only the posting handler takes its referer
/// from the body (every other recording handler uses the request's own
/// `Referer` header); each records the kind given by `recorded_kind`; only
/// the posting handler and its preflight set CORS headers; only the grouped
/// listing reads before it records; JSON goes with the listings and a PNG
/// type only with the image.
pub proof fn lemma_plan_decisions(e: Endpoint)
    ensures
        endpoint_plan(e).1 == (e == Endpoint::TagpVisit),
        endpoint_plan(e).0 == recorded_kind(e),
        endpoint_plan(e).6 == (e == Endpoint::TagpVisit || e == Endpoint::TagpOption),
        endpoint_plan(e).2 == (e == Endpoint::TaglistGroupVisit),
        (endpoint_plan(e).5 == ContentKind::Json) == (endpoint_plan(e).3 != Listing::Text),
        (endpoint_plan(e).5 == ContentKind::ImagePng) == (e == Endpoint::ImgVisit),
        (endpoint_plan(e).3 == Listing::AllTags) == (e == Endpoint::TaglistVisit),
        (endpoint_plan(e).3 == Listing::GroupedTags) == (e == Endpoint::TaglistGroupVisit),
{
}

impl Endpoint {
    /// What this handler does: whether and as what it records the visit,
    /// what it answers, with which content type and headers.
    pub fn plan(&self) -> (p: EndpointPlan)
        ensures
            plan_view(p) == endpoint_plan(*self),
            p.referer_from_body == (*self == Endpoint::TagpVisit),
            p.record_as == recorded_kind(*self),
            p.cors == (*self == Endpoint::TagpVisit || *self == Endpoint::TagpOption),
            p.list_before_record == (*self == Endpoint::TaglistGroupVisit),
    {
        proof {
            lemma_plan_decisions(*self);
        }
        let (record_as, referer_from_body, list_before_record, listing, text, content_type, cors) =
            match self {
            Endpoint::HelloWorld => (
                None,
                false,
                false,
                Listing::Text,
                "Hello World2 response !",
                ContentKind::Unset,
                false,
            ),
            Endpoint::DoNothing => (
                None,
                false,
                false,
                Listing::Text,
                "did-nothing",
                ContentKind::Unset,
                false,
            ),
            Endpoint::TaggVisit => (
                Some(TagType::TagGet),
                false,
                false,
                Listing::Text,
                "Tagg",
                ContentKind::Unset,
                false,
            ),
            Endpoint::ImgVisit => (
                Some(TagType::ImgGet),
                false,
                false,
                Listing::Text,
                "",
                ContentKind::ImagePng,
                false,
            ),
            Endpoint::TagpVisit => (
                Some(TagType::TagPost),
                true,
                false,
                Listing::Text,
                "TAGP",
                ContentKind::Unset,
                true,
            ),
            Endpoint::TagpOption => (
                None,
                false,
                false,
                Listing::Text,
                "TAGP",
                ContentKind::Unset,
                true,
            ),
            Endpoint::TaglistVisit => (
                Some(TagType::SeeAllList),
                false,
                false,
                Listing::AllTags,
                "",
                ContentKind::Json,
                false,
            ),
            Endpoint::TaglistGroupVisit => (
                Some(TagType::SeeGroupList),
                false,
                true,
                Listing::GroupedTags,
                "",
                ContentKind::Json,
                false,
            ),
        };
        EndpointPlan {
            record_as,
            referer_from_body,
            list_before_record,
            listing,
            text: String::from_str(text),
            content_type,
            cors,
        }
    }
}

/// The CORS headers of the posting endpoint.
pub struct CorsPolicy {
    /// `Access-Control-Allow-Origin: *`.
    pub allow_any_origin: bool,
    pub allow_headers: Vec<String>,
    pub allow_methods: Vec<HttpMethod>,
    /// `Access-Control-Max-Age`, in seconds.
    pub max_age: u32,
    pub request_headers: Vec<String>,
    pub request_method: HttpMethod,
}

/// The headers `setup_options` sets.
pub fn setup_options() -> (p: CorsPolicy)
    ensures
        p.allow_any_origin,
        p.allow_headers@.map_values(|s: String| s@) == seq![
            "X-Requested-With"@,
            "Content-Type"@,
            "Accept"@,
            "Origin"@,
        ],
        p.allow_methods@ == seq![HttpMethod::Get, HttpMethod::Post, HttpMethod::Patch, HttpMethod::Options],
        p.max_age == 1728000,
        p.request_headers@.map_values(|s: String| s@) == seq!["date"@],
        p.request_method == HttpMethod::Post,
{
    let mut allow_headers: Vec<String> = Vec::new();
    allow_headers.push(String::from_str("X-Requested-With"));
    allow_headers.push(String::from_str("Content-Type"));
    allow_headers.push(String::from_str("Accept"));
    allow_headers.push(String::from_str("Origin"));
    let mut allow_methods: Vec<HttpMethod> = Vec::new();
    allow_methods.push(HttpMethod::Get);
    allow_methods.push(HttpMethod::Post);
    allow_methods.push(HttpMethod::Patch);
    allow_methods.push(HttpMethod::Options);
    let mut request_headers: Vec<String> = Vec::new();
    request_headers.push(String::from_str("date"));
    let p = CorsPolicy {
        allow_any_origin: true,
        allow_headers,
        allow_methods,
        max_age: 1728000,
        request_headers,
        request_method: HttpMethod::Post,
    };
    proof {
        assert(p.allow_headers@.map_values(|s: String| s@) =~= seq![
            "X-Requested-With"@,
            "Content-Type"@,
            "Accept"@,
            "Origin"@,
        ]);
        assert(p.request_headers@.map_values(|s: String| s@) =~= seq!["date"@]);
        assert(p.allow_methods@ =~= seq![HttpMethod::Get, HttpMethod::Post, HttpMethod::Patch, HttpMethod::Options]);
    }
    p
}

/// How many tags one batch takes from a queue holding `queued`.
pub open spec fn batch_size(queued: nat) -> nat {
    if queued < INSERTS_PER_CYCLE as nat {
        queued
    } else {
        INSERTS_PER_CYCLE as nat
    }
}

/// One step of the batch writer: takes up to `INSERTS_PER_CYCLE` tags from
/// the front of the queue and gives the statement that stores them, or
/// `None` when the queue was empty.
pub fn batch_insert(dbc: &mut DbController) -> (stmt: Option<String>)
    ensures
        queued_tags(final(dbc).ms_queue) == queued_tags(old(dbc).ms_queue).skip(
            batch_size(queued_tags(old(dbc).ms_queue).len()) as int,
        ),
        stmt is None <==> queued_tags(old(dbc).ms_queue).len() == 0,
        stmt matches Some(s) ==> s@ == insert_many_text(
            queued_tags(old(dbc).ms_queue).take(
                batch_size(queued_tags(old(dbc).ms_queue).len()) as int,
            ),
        ),
        final(dbc).file_path_string == old(dbc).file_path_string,
        final(dbc).param_name_to_column_name == old(dbc).param_name_to_column_name,
{
    let ghost q = queued_tags(dbc.ms_queue);
    let mut tags: Vec<TagRequest> = Vec::new();
    let mut i: i64 = 0;
    let mut emptied = false;
    proof {
        assert(q.take(0) =~= tags@);
        assert(q.skip(0) =~= q);
    }
    while i < INSERTS_PER_CYCLE && !emptied
        invariant
            0 <= i <= INSERTS_PER_CYCLE,
            tags@.len() == i,
            i <= q.len(),
            tags@ == q.take(i as int),
            queued_tags(dbc.ms_queue) == q.skip(i as int),
            emptied ==> i == q.len(),
            dbc.file_path_string == old(dbc).file_path_string,
            dbc.param_name_to_column_name == old(dbc).param_name_to_column_name,
        decreases INSERTS_PER_CYCLE - i, (if emptied { 0int } else { 1int }),
    {
        let maybe_tag = try_pop_tag(&mut dbc.ms_queue);
        match maybe_tag {
            Some(tag) => {
                proof {
                    assert(q.skip(i as int)[0] == q[i as int]);
                    assert(q.skip(i as int).drop_first() =~= q.skip(i + 1));
                }
                tags.push(tag);
                proof {
                    assert(tags@ =~= q.take(i + 1));
                }
                i = i + 1;
            },
            None => {
                emptied = true;
            },
        }
    }
    if tags.len() > 0 {
        Some(dbc.insert_many_log_to_db(tags))
    } else {
        None
    }
}

/// A batch splits the queue: the tags it writes, in queue order, followed
/// by the tags it leaves, are the queue; none is lost or written twice.
pub proof fn lemma_batch_splits_queue(q: Seq<TagRequest>)
    ensures
        q.take(batch_size(q.len()) as int) + q.skip(batch_size(q.len()) as int) == q,
        batch_size(q.len()) <= q.len(),
        q.len() > 0 ==> batch_size(q.len()) > 0,
{
    assert(q.take(batch_size(q.len()) as int) + q.skip(batch_size(q.len()) as int) =~= q);
}

/// The queue left after `k` batches with no tag queued in between.
pub open spec fn after_batches(q: Seq<TagRequest>, k: nat) -> Seq<TagRequest>
    decreases k,
{
    if k == 0 {
        q
    } else {
        let before = after_batches(q, (k - 1) as nat);
        before.skip(batch_size(before.len()) as int)
    }
}

/// `k` batches with no tag queued in between take the first
/// `min(500 k, |q|)` tags, in order.
pub proof fn lemma_batches_drain_in_order(q: Seq<TagRequest>, k: nat)
    ensures
        after_batches(q, k) == q.skip(
            if INSERTS_PER_CYCLE * k < q.len() {
                INSERTS_PER_CYCLE * k
            } else {
                q.len() as int
            },
        ),
    decreases k,
{
    if k == 0 {
        assert(q.skip(0) =~= q);
    } else {
        lemma_batches_drain_in_order(q, (k - 1) as nat);
        let m: int = if INSERTS_PER_CYCLE * (k - 1) < q.len() {
            INSERTS_PER_CYCLE * (k - 1)
        } else {
            q.len() as int
        };
        let before = q.skip(m);
        assert(before.skip(batch_size(before.len()) as int) =~= q.skip(
            m + batch_size(before.len()),
        ));
    }
}

/// A tag with `n` tags ahead of it, and no tag queued meanwhile, is written
/// by batch number `n / 500 + 1`: after `n / 500` batches it is still queued,
/// among the tags that the next batch takes.
pub proof fn lemma_tag_written_by_batch(q: Seq<TagRequest>, n: int)
    requires
        0 <= n < q.len(),
    ensures
        ({
            let before = after_batches(q, (n / (INSERTS_PER_CYCLE as int)) as nat);
            let pos = n - INSERTS_PER_CYCLE * (n / (INSERTS_PER_CYCLE as int));
            &&& 0 <= pos < batch_size(before.len())
            &&& before.take(batch_size(before.len()) as int)[pos] == q[n]
        }),
{
    let k = (n / (INSERTS_PER_CYCLE as int)) as nat;
    lemma_batches_drain_in_order(q, k);
    assert(INSERTS_PER_CYCLE * k <= n) by (nonlinear_arith)
        requires
            k == n / 500,
            n >= 0,
    ;
    assert(n - INSERTS_PER_CYCLE * k < INSERTS_PER_CYCLE) by (nonlinear_arith)
        requires
            k == n / 500,
            n >= 0,
    ;
    let before = after_batches(q, k);
    assert(before == q.skip(INSERTS_PER_CYCLE * k));
    let pos = n - INSERTS_PER_CYCLE * k;
    assert(before[pos] == q[n]);
}

/// The tag listings sit only under the secret key: in the route table the
/// full listing is routed only from `/taglist/all/` followed by the key and
/// the grouped one only from `/taglist/group/` followed by the key, both
/// for `GET`; every other route answers a fixed text; and the catch-all
/// handler records nothing and answers `did-nothing`.
pub proof fn lemma_listings_only_under_key(key: Seq<char>)
    ensures
        forall|i: int|
            0 <= i < route_table(key).len() && (#[trigger] route_table(key)[i]).3
                == Endpoint::TaglistVisit ==> route_table(key)[i].2 == "/taglist/all/"@ + key
                && route_table(key)[i].1 == HttpMethod::Get,
        forall|i: int|
            0 <= i < route_table(key).len() && (#[trigger] route_table(key)[i]).3
                == Endpoint::TaglistGroupVisit ==> route_table(key)[i].2 == "/taglist/group/"@
                + key && route_table(key)[i].1 == HttpMethod::Get,
        forall|e: Endpoint|
            (#[trigger] endpoint_plan(e)).3 != Listing::Text ==> e == Endpoint::TaglistVisit
                || e == Endpoint::TaglistGroupVisit,
        endpoint_plan(Endpoint::DoNothing).0 is None,
        endpoint_plan(Endpoint::DoNothing).3 == Listing::Text,
        endpoint_plan(Endpoint::DoNothing).4 == "did-nothing"@,
{
}

} // verus!
