use vstd::prelude::*;
use vstd::string::StrSliceExecFns;
use vstd::string::StringExecFns;
use crate::error::{join2, text};
use crate::inspection::texts_are;
use crate::router::{routes_to, subdomain_taken, RouterState};
use crate::utils::{alphanumeric, lowercase, lowercase_text, trim_text, trimmed};

verus! {

/// A header of an inbound request.
#[derive(Debug, Clone, PartialEq, Eq)]
pub struct HttpHeader {
    pub name: String,
    pub value: String,
}

/// An inbound request, as far as routing reads it.
#[derive(Debug, Clone, PartialEq, Eq)]
pub struct HttpRequest {
    pub method: String,
    pub url: String,
    pub headers: Vec<HttpHeader>,
    pub body: Vec<u8>,
}

/// How a response body is streamed, when it is.
#[derive(Debug, Clone, PartialEq, Eq)]
pub enum StreamingStrategy {
    Callback { token: String, callback: String },
}

/// A response to an inbound request.
#[derive(Debug, Clone, PartialEq, Eq)]
pub struct HttpResponse {
    pub status_code: u16,
    pub headers: Vec<HttpHeader>,
    pub body: Vec<u8>,
    pub streaming_strategy: Option<StreamingStrategy>,
    pub upgrade: Option<bool>,
}

/// The query pairs of an absolute URL, as the url crate parses them, or
/// nothing when it does not parse.
pub uninterp spec fn url_query(s: Seq<char>) -> Option<Seq<(Seq<char>, Seq<char>)>>;

/// The texts of a list of pairs.
pub open spec fn pair_texts(v: Seq<(String, String)>) -> Seq<(Seq<char>, Seq<char>)> {
    Seq::new(v.len(), |i: int| (v[i].0@, v[i].1@))
}

/// Relies on `url::Url::parse` and `Url::query_pairs`: whether the text is
/// an absolute URL, and the decoded key/value pairs of its query, in order.
#[verifier::external_body]
fn parse_query_pairs(full: &str) -> (r: Option<Vec<(String, String)>>)
    ensures
        r is Some == url_query(full@) is Some,
        r is Some ==> pair_texts(r->Some_0@) == url_query(full@)->Some_0,
{
    url::Url::parse(full).ok().map(|u| u.query_pairs().map(|(k, v)| (k.into_owned(), v.into_owned())).collect())
}

/// The pieces of `s` between occurrences of `sep`.
pub open spec fn pieces(s: Seq<char>, sep: char) -> Seq<Seq<char>>
    decreases s.len(),
{
    if s.len() == 0 {
        seq![Seq::empty()]
    } else {
        let before = pieces(s.drop_last(), sep);
        if s.last() == sep {
            before.push(Seq::empty())
        } else {
            before.drop_last().push(before.last().push(s.last()))
        }
    }
}

proof fn lemma_pieces_nonempty(s: Seq<char>, sep: char)
    ensures
        pieces(s, sep).len() >= 1,
    decreases s.len(),
{
    if s.len() > 0 {
        lemma_pieces_nonempty(s.drop_last(), sep);
    }
}

/// Splits `s` at every `sep`.
pub fn split_text(s: &str, sep: char) -> (r: Vec<String>)
    ensures
        texts_are(r@, pieces(s@, sep)),
{
    let n = s.unicode_len();
    let mut out: Vec<String> = Vec::new();
    let mut piece = String::new();
    let mut i: usize = 0;
    proof {
        assert(s@.take(0) =~= Seq::<char>::empty());
    }
    while i < n
        invariant
            n == s@.len(),
            i <= n,
            pieces(s@.take(i as int), sep).len() >= 1,
            piece@ == pieces(s@.take(i as int), sep).last(),
            texts_are(out@, pieces(s@.take(i as int), sep).drop_last()),
        decreases n - i,
    {
        let ghost pre = s@.take(i as int);
        let ghost post = s@.take(i as int + 1);
        assert(post.drop_last() =~= pre);
        assert(post.last() == s@[i as int]);
        proof {
            lemma_pieces_nonempty(pre, sep);
        }
        let c = s.get_char(i);
        let ghost ps = pieces(pre, sep);
        if c == sep {
            assert(pieces(post, sep) == ps.push(Seq::<char>::empty()));
            assert(pieces(post, sep).drop_last() =~= ps);
            assert(ps.drop_last().push(ps.last()) =~= ps);
            let done = piece;
            out.push(done);
            assert(out@.len() == ps.len());
            piece = String::new();
        } else {
            piece.append(s.substring_char(i, i + 1));
            assert(s@.subrange(i as int, i as int + 1) =~= seq![c]);
            assert(pieces(post, sep) == ps.drop_last().push(ps.last().push(c)));
            assert(pieces(post, sep).drop_last() =~= ps.drop_last());
            assert(piece@ =~= ps.last().push(c));
        }
        i += 1;
    }
    assert(s@.take(n as int) =~= s@);
    let ghost ps = pieces(s@, sep);
    assert(ps.drop_last().push(ps.last()) =~= ps);
    out.push(piece);
    out
}

/// Whether `s` begins with `p`.
pub open spec fn begins_with(s: Seq<char>, p: Seq<char>) -> bool {
    p.len() <= s.len() && s.take(p.len() as int) == p
}

fn starts_with_text(s: &String, p: &str) -> (r: bool)
    ensures
        r == begins_with(s@, p@),
{
    let n = s.as_str().unicode_len();
    let m = p.unicode_len();
    if m > n {
        return false;
    }
    let head = String::from_str(s.as_str().substring_char(0, m));
    let r = head == String::from_str(p);
    assert(head@ =~= s@.take(m as int));
    r
}

/// The tenant named by a host name `tenant.lms.app` or
/// `tenant.lms.localhost[:port]` (in lower case); not `lms` itself.
pub open spec fn tenant_of_host(host: Seq<char>) -> Option<Seq<char>> {
    let ps = pieces(lowercase(host), '.');
    if ps.len() >= 3 && ps[1] == "lms"@ && (begins_with(ps[2], "localhost"@) || ps[2] == "app"@) && ps[0].len() > 0
        && ps[0] != "lms"@ {
        Some(ps[0])
    } else {
        None
    }
}

/// The tenant a host name designates, if any.
pub fn parse_tenant_from_hostname(hostname: &str) -> (r: Option<String>)
    ensures
        match r {
            Some(t) => tenant_of_host(hostname@) == Some(t@),
            None => tenant_of_host(hostname@) is None,
        },
{
    let lower = lowercase_text(hostname);
    let parts = split_text(lower.as_str(), '.');
    if parts.len() >= 3 && parts[1] == text("lms") && (starts_with_text(&parts[2], "localhost") || parts[2] == text("app"))
        && parts[0].as_str().unicode_len() > 0 && !(parts[0] == text("lms")) {
        Some(parts[0].clone())
    } else {
        None
    }
}

/// Index of the first header whose lower-case name is `name`.
pub open spec fn first_header(hs: Seq<HttpHeader>, name: Seq<char>) -> Option<int>
    decreases hs.len(),
{
    if hs.len() == 0 {
        None
    } else {
        match first_header(hs.drop_last(), name) {
            Some(i) => Some(i),
            None => if lowercase(hs.last().name@) == name { Some(hs.len() - 1) } else { None },
        }
    }
}

/// The tenant named by the request's Host header (the first one).
pub open spec fn tenant_from_host_header(req: HttpRequest) -> Option<Seq<char>> {
    match first_header(req.headers@, "host"@) {
        Some(i) => tenant_of_host(req.headers@[i].value@),
        None => None,
    }
}

/// The tenant named by the request's Host header.
pub fn extract_from_host_header(req: &HttpRequest) -> (r: Option<String>)
    ensures
        match r {
            Some(t) => tenant_from_host_header(*req) == Some(t@),
            None => tenant_from_host_header(*req) is None,
        },
{
    let hs = &req.headers;
    let mut i: usize = 0;
    while i < hs.len()
        invariant
            i <= hs@.len(),
            hs@ == req.headers@,
            first_header(hs@.take(i as int), "host"@) is None,
        decreases hs.len() - i,
    {
        assert(hs@.take(i as int + 1).drop_last() =~= hs@.take(i as int));
        if lowercase_text(hs[i].name.as_str()) == text("host") {
            proof {
                lemma_first_header_prefix(hs@, i as int + 1, "host"@);
            }
            return parse_tenant_from_hostname(hs[i].value.as_str());
        }
        i += 1;
    }
    assert(hs@.take(hs@.len() as int) =~= hs@);
    None
}

proof fn lemma_first_header_prefix(hs: Seq<HttpHeader>, k: int, name: Seq<char>)
    requires
        0 < k <= hs.len(),
        first_header(hs.take(k - 1), name) is None,
        lowercase(hs[k - 1].name@) == name,
    ensures
        first_header(hs, name) == Some(k - 1),
    decreases hs.len(),
{
    assert(hs.take(k).drop_last() =~= hs.take(k - 1));
    assert(first_header(hs.take(k), name) == Some(k - 1));
    if k < hs.len() {
        assert(hs.drop_last().take(k) =~= hs.take(k));
        assert(hs.drop_last().take(k - 1) =~= hs.take(k - 1));
        assert(hs.drop_last()[k - 1] == hs[k - 1]);
        lemma_first_header_prefix(hs.drop_last(), k, name);
    } else {
        assert(hs.take(k) =~= hs);
    }
}

/// The first X-Tenant-ID header with a non-blank value, trimmed.
pub open spec fn tenant_from_tenant_header(hs: Seq<HttpHeader>) -> Option<Seq<char>>
    decreases hs.len(),
{
    if hs.len() == 0 {
        None
    } else {
        match tenant_from_tenant_header(hs.drop_last()) {
            Some(t) => Some(t),
            None => if lowercase(hs.last().name@) == "x-tenant-id"@ && trimmed(hs.last().value@).len() > 0 {
                Some(trimmed(hs.last().value@))
            } else {
                None
            },
        }
    }
}

proof fn lemma_tenant_header_prefix(hs: Seq<HttpHeader>, k: int)
    requires
        0 <= k <= hs.len(),
        tenant_from_tenant_header(hs.take(k)) is Some,
    ensures
        tenant_from_tenant_header(hs) == tenant_from_tenant_header(hs.take(k)),
    decreases hs.len(),
{
    if k < hs.len() {
        assert(hs.drop_last().take(k) =~= hs.take(k));
        lemma_tenant_header_prefix(hs.drop_last(), k);
    } else {
        assert(hs.take(k) =~= hs);
    }
}

/// The tenant named by an X-Tenant-ID header.
pub fn extract_from_tenant_header(req: &HttpRequest) -> (r: Option<String>)
    ensures
        match r {
            Some(t) => tenant_from_tenant_header(req.headers@) == Some(t@),
            None => tenant_from_tenant_header(req.headers@) is None,
        },
{
    let hs = &req.headers;
    let mut i: usize = 0;
    while i < hs.len()
        invariant
            i <= hs@.len(),
            hs@ == req.headers@,
            tenant_from_tenant_header(hs@.take(i as int)) is None,
        decreases hs.len() - i,
    {
        assert(hs@.take(i as int + 1).drop_last() =~= hs@.take(i as int));
        if lowercase_text(hs[i].name.as_str()) == text("x-tenant-id") {
            let t = trim_text(hs[i].value.as_str());
            if t.as_str().unicode_len() > 0 {
                proof {
                    lemma_tenant_header_prefix(hs@, i as int + 1);
                }
                return Some(t);
            }
        }
        i += 1;
    }
    assert(hs@.take(hs@.len() as int) =~= hs@);
    None
}

/// The non-empty texts of `ps`, in order.
pub open spec fn non_empty(ps: Seq<Seq<char>>) -> Seq<Seq<char>>
    decreases ps.len(),
{
    if ps.len() == 0 {
        seq![]
    } else if ps.last().len() > 0 {
        non_empty(ps.drop_last()).push(ps.last())
    } else {
        non_empty(ps.drop_last())
    }
}

/// Value of the first pair whose key is `key`.
pub open spec fn first_value(ps: Seq<(Seq<char>, Seq<char>)>, key: Seq<char>) -> Option<Seq<char>>
    decreases ps.len(),
{
    if ps.len() == 0 {
        None
    } else {
        match first_value(ps.drop_last(), key) {
            Some(v) => Some(v),
            None => if ps.last().0 == key { Some(ps.last().1) } else { None },
        }
    }
}

proof fn lemma_first_value_prefix(ps: Seq<(Seq<char>, Seq<char>)>, k: int, key: Seq<char>)
    requires
        0 <= k <= ps.len(),
        first_value(ps.take(k), key) is Some,
    ensures
        first_value(ps, key) == first_value(ps.take(k), key),
    decreases ps.len(),
{
    if k < ps.len() {
        assert(ps.drop_last().take(k) =~= ps.take(k));
        lemma_first_value_prefix(ps.drop_last(), k, key);
    } else {
        assert(ps.take(k) =~= ps);
    }
}

/// The tenant named by a request path: a `tenant` query parameter, else a
/// path of the form `/tenant/<id>/...`.
pub open spec fn tenant_of_path(url: Seq<char>) -> Option<Seq<char>> {
    let q = url_query("http://dummy.com"@ + url);
    let segs = non_empty(pieces(url, '/'));
    if q is Some && first_value(q->Some_0, "tenant"@) is Some {
        first_value(q->Some_0, "tenant"@)
    } else if segs.len() >= 2 && segs[0] == "tenant"@ {
        Some(segs[1])
    } else {
        None
    }
}

fn non_empty_texts(v: &Vec<String>) -> (r: Vec<String>)
    ensures
        texts_are(r@, non_empty(Seq::new(v@.len(), |i: int| v@[i]@))),
{
    let ghost all = Seq::new(v@.len(), |i: int| v@[i]@);
    let mut r: Vec<String> = Vec::new();
    let mut i: usize = 0;
    while i < v.len()
        invariant
            i <= v@.len(),
            all == Seq::new(v@.len(), |i: int| v@[i]@),
            texts_are(r@, non_empty(all.take(i as int))),
        decreases v.len() - i,
    {
        assert(all.take(i as int + 1).drop_last() =~= all.take(i as int));
        assert(all.take(i as int + 1).last() == v@[i as int]@);
        if v[i].as_str().unicode_len() > 0 {
            r.push(v[i].clone());
        }
        i += 1;
    }
    assert(all.take(v@.len() as int) =~= all);
    r
}

/// The tenant named by the request's path or query.
pub fn extract_from_url_path(url: &str) -> (r: Option<String>)
    ensures
        match r {
            Some(t) => tenant_of_path(url@) == Some(t@),
            None => tenant_of_path(url@) is None,
        },
{
    let full = join2("http://dummy.com", url);
    if let Some(pairs) = parse_query_pairs(full.as_str()) {
        let ghost pt = pair_texts(pairs@);
        let mut i: usize = 0;
        while i < pairs.len()
            invariant
                i <= pairs@.len(),
                pt == pair_texts(pairs@),
                full@ == "http://dummy.com"@ + url@,
                url_query(full@) == Some(pt),
                first_value(pt.take(i as int), "tenant"@) is None,
            decreases pairs.len() - i,
        {
            assert(pt.take(i as int + 1).drop_last() =~= pt.take(i as int));
            assert(pt.take(i as int + 1).last() == (pairs@[i as int].0@, pairs@[i as int].1@));
            if pairs[i].0 == text("tenant") {
                assert(first_value(pt.take(i as int + 1), "tenant"@) == Some(pairs@[i as int].1@));
                proof {
                    lemma_first_value_prefix(pt, i as int + 1, "tenant"@);
                }
                return Some(pairs[i].1.clone());
            }
            i += 1;
        }
        assert(pt.take(pt.len() as int) =~= pt);
    }
    let parts = split_text(url, '/');
    let segs = non_empty_texts(&parts);
    proof {
        assert(Seq::new(parts@.len(), |i: int| parts@[i]@) =~= pieces(url@, '/'));
    }
    if segs.len() >= 2 && segs[0] == text("tenant") {
        Some(segs[1].clone())
    } else {
        None
    }
}

/// The tenant a request is addressed to: by its Host header, else its
/// X-Tenant-ID header, else its path or query.
pub open spec fn tenant_of_request(req: HttpRequest) -> Option<Seq<char>> {
    if tenant_from_host_header(req) is Some {
        tenant_from_host_header(req)
    } else if tenant_from_tenant_header(req.headers@) is Some {
        tenant_from_tenant_header(req.headers@)
    } else {
        tenant_of_path(req.url@)
    }
}

/// The tenant a request is addressed to, if it names one.
pub fn extract_tenant_from_request(req: &HttpRequest) -> (r: Option<String>)
    ensures
        match r {
            Some(t) => tenant_of_request(*req) == Some(t@),
            None => tenant_of_request(*req) is None,
        },
{
    if let Some(t) = extract_from_host_header(req) {
        return Some(t);
    }
    if let Some(t) = extract_from_tenant_header(req) {
        return Some(t);
    }
    extract_from_url_path(req.url.as_str())
}

/// A tenant identifier in a request: 3 to 63 characters, alphanumeric at
/// both ends, and alphanumeric, `-` or `_` throughout.
pub open spec fn valid_tenant_id(t: Seq<char>) -> bool {
    &&& 3 <= t.len() <= 63
    &&& alphanumeric(t[0])
    &&& alphanumeric(t[t.len() - 1])
    &&& forall|i: int| 0 <= i < t.len() ==> (alphanumeric(#[trigger] t[i]) || t[i] == '-' || t[i] == '_')
}

/// Whether `tenant_id` is a well-formed tenant identifier.
pub fn is_valid_tenant_id(tenant_id: &str) -> (r: bool)
    ensures
        r == valid_tenant_id(tenant_id@),
{
    let n = tenant_id.unicode_len();
    if n < 3 || n > 63 {
        return false;
    }
    if !crate::utils::char_is_alphanumeric(tenant_id.get_char(0)) || !crate::utils::char_is_alphanumeric(tenant_id.get_char(n - 1)) {
        return false;
    }
    let mut i: usize = 0;
    while i < n
        invariant
            n == tenant_id@.len(),
            i <= n,
            forall|j: int| 0 <= j < i ==> (alphanumeric(#[trigger] tenant_id@[j]) || tenant_id@[j] == '-' || tenant_id@[j] == '_'),
        decreases n - i,
    {
        let c = tenant_id.get_char(i);
        if !(crate::utils::char_is_alphanumeric(c) || c == '-' || c == '_') {
            return false;
        }
        i += 1;
    }
    true
}

/// Where an inbound request goes.
#[derive(Debug, Clone, PartialEq, Eq)]
pub enum RouteDecision {
    /// The request names no tenant: serve the landing page.
    Landing,
    /// The request names a malformed tenant identifier.
    BadTenant(String),
    /// No instance serves the named tenant.
    UnknownTenant(String),
    /// Forward to the instance that serves the tenant.
    Forward { tenant: String, canister_id: String },
}

/// Resolves an inbound request: the tenant it names, looked up as a
/// subdomain in the routing table.
pub fn route_request(router: &RouterState, req: &HttpRequest) -> (r: RouteDecision)
    requires
        router.wf(),
    ensures
        tenant_of_request(*req) is None <==> r is Landing,
        r is BadTenant ==> Some(r->BadTenant_0@) == tenant_of_request(*req) && !valid_tenant_id(r->BadTenant_0@),
        r is UnknownTenant ==> Some(r->UnknownTenant_0@) == tenant_of_request(*req) && valid_tenant_id(r->UnknownTenant_0@) && !subdomain_taken(router.routes(), r->UnknownTenant_0@),
        r is Forward ==> Some(r->tenant@) == tenant_of_request(*req) && valid_tenant_id(r->tenant@)
            && routes_to(router.routes(), r->tenant@, r->canister_id@),
        tenant_of_request(*req) is Some && valid_tenant_id(tenant_of_request(*req)->Some_0) ==> (r is Forward <==> subdomain_taken(router.routes(), tenant_of_request(*req)->Some_0)),
{
    let tenant = match extract_tenant_from_request(req) {
        Some(t) => t,
        None => {
            return RouteDecision::Landing;
        },
    };
    if !is_valid_tenant_id(tenant.as_str()) {
        return RouteDecision::BadTenant(tenant);
    }
    match router.get_tenant_canister(tenant.as_str()) {
        Ok(canister_id) => RouteDecision::Forward { tenant, canister_id },
        Err(_) => RouteDecision::UnknownTenant(tenant),
    }
}

} // verus!
