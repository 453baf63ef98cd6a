//! Base hosts, the probe and callback URLs built on them, and the query of
//! an incoming request.
use vstd::prelude::*;
use vstd::string::*;
use crate::text::{chars_of, decimal, decimal_of, string_of};

verus! {

/// Whether `text` parses as an absolute URL.
pub uninterp spec fn base_parses(text: Seq<char>) -> bool;

/// The URL that results from `base` with its path set to `path` and the
/// key-value pairs of `query` appended to its query, form-encoded, in order.
pub uninterp spec fn built_url(
    base: Seq<char>,
    path: Seq<char>,
    query: Seq<(Seq<char>, Seq<char>)>,
) -> Seq<char>;

/// The form-decoded query pairs of a request target taken relative to a
/// local base URL, in order; `None` where the target does not resolve.
pub uninterp spec fn request_query(target: Seq<char>) -> Option<Seq<(Seq<char>, Seq<char>)>>;

/// Relies on `url::Url::parse`: whether the text is accepted as an absolute URL.
#[verifier::external_body]
fn parses_as_base(text: &str) -> (r: bool)
    ensures
        r == base_parses(text@),
{
    url::Url::parse(text).is_ok()
}

/// Relies on `url::Url::parse`, `Url::set_path`, `Url::query_pairs_mut` with
/// `append_pair`, and the URL's serialization: the base with a new path and
/// two query pairs. The base parses, so the parse cannot fail.
#[verifier::external_body]
fn build_url(base: &str, path: &str, k1: &str, v1: &str, k2: &str, v2: &str) -> (r: String)
    requires
        base_parses(base@),
    ensures
        r@ == built_url(base@, path@, seq![(k1@, v1@), (k2@, v2@)]),
{
    let mut url = url::Url::parse(base).unwrap();
    url.set_path(path);
    url.query_pairs_mut().append_pair(k1, v1).append_pair(k2, v2);
    url.to_string()
}

/// Relies on `url::Url::join` on the base `http://localhost` and on
/// `Url::query_pairs`: the decoded query pairs of a request target.
#[verifier::external_body]
fn query_pairs_of(target: &str) -> (r: Option<Vec<(String, String)>>)
    ensures
        r.deep_view() == request_query(target@),
{
    let base = url::Url::parse("http://localhost").unwrap();
    match base.join(target) {
        Ok(url) => Some(url.query_pairs().map(|(k, v)| (k.into_owned(), v.into_owned())).collect()),
        Err(_) => None,
    }
}

/// A host that parses as an absolute URL, on which probe and callback URLs
/// are built.
pub struct BaseUrl {
    text: String,
}

impl View for BaseUrl {
    type V = Seq<char>;

    closed spec fn view(&self) -> Seq<char> {
        self.text@
    }
}

impl BaseUrl {
    #[verifier::type_invariant]
    closed spec fn inv(&self) -> bool {
        base_parses(self.text@)
    }

    /// Accepts `text` where it parses as an absolute URL.
    pub fn parse(text: &str) -> (r: Option<BaseUrl>)
        ensures
            r is Some <==> base_parses(text@),
            r matches Some(b) ==> b@ == text@,
    {
        if parses_as_base(text) {
            Some(BaseUrl { text: String::from_str(text) })
        } else {
            None
        }
    }

    /// The host as it was given.
    pub fn as_str(&self) -> (r: &str)
        ensures
            r@ == self@,
    {
        self.text.as_str()
    }
}

/// The URL that a matched candidate calls back to: path `callback`, with the
/// candidate token and then the session identifier in its query.
pub open spec fn callback_url(host: Seq<char>, id: Seq<char>, token: Seq<char>) -> Seq<char> {
    built_url(host, "callback"@, seq![("token"@, token), ("id"@, id)])
}

/// The URL of a polling probe: path `polling`, with the probe index and then
/// the session identifier in its query.
pub open spec fn polling_url(host: Seq<char>, id: Seq<char>, index: nat) -> Seq<char> {
    built_url(host, "polling"@, seq![("len"@, decimal(index)), ("id"@, id)])
}

/// Builds the callback URL for a candidate token of a session.
pub fn craft_callback_url(host: &BaseUrl, id: &str, token: &str) -> (r: String)
    ensures
        r@ == callback_url(host@, id@, token@),
{
    proof { use_type_invariant(host); }
    build_url(host.as_str(), "callback", "token", token, "id", id)
}

/// Builds the URL of the polling probe with index `index` for a session.
pub fn craft_polling_url(host: &BaseUrl, id: &str, index: u32) -> (r: String)
    ensures
        r@ == polling_url(host@, id@, index as nat),
{
    proof { use_type_invariant(host); }
    let digits = string_of(&decimal_of(index));
    build_url(host.as_str(), "polling", "len", digits.as_str(), "id", id)
}

/// The value of the last pair with key `key`, as a map filled in order
/// would hold it.
pub open spec fn param_of(pairs: Seq<(Seq<char>, Seq<char>)>, key: Seq<char>) -> Option<Seq<char>>
    decreases pairs.len(),
{
    if pairs.len() == 0 {
        None
    } else if pairs.last().0 == key {
        Some(pairs.last().1)
    } else {
        param_of(pairs.drop_last(), key)
    }
}

/// Whether two texts hold the same characters.
pub fn same_text(a: &str, b: &str) -> (r: bool)
    ensures
        r == (a@ == b@),
{
    let x = chars_of(a);
    let y = chars_of(b);
    if x.len() != y.len() {
        return false;
    }
    let mut i: usize = 0;
    while i < x.len()
        invariant
            x@ == a@,
            y@ == b@,
            x@.len() == y@.len(),
            i <= x@.len(),
            forall|j: int| 0 <= j < i ==> x@[j] == y@[j],
        decreases x@.len() - i,
    {
        if x[i] != y[i] {
            return false;
        }
        i = i + 1;
    }
    assert(x@ =~= y@);
    true
}

/// The query parameters of a request, in the order they came.
pub struct QueryParams {
    pairs: Vec<(String, String)>,
}

impl View for QueryParams {
    type V = Seq<(Seq<char>, Seq<char>)>;

    closed spec fn view(&self) -> Seq<(Seq<char>, Seq<char>)> {
        self.pairs.deep_view()
    }
}

impl QueryParams {
    /// The value of parameter `key`; where it comes more than once, the last.
    pub fn get(&self, key: &str) -> (r: Option<String>)
        ensures
            r.deep_view() == param_of(self@, key@),
    {
        let mut i: usize = self.pairs.len();
        assert(self@.take(i as int) =~= self@);
        while i > 0
            invariant
                i <= self@.len(),
                self@.len() == self.pairs@.len(),
                param_of(self@, key@) == param_of(self@.take(i as int), key@),
            decreases i,
        {
            let ghost t = self@.take(i as int);
            assert(t.drop_last() =~= self@.take(i - 1));
            assert(t.last() == self@[i - 1]);
            assert(self@[i - 1] == self.pairs@[i - 1].deep_view());
            i = i - 1;
            if same_text(self.pairs[i].0.as_str(), key) {
                return Some(self.pairs[i].1.clone());
            }
        }
        assert(self@.take(0) =~= Seq::<(Seq<char>, Seq<char>)>::empty());
        None
    }
}

/// Reads the query parameters of a request target (path and query).
pub fn parse_query_params(target: &str) -> (r: Option<QueryParams>)
    ensures
        r is Some <==> request_query(target@) is Some,
        r matches Some(q) ==> request_query(target@) == Some(q@),
{
    match query_pairs_of(target) {
        Some(pairs) => Some(QueryParams { pairs }),
        None => None,
    }
}

} // verus!
