//! The front of the service: from a request path to a response, by way of the
//! cache and, on a miss, one provider call.

use vstd::prelude::*;
use vstd::string::StringExecFns;
use lru_cache::LruCache;
use crate::Config;
use crate::cache::{
    cache_entries, cache_limit, cache_lookup, cache_new, cache_store, lemma_stored,
    lemma_touched, stored, touched, value_of, well_formed, Entry,
};
use crate::error::Failure;
use crate::rss::{document_of, document_text, render, renderable};
use crate::search::{list, List, ListFuture};

verus! {

/// One pair of a query string, decoded.
#[derive(Debug)]
pub struct Pair {
    pub name: String,
    pub value: String,
}

/// A pair as plain text: name, value.
pub type PairText = (Seq<char>, Seq<char>);

pub open spec fn pairs_text(pairs: Seq<Pair>) -> Seq<PairText> {
    Seq::new(pairs.len(), |i: int| (pairs[i].name@, pairs[i].value@))
}

/// The decoded pairs of the query string of `address`, in their order; `None`
/// where `address` is no URL.
pub uninterp spec fn url_query(address: Seq<char>) -> Option<Seq<PairText>>;

/// `url::Url::parse` on `address`, then `query_pairs`, each pair made owned.
/// The contract only gives the outcome its name: URL parsing and percent
/// decoding are not restated.
#[verifier::external_body]
fn query_pairs(address: &str) -> (r: Option<Vec<Pair>>)
    ensures
        r is Some == url_query(address@) is Some,
        r matches Some(pairs) ==> url_query(address@) == Some(pairs_text(pairs@)),
{
    match url::Url::parse(address) {
        Ok(u) => Some(
            u.query_pairs().map(|(k, v)| Pair { name: k.into_owned(), value: v.into_owned() }).collect(),
        ),
        Err(_) => None,
    }
}

/// The value of the last pair called `name`.
pub open spec fn last_value(pairs: Seq<PairText>, name: Seq<char>) -> Option<Seq<char>>
    decreases pairs.len(),
{
    if pairs.len() == 0 {
        None
    } else if pairs.last().0 == name {
        Some(pairs.last().1)
    } else {
        last_value(pairs.drop_last(), name)
    }
}

/// The query that a request asks for: the value of its last `q`, unless the
/// address did not parse, has no `q`, or has an empty one.
pub open spec fn wanted(parsed: Option<Seq<PairText>>) -> Option<Seq<char>> {
    match parsed {
        None => None,
        Some(pairs) => match last_value(pairs, "q"@) {
            None => None,
            Some(word) => if word.len() == 0 {
                None
            } else {
                Some(word)
            },
        },
    }
}

/// The address under which a request path is parsed.
pub open spec fn address_of(path: Seq<char>) -> Seq<char> {
    "http://dummy.example.com/"@ + path
}

/// Finds the value of the last pair called `name`.
pub fn find_param(pairs: &Vec<Pair>, name: &String) -> (r: Option<String>)
    ensures
        r is Some == last_value(pairs_text(pairs@), name@) is Some,
        r matches Some(v) ==> last_value(pairs_text(pairs@), name@) == Some(v@),
{
    let mut i: usize = pairs.len();
    assert(pairs_text(pairs@).take(i as int) =~= pairs_text(pairs@));
    while i > 0
        invariant
            i <= pairs@.len(),
            last_value(pairs_text(pairs@), name@) == last_value(
                pairs_text(pairs@).take(i as int),
                name@,
            ),
        decreases i,
    {
        let ghost front = pairs_text(pairs@).take(i as int);
        assert(front.last() == (pairs@[i - 1].name@, pairs@[i - 1].value@));
        assert(front.drop_last() =~= pairs_text(pairs@).take(i - 1));
        i -= 1;
        if pairs[i].name == *name {
            return Some(pairs[i].value.clone());
        }
    }
    None
}

/// Picks the query out of a parsed address.
pub fn query_word(parsed: Option<Vec<Pair>>) -> (r: Option<String>)
    ensures
        r is Some == wanted(parsed_text(parsed)) is Some,
        r matches Some(w) ==> wanted(parsed_text(parsed)) == Some(w@),
{
    match parsed {
        None => None,
        Some(pairs) => {
            let q = String::from_str("q");
            match find_param(&pairs, &q) {
                None => None,
                Some(word) => {
                    if word.as_str().unicode_len() == 0 {
                        None
                    } else {
                        Some(word)
                    }
                },
            }
        },
    }
}

pub open spec fn parsed_text(parsed: Option<Vec<Pair>>) -> Option<Seq<PairText>> {
    match parsed {
        None => None,
        Some(pairs) => Some(pairs_text(pairs@)),
    }
}

/// What the service answers.
#[derive(Debug)]
pub struct HttpResponse {
    pub status: u16,
    pub content_type: Option<String>,
    pub body: String,
}

impl HttpResponse {
    /// An answer of the given status without content type or body.
    pub open spec fn is_bare(&self, status: u16) -> bool {
        &&& self.status == status
        &&& self.content_type is None
        &&& self.body@.len() == 0
    }

    /// A 200 answer that carries `text` as `text/xml`.
    pub open spec fn is_feed(&self, text: Seq<char>) -> bool {
        &&& self.status == 200
        &&& self.content_type matches Some(t) && t@ == "text/xml"@
        &&& self.body@ == text
    }

    pub fn bare(status: u16) -> (r: HttpResponse)
        ensures
            r.is_bare(status),
    {
        HttpResponse { status, content_type: None, body: String::new() }
    }

    pub fn feed(text: String) -> (r: HttpResponse)
        ensures
            r.is_feed(text@),
    {
        HttpResponse { status: 200, content_type: Some(String::from_str("text/xml")), body: text }
    }

    /// The answer to a failed request: its status, and nothing of the failure.
    pub fn failure(e: Failure) -> (r: HttpResponse)
        ensures
            r.is_bare(e.spec_status()),
    {
        HttpResponse::bare(e.status())
    }

    /// The reason phrase that goes with the status.
    pub fn reason(&self) -> (s: &'static str)
        ensures
            s@ == if self.status == 200 {
                "OK"@
            } else if self.status == 400 {
                "Bad Request"@
            } else {
                "Internal Error"@
            },
    {
        if self.status == 200 {
            "OK"
        } else if self.status == 400 {
            "Bad Request"
        } else {
            "Internal Error"
        }
    }
}

/// What the service does with a request: answer at once, or call the provider
/// first.
pub enum Action {
    Respond(HttpResponse),
    /// Drive `call`, then hand its outcome to `complete` under `word`.
    Fetch { word: String, call: ListFuture },
}

/// The service: its configuration and the cache of rendered documents.
pub struct SearchRssServer {
    config: Config,
    cache: LruCache<String, String>,
}

fn copy_config(c: &Config) -> (r: Config)
    ensures
        r == *c,
{
    Config {
        api_key: c.api_key.clone(),
        custom_engine_id: c.custom_engine_id.clone(),
        port: c.port,
        cache_num: c.cache_num,
    }
}

impl SearchRssServer {
    /// The cached pairs, from the least to the most recently used.
    pub closed spec fn entries(&self) -> Seq<Entry> {
        cache_entries(self.cache)
    }

    /// The number of pairs that the cache may hold.
    pub closed spec fn limit(&self) -> nat {
        cache_limit(self.cache)
    }

    pub closed spec fn config(&self) -> Config {
        self.config
    }

    /// No query is cached twice, and the cache keeps to its limit.
    pub open spec fn wf(&self) -> bool {
        well_formed(self.entries(), self.limit())
    }

    /// A service with an empty cache of `config.cache_num` places.
    pub fn new(config: Config) -> (s: SearchRssServer)
        ensures
            s.wf(),
            s.entries().len() == 0,
            s.limit() == config.cache_num,
            s.config() == config,
    {
        let cache = cache_new(config.cache_num);
        SearchRssServer { config, cache }
    }

    /// The port to listen on.
    pub fn port(&self) -> (p: u16)
        ensures
            p == self.config().port,
    {
        self.config.port
    }

    /// Answers `query` from the cache, or says which provider call to make.
    ///
    /// A cached query is answered with its document, and becomes the most
    /// recently used; no call is made. A query that is not cached leaves the
    /// cache as it is and starts exactly one call, for this very text.
    pub fn get_or_fetch(&mut self, query: String) -> (act: Action)
        requires
            old(self).wf(),
        ensures
            final(self).wf(),
            final(self).limit() == old(self).limit(),
            final(self).config() == old(self).config(),
            match value_of(old(self).entries(), query@) {
                Some(text) => {
                    &&& act matches Action::Respond(r)
                    &&& r.is_feed(text)
                    &&& final(self).entries() == touched(old(self).entries(), query@)
                },
                None => {
                    &&& act == (Action::Fetch {
                        word: query,
                        call: ListFuture::Configuring { word: query, config: old(self).config() },
                    })
                    &&& final(self).entries() == old(self).entries()
                },
            },
    {
        proof {
            lemma_touched(self.entries(), self.limit(), query@);
        }
        match cache_lookup(&mut self.cache, &query) {
            Some(text) => Action::Respond(HttpResponse::feed(text)),
            None => {
                let call = list(query.clone(), copy_config(&self.config));
                Action::Fetch { word: query, call }
            },
        }
    }

    /// Routes a request whose address was parsed into `parsed`: without a
    /// query it is answered 400 and nothing else happens; with one, the cache
    /// decides.
    pub fn route(&mut self, parsed: Option<Vec<Pair>>) -> (act: Action)
        requires
            old(self).wf(),
        ensures
            final(self).wf(),
            final(self).limit() == old(self).limit(),
            final(self).config() == old(self).config(),
            routed(*old(self), wanted(parsed_text(parsed)), *final(self), act),
    {
        match query_word(parsed) {
            None => Action::Respond(HttpResponse::failure(Failure::Validation)),
            Some(word) => self.get_or_fetch(word),
        }
    }

    /// Handles the request for `path`: the path is parsed as the rest of an
    /// address, and the request routed by its query.
    pub fn call(&mut self, path: &str) -> (act: Action)
        requires
            old(self).wf(),
        ensures
            final(self).wf(),
            final(self).limit() == old(self).limit(),
            final(self).config() == old(self).config(),
            routed(*old(self), wanted(url_query(address_of(path@))), *final(self), act),
    {
        let address = String::from_str("http://dummy.example.com/").concat(path);
        let parsed = query_pairs(address.as_str());
        self.route(parsed)
    }

    /// Ends a request whose document was rendered, or failed to be: a text is
    /// cached under `word` and sent; a failure is answered 500 and leaves the
    /// cache as it is.
    pub fn settle(&mut self, word: String, rendered: Result<String, Failure>) -> (r: HttpResponse)
        requires
            old(self).wf(),
        ensures
            final(self).wf(),
            final(self).limit() == old(self).limit(),
            final(self).config() == old(self).config(),
            match rendered {
                Ok(text) => r.is_feed(text@) && final(self).entries() == stored(
                    old(self).entries(),
                    old(self).limit(),
                    word@,
                    text@,
                ),
                Err(e) => r.is_bare(500) && final(self).entries() == old(self).entries(),
            },
    {
        match rendered {
            Ok(text) => {
                proof {
                    lemma_stored(self.entries(), self.limit(), word@, text@);
                }
                cache_store(&mut self.cache, word, text.clone());
                HttpResponse::feed(text)
            },
            Err(_) => HttpResponse::bare(500),
        }
    }

    /// Ends the request for `word` with what its provider call gave: an
    /// answer that can be rendered is rendered, cached and sent; any failure,
    /// of the call or of the rendering, is answered 500 and leaves the cache
    /// as it is.
    pub fn complete(&mut self, word: String, fetched: Result<List, Failure>) -> (r: HttpResponse)
        requires
            old(self).wf(),
        ensures
            final(self).wf(),
            final(self).limit() == old(self).limit(),
            final(self).config() == old(self).config(),
            match fetched {
                Ok(answer) if renderable(answer) => r.is_feed(document_text(document_of(answer)))
                    && final(self).entries() == stored(
                    old(self).entries(),
                    old(self).limit(),
                    word@,
                    document_text(document_of(answer)),
                ),
                _ => r.is_bare(500) && final(self).entries() == old(self).entries(),
            },
    {
        let rendered = match fetched {
            Ok(answer) => render(answer),
            Err(e) => Err(e),
        };
        self.settle(word, rendered)
    }
}

/// How a request with the query `word` is routed, from the service `before`
/// to the service `after`.
pub open spec fn routed(
    before: SearchRssServer,
    word: Option<Seq<char>>,
    after: SearchRssServer,
    act: Action,
) -> bool {
    match word {
        None => {
            &&& act matches Action::Respond(r)
            &&& r.is_bare(400)
            &&& after.entries() == before.entries()
        },
        Some(query) => match value_of(before.entries(), query) {
            Some(text) => {
                &&& act matches Action::Respond(r)
                &&& r.is_feed(text)
                &&& after.entries() == touched(before.entries(), query)
            },
            None => {
                &&& act matches Action::Fetch { word, call }
                &&& word@ == query
                &&& call matches ListFuture::Configuring { word: asked, config }
                &&& asked@ == query
                &&& config == before.config()
                &&& after.entries() == before.entries()
            },
        },
    }
}

} // verus!
