//! The provider's answer as data, and the state machine of one provider call.

use vstd::prelude::*;
use crate::Config;
use crate::error::Failure;

verus! {

/// One named group of metadata records in the provider's answer.
#[derive(Debug, Clone)]
pub struct Category {
    pub name: String,
    pub records: Vec<Query>,
}

/// What the provider returned: metadata by category, and the result items.
#[derive(Debug, Clone)]
pub struct List {
    pub queries: Vec<Category>,
    pub items: Vec<Item>,
}

/// Whether no two categories have the same name.
pub open spec fn names_distinct(queries: Seq<Category>) -> bool {
    forall|i: int, j: int|
        0 <= i < j < queries.len() ==> (#[trigger] queries[i]).name@ != (#[trigger] queries[j]).name@
}

impl List {
    /// The categories are a mapping: each name occurs once. An answer that was
    /// decoded from a JSON object is such a list; the functions that read a
    /// list do not ask for it, and take the first category of a name.
    pub open spec fn is_mapping(&self) -> bool {
        names_distinct(self.queries@)
    }
}

#[derive(Debug, Clone)]
pub struct Query {
    pub title: Option<String>,
    pub total_results: Option<String>,
    pub search_terms: Option<String>,
    pub start_index: Option<u32>,
    pub count: Option<u32>,
}

#[derive(Debug, Clone)]
pub struct Item {
    pub title: String,
    pub link: String,
    pub snippet: String,
}

/// The text of `base` with the pair `name=value` appended to its query, as the
/// URL serializer writes it; `None` where `base` is no URL.
pub uninterp spec fn url_with_pair(base: Seq<char>, name: Seq<char>, value: Seq<char>) -> Option<
    Seq<char>,
>;

/// `url::Url::parse` on `base`, then `query_pairs_mut().append_pair(name, value)`,
/// then the URL's text. The contract only gives the outcome its name: the
/// serializer's percent-encoding is not restated.
#[verifier::external_body]
fn append_query_pair(base: &str, name: &str, value: &str) -> (r: Option<String>)
    ensures
        r is Some == url_with_pair(base@, name@, value@) is Some,
        r matches Some(s) ==> url_with_pair(base@, name@, value@) == Some(s@),
{
    match url::Url::parse(base) {
        Ok(mut u) => {
            u.query_pairs_mut().append_pair(name, value);
            Some(u.into())
        },
        Err(_) => None,
    }
}

/// The address of the provider's search endpoint.
pub open spec fn endpoint() -> Seq<char> {
    "https://www.googleapis.com/customsearch/v1"@
}

/// The provider address for one query: the endpoint with the pairs `key`, `cx`
/// and `q` appended in this order.
pub open spec fn search_url(key: Seq<char>, engine: Seq<char>, word: Seq<char>) -> Option<
    Seq<char>,
> {
    match url_with_pair(endpoint(), "key"@, key) {
        Some(a) => match url_with_pair(a, "cx"@, engine) {
            Some(b) => url_with_pair(b, "q"@, word),
            None => None,
        },
        None => None,
    }
}

/// Builds the provider address for `word` with the credentials of `config`.
pub fn request_url(config: &Config, word: &str) -> (r: Option<String>)
    ensures
        r is Some == search_url(config.api_key@, config.custom_engine_id@, word@) is Some,
        r matches Some(s) ==> search_url(config.api_key@, config.custom_engine_id@, word@)
            == Some(s@),
{
    match append_query_pair(
        "https://www.googleapis.com/customsearch/v1",
        "key",
        config.api_key.as_str(),
    ) {
        Some(a) => match append_query_pair(a.as_str(), "cx", config.custom_engine_id.as_str()) {
            Some(b) => append_query_pair(b.as_str(), "q", word),
            None => None,
        },
        None => None,
    }
}

/// One provider call. It starts out `Configuring`, owns the body buffer while
/// `Performing`, and is `Done` once it has handed out its outcome.
pub enum ListFuture {
    Configuring { word: String, config: Config },
    Performing { dump: Vec<u8> },
    /// The outcome was handed out: nothing may poll this call again.
    Done,
}

/// What the transport reports of the transfer in flight.
#[derive(Debug, Clone, Copy, PartialEq, Eq, Structural)]
pub enum Transfer {
    /// Nothing to report, or no transfer was asked for yet.
    Idle,
    /// The transfer is still running.
    Pending,
    /// The transfer ended with this response status.
    Finished { code: u32 },
    /// The transfer could not be started or broke off.
    Failed,
}

/// What a poll asks of, or hands to, the one who drives the call.
pub enum Poll {
    /// Start a `GET` of this address, and feed the body to `receive`.
    Request(String),
    /// Nothing yet: poll again when the transport has news.
    NotReady,
    /// The complete body of a successful answer.
    Ready(Vec<u8>),
    Failed(Failure),
}

/// Whether a response status counts as success.
pub open spec fn is_success(code: u32) -> bool {
    200 <= code <= 299
}

impl ListFuture {
    pub open spec fn is_done(&self) -> bool {
        self is Done
    }

    /// The body received so far while a transfer is in flight, empty otherwise.
    pub open spec fn buffered(&self) -> Seq<u8> {
        match *self {
            ListFuture::Performing { dump } => dump@,
            _ => Seq::empty(),
        }
    }

    /// The write sink of the transfer: appends `data` to the buffer of a call in
    /// flight and reports how many bytes it took, which is all of them. A call
    /// that is not in flight takes the bytes and drops them.
    pub fn receive(&mut self, data: &[u8]) -> (taken: usize)
        ensures
            taken == data@.len(),
            match *old(self) {
                ListFuture::Performing { dump } => *final(self) is Performing && final(self).buffered() == dump@ + data@,
                ListFuture::Configuring { .. } => *final(self) == *old(self),
                ListFuture::Done => *final(self) == *old(self),
            },
    {
        match self {
            ListFuture::Performing { dump } => {
                dump.extend_from_slice(data);
                assert(dump@ =~= old(self).buffered() + data@);
            },
            _ => {},
        }
        data.len()
    }

    /// Leaves `Configuring` with the address that was built for the call: with
    /// one, the call asks for the transfer and performs with an empty buffer;
    /// without one, it has failed as a transport error.
    pub fn start(&mut self, address: Option<String>) -> (out: Poll)
        requires
            *old(self) is Configuring,
        ensures
            match address {
                Some(url) => {
                    &&& out == Poll::Request(url)
                    &&& *final(self) is Performing
                    &&& final(self).buffered().len() == 0
                },
                None => out == Poll::Failed(Failure::Transport) && final(self).is_done(),
            },
    {
        match address {
            Some(url) => {
                *self = ListFuture::Performing { dump: Vec::new() };
                Poll::Request(url)
            },
            None => {
                *self = ListFuture::Done;
                Poll::Failed(Failure::Transport)
            },
        }
    }

    /// One step of the call.
    ///
    /// A call that is `Configuring` asks for the transfer and starts to perform,
    /// whatever `news` says; without an address it fails as a transport error.
    /// A call that is `Performing` stays so while the transfer is idle or
    /// pending; when the transfer has ended it is `Done`, and hands out the
    /// buffer on a status of success, the status as an error otherwise.
    /// So a call asks for a transfer at most once, on its first step, and
    /// never goes back to `Configuring`.
    pub fn poll(&mut self, news: Transfer) -> (out: Poll)
        requires
            !old(self).is_done(),
        ensures
            out is Request ==> *old(self) is Configuring,
            !(*final(self) is Configuring),
            match *old(self) {
                ListFuture::Configuring { word, config } => match search_url(
                    config.api_key@,
                    config.custom_engine_id@,
                    word@,
                ) {
                    Some(url) => {
                        &&& out matches Poll::Request(u)
                        &&& u@ == url
                        &&& *final(self) is Performing
                        &&& final(self).buffered().len() == 0
                    },
                    None => out == Poll::Failed(Failure::Transport) && final(self).is_done(),
                },
                ListFuture::Performing { dump } => match news {
                    Transfer::Idle | Transfer::Pending => out is NotReady && *final(self) == *old(self),
                    Transfer::Failed => out == Poll::Failed(Failure::Transport) && final(self).is_done(),
                    Transfer::Finished { code } => final(self).is_done() && if is_success(code) {
                        out matches Poll::Ready(body) && body@ == dump@
                    } else {
                        out == Poll::Failed(Failure::Status(code))
                    },
                },
                ListFuture::Done => false,
            },
    {
        let mut state = ListFuture::Done;
        std::mem::swap(self, &mut state);
        match state {
            ListFuture::Done => Poll::NotReady,
            ListFuture::Configuring { word, config } => {
                let address = request_url(&config, word.as_str());
                *self = ListFuture::Configuring { word, config };
                self.start(address)
            },
            ListFuture::Performing { dump } => {
                match news {
                    Transfer::Idle | Transfer::Pending => {
                        *self = ListFuture::Performing { dump };
                        Poll::NotReady
                    },
                    Transfer::Failed => Poll::Failed(Failure::Transport),
                    Transfer::Finished { code } => {
                        if 200 <= code && code <= 299 {
                            Poll::Ready(dump)
                        } else {
                            Poll::Failed(Failure::Status(code))
                        }
                    },
                }
            },
        }
    }
}

/// A provider call for `word`, not yet started.
pub fn list(word: String, config: Config) -> (call: ListFuture)
    ensures
        call == (ListFuture::Configuring { word, config }),
{
    ListFuture::Configuring { word, config }
}

} // verus!
