use hirareca::decimal::{decimal_i64, decimal_u64, parse_u64};
use hirareca::error::{Failure, Field};
use hirareca::rss::{find_record, render, serialize, write_rss, write_value, Response};
use hirareca::search::{list, request_url, Category, Item, List, ListFuture, Poll, Query, Transfer};
use hirareca::server::{find_param, query_word, Action, HttpResponse, Pair, SearchRssServer};
use hirareca::Config;

fn config(cache_num: usize) -> Config {
    Config {
        api_key: "K".to_string(),
        custom_engine_id: "C".to_string(),
        port: 8080,
        cache_num,
    }
}

fn record(start: Option<u32>) -> Query {
    Query {
        title: Some("Search - rust".to_string()),
        total_results: Some("42".to_string()),
        search_terms: Some("rust".to_string()),
        start_index: start,
        count: Some(10),
    }
}

fn category(name: &str, records: Vec<Query>) -> Category {
    Category { name: name.to_string(), records }
}

fn answer(start: u32, next: u32) -> List {
    List {
        queries: vec![
            category("request", vec![record(Some(start))]),
            category("nextPage", vec![record(Some(next))]),
        ],
        items: vec![Item { title: "T".to_string(), link: "L".to_string(), snippet: "S".to_string() }],
    }
}

fn is_fetch(act: &Action, query: &str) -> bool {
    match act {
        Action::Fetch { word, call } => {
            word == query
                && matches!(call, ListFuture::Configuring { word: asked, .. } if asked == query)
        }
        Action::Respond(_) => false,
    }
}

fn reply(act: Action) -> HttpResponse {
    match act {
        Action::Respond(r) => r,
        Action::Fetch { .. } => panic!("a provider call was asked for"),
    }
}

fn store(server: &mut SearchRssServer, word: &str) -> HttpResponse {
    server.complete(word.to_string(), Ok(answer(1, 11)))
}

#[test]
fn renders_the_sample_answer() {
    let doc = Response::try_from(answer(1, 11)).unwrap();
    assert_eq!(doc.total_results, 42);
    assert_eq!(doc.start_index, 1);
    assert_eq!(doc.items_per_page, 10);
    assert_eq!(doc.title, "Search - rust");
    assert_eq!(doc.description, "Search - rust");
    assert_eq!(doc.link, "https://www.googleapis.com/customsearch/v1?q=rust");
    assert_eq!(doc.items.len(), 1);
    assert_eq!(doc.items[0].title, "T");
    assert_eq!(doc.items[0].link, "L");
    assert_eq!(doc.items[0].description, "S");
}

#[test]
fn items_keep_their_order() {
    let mut raw = answer(1, 11);
    raw.items.push(Item { title: "T2".to_string(), link: "L2".to_string(), snippet: "S2".to_string() });
    let doc = Response::try_from(raw).unwrap();
    assert_eq!(doc.items.len(), 2);
    assert_eq!(doc.items[0].title, "T");
    assert_eq!(doc.items[1].title, "T2");
    assert_eq!(doc.items[1].description, "S2");
}

#[test]
fn items_per_page_may_be_negative() {
    let doc = Response::try_from(answer(11, 1)).unwrap();
    assert_eq!(doc.items_per_page, -10);
    let text = serialize(doc).unwrap();
    assert!(text.contains("<opensearch:itemsPerPage>-10</opensearch:itemsPerPage>"));
}

#[test]
fn items_per_page_spans_the_whole_range() {
    let doc = Response::try_from(answer(u32::MAX, 0)).unwrap();
    assert_eq!(doc.items_per_page, -4294967295);
    let doc = Response::try_from(answer(0, u32::MAX)).unwrap();
    assert_eq!(doc.items_per_page, 4294967295);
}

#[test]
fn serializes_the_sample_document() {
    let doc = Response::try_from(answer(1, 11)).unwrap();
    let text = serialize(doc).unwrap();
    assert_eq!(
        text,
        "<?xml version=\"1.0\" encoding=\"UTF-8\"?>\
         <rss version=\"2.0\" xmlns:opensearch=\"http://a9.com/-/spec/opensearch/1.1/\">\
         <channel><title>Search - rust</title>\
         <link>https://www.googleapis.com/customsearch/v1?q=rust</link>\
         <description>Search - rust</description>\
         <opensearch:totalResults>42</opensearch:totalResults>\
         <opensearch:startIndex>1</opensearch:startIndex>\
         <opensearch:itemsPerPage>10</opensearch:itemsPerPage>\
         <item><title>T</title><link>L</link><description>S</description></item>\
         </channel></rss>"
    );
}

#[test]
fn serialized_text_is_escaped() {
    let mut raw = answer(1, 11);
    raw.items[0].snippet = "a < b & c".to_string();
    let text = serialize(Response::try_from(raw).unwrap()).unwrap();
    assert!(text.contains("<description>a &lt; b &amp; c</description>"));
}

#[test]
fn write_value_needs_no_document() {
    let mut w = xml::writer::EmitterConfig::new()
        .write_document_declaration(false)
        .create_writer(Vec::new());
    write_value(&mut w, Some("opensearch"), "startIndex", "7").unwrap();
    assert_eq!(
        String::from_utf8(w.into_inner()).unwrap(),
        "<opensearch:startIndex>7</opensearch:startIndex>"
    );
}

#[test]
fn missing_parts_are_named() {
    let mut raw = answer(1, 11);
    raw.queries.remove(1);
    assert_eq!(Response::try_from(raw).unwrap_err(), Failure::MissingField(Field::NextPage));

    let mut raw = answer(1, 11);
    raw.queries.remove(0);
    assert_eq!(Response::try_from(raw).unwrap_err(), Failure::MissingField(Field::Request));

    let mut raw = answer(1, 11);
    raw.queries[0].records.clear();
    assert_eq!(Response::try_from(raw).unwrap_err(), Failure::MissingField(Field::Request));

    let mut raw = answer(1, 11);
    raw.queries[0].records[0].title = None;
    assert_eq!(Response::try_from(raw).unwrap_err(), Failure::MissingField(Field::Title));

    let mut raw = answer(1, 11);
    raw.queries[0].records[0].search_terms = None;
    assert_eq!(Response::try_from(raw).unwrap_err(), Failure::MissingField(Field::SearchTerms));

    let mut raw = answer(1, 11);
    raw.queries[0].records[0].total_results = None;
    assert_eq!(Response::try_from(raw).unwrap_err(), Failure::MissingField(Field::TotalResults));

    let mut raw = answer(1, 11);
    raw.queries[0].records[0].start_index = None;
    assert_eq!(Response::try_from(raw).unwrap_err(), Failure::MissingField(Field::StartIndex));

    let mut raw = answer(1, 11);
    raw.queries[1].records[0].start_index = None;
    assert_eq!(Response::try_from(raw).unwrap_err(), Failure::MissingField(Field::NextStartIndex));
}

#[test]
fn total_results_must_be_a_number() {
    let mut raw = answer(1, 11);
    raw.queries[0].records[0].total_results = Some("many".to_string());
    assert_eq!(Response::try_from(raw).unwrap_err(), Failure::InvalidTotal);

    let mut raw = answer(1, 11);
    raw.queries[0].records[0].total_results = Some("18446744073709551616".to_string());
    assert_eq!(Response::try_from(raw).unwrap_err(), Failure::InvalidTotal);

    let mut raw = answer(1, 11);
    raw.queries[0].records[0].total_results = Some("18446744073709551615".to_string());
    assert_eq!(Response::try_from(raw).unwrap().total_results, u64::MAX);
}

#[test]
fn only_the_first_record_of_the_first_category_counts() {
    let queries = vec![
        category("other", vec![record(Some(5))]),
        category("request", vec![record(Some(1)), record(Some(2))]),
        category("request", vec![record(Some(3))]),
    ];
    assert_eq!(find_record(&queries, &"request".to_string()).unwrap().start_index, Some(1));
    assert!(find_record(&queries, &"Request".to_string()).is_none());
    assert!(find_record(&queries, &"nextPage".to_string()).is_none());
}

#[test]
fn field_names() {
    assert_eq!(Field::Request.name(), "request");
    assert_eq!(Field::NextPage.name(), "nextPage");
    assert_eq!(Field::NextStartIndex.name(), "nextPage.startIndex");
    assert_eq!(Field::TotalResults.name(), "request.totalResults");
}

#[test]
fn statuses_of_failures() {
    assert_eq!(Failure::Validation.status(), 400);
    assert_eq!(Failure::Transport.status(), 500);
    assert_eq!(Failure::Status(404).status(), 500);
    assert_eq!(Failure::Decode.status(), 500);
    assert_eq!(Failure::MissingField(Field::Title).status(), 500);
    assert_eq!(Failure::InvalidTotal.status(), 500);
    assert_eq!(Failure::Writer.status(), 500);
    assert_eq!(Failure::Encoding.status(), 500);
    let r = HttpResponse::failure(Failure::Validation);
    assert_eq!(r.status, 400);
    assert_eq!(r.reason(), "Bad Request");
    assert_eq!(r.body, "");
    assert_eq!(HttpResponse::failure(Failure::Decode).reason(), "Internal Error");
    assert_eq!(HttpResponse::feed("x".to_string()).reason(), "OK");
}

#[test]
fn request_url_carries_key_engine_and_query() {
    let url = request_url(&config(1), "hello world&more").unwrap();
    assert_eq!(
        url,
        "https://www.googleapis.com/customsearch/v1?key=K&cx=C&q=hello+world%26more"
    );
}

#[test]
fn a_call_asks_for_one_transfer_and_hands_out_the_body() {
    let mut call = list("rust".to_string(), config(1));
    match call.poll(Transfer::Idle) {
        Poll::Request(url) => {
            assert_eq!(url, "https://www.googleapis.com/customsearch/v1?key=K&cx=C&q=rust")
        }
        _ => panic!("no transfer was asked for"),
    }
    assert!(matches!(call, ListFuture::Performing { ref dump } if dump.is_empty()));
    assert!(matches!(call.poll(Transfer::Pending), Poll::NotReady));
    assert_eq!(call.receive(b"{\"a\":"), 5);
    assert!(matches!(call.poll(Transfer::Idle), Poll::NotReady));
    assert_eq!(call.receive(b"1}"), 2);
    match call.poll(Transfer::Finished { code: 200 }) {
        Poll::Ready(body) => assert_eq!(body, b"{\"a\":1}".to_vec()),
        _ => panic!("the body was not handed out"),
    }
    assert!(matches!(call, ListFuture::Done));
    assert_eq!(call.receive(b"late"), 4);
    assert!(matches!(call, ListFuture::Done));
}

#[test]
fn a_status_outside_success_is_an_error() {
    for code in [500u32, 404, 199, 300, 0] {
        let mut call = list("rust".to_string(), config(1));
        call.poll(Transfer::Idle);
        call.receive(b"ignored");
        match call.poll(Transfer::Finished { code }) {
            Poll::Failed(e) => assert_eq!(e, Failure::Status(code)),
            _ => panic!("status {} passed", code),
        }
        assert!(matches!(call, ListFuture::Done));
    }
    for code in [200u32, 204, 299] {
        let mut call = list("rust".to_string(), config(1));
        call.poll(Transfer::Idle);
        assert!(matches!(call.poll(Transfer::Finished { code }), Poll::Ready(_)));
    }
}

#[test]
fn a_broken_transfer_is_a_transport_error() {
    let mut call = list("rust".to_string(), config(1));
    call.poll(Transfer::Idle);
    match call.poll(Transfer::Failed) {
        Poll::Failed(e) => assert_eq!(e, Failure::Transport),
        _ => panic!("the failure went unnoticed"),
    }
    assert!(matches!(call, ListFuture::Done));
}

#[test]
fn requests_without_a_query_are_refused() {
    let mut server = SearchRssServer::new(config(2));
    for path in ["/", "/?q=", "", "/?x=1", "/?q=a&q="] {
        let r = reply(server.call(path));
        assert_eq!(r.status, 400);
        assert_eq!(r.body, "");
        assert!(r.content_type.is_none());
    }
}

#[test]
fn the_query_is_taken_as_it_stands() {
    let mut server = SearchRssServer::new(config(2));
    assert!(is_fetch(&server.call("/?q=rust"), "rust"));
    assert!(is_fetch(&server.call("/?q=%20Rust%20lang"), " Rust lang"));
    assert!(is_fetch(&server.call("/?q=a+b"), "a b"));
    assert!(is_fetch(&server.call("/?q=a&q=b"), "b"));
    assert!(is_fetch(&server.call("/?x=1&q=z"), "z"));
}

#[test]
fn the_last_pair_of_a_name_wins() {
    let pairs = vec![
        Pair { name: "q".to_string(), value: "one".to_string() },
        Pair { name: "r".to_string(), value: "two".to_string() },
        Pair { name: "q".to_string(), value: "three".to_string() },
    ];
    assert_eq!(find_param(&pairs, &"q".to_string()), Some("three".to_string()));
    assert_eq!(find_param(&pairs, &"r".to_string()), Some("two".to_string()));
    assert_eq!(find_param(&pairs, &"s".to_string()), None);
    assert_eq!(query_word(Some(pairs)), Some("three".to_string()));
    assert_eq!(query_word(None), None);
    assert_eq!(query_word(Some(vec![Pair { name: "q".to_string(), value: String::new() }])), None);
}

#[test]
fn a_miss_fetches_once_and_a_hit_not_at_all() {
    let mut server = SearchRssServer::new(config(2));
    assert!(is_fetch(&server.call("/?q=rust"), "rust"));
    let sent = store(&mut server, "rust");
    assert_eq!(sent.status, 200);
    assert_eq!(sent.content_type.as_deref(), Some("text/xml"));
    let expected = serialize(Response::try_from(answer(1, 11)).unwrap()).unwrap();
    assert_eq!(sent.body, expected);
    let again = reply(server.call("/?q=rust"));
    assert_eq!(again.status, 200);
    assert_eq!(again.content_type.as_deref(), Some("text/xml"));
    assert_eq!(again.body, expected);
    assert!(is_fetch(&server.call("/?q=Rust"), "Rust"));
}

#[test]
fn the_least_recently_used_query_is_evicted() {
    let mut server = SearchRssServer::new(config(2));
    store(&mut server, "a");
    store(&mut server, "b");
    store(&mut server, "c");
    assert!(is_fetch(&server.call("/?q=a"), "a"));
    assert_eq!(reply(server.call("/?q=b")).status, 200);
    assert_eq!(reply(server.call("/?q=c")).status, 200);
}

#[test]
fn a_read_resets_recency() {
    let mut server = SearchRssServer::new(config(2));
    store(&mut server, "a");
    store(&mut server, "b");
    assert_eq!(reply(server.call("/?q=a")).status, 200);
    store(&mut server, "c");
    assert!(is_fetch(&server.call("/?q=b"), "b"));
    assert_eq!(reply(server.call("/?q=a")).status, 200);
    assert_eq!(reply(server.call("/?q=c")).status, 200);
}

#[test]
fn storing_again_overwrites_and_refreshes() {
    let mut server = SearchRssServer::new(config(2));
    store(&mut server, "a");
    store(&mut server, "b");
    let sent = server.complete("a".to_string(), Ok(answer(5, 7)));
    assert!(sent.body.contains("<opensearch:itemsPerPage>2</opensearch:itemsPerPage>"));
    store(&mut server, "c");
    assert!(is_fetch(&server.call("/?q=b"), "b"));
    assert_eq!(reply(server.call("/?q=a")).body, sent.body);
}

#[test]
fn a_cache_without_places_keeps_nothing() {
    let mut server = SearchRssServer::new(config(0));
    assert_eq!(store(&mut server, "a").status, 200);
    assert!(is_fetch(&server.call("/?q=a"), "a"));
}

#[test]
fn a_render_failure_leaves_the_cache_alone() {
    let mut server = SearchRssServer::new(config(1));
    store(&mut server, "kept");
    let mut raw = answer(1, 11);
    raw.queries.remove(1);
    let r = server.complete("rust".to_string(), Ok(raw));
    assert_eq!(r.status, 500);
    assert_eq!(r.body, "");
    assert!(r.content_type.is_none());
    assert!(is_fetch(&server.call("/?q=rust"), "rust"));
    assert_eq!(reply(server.call("/?q=kept")).status, 200);
}

#[test]
fn an_upstream_failure_leaves_the_cache_alone() {
    let mut server = SearchRssServer::new(config(1));
    store(&mut server, "kept");
    let mut call = match server.call("/?q=rust") {
        Action::Fetch { call, .. } => call,
        Action::Respond(_) => panic!("answered without a call"),
    };
    call.poll(Transfer::Idle);
    let failure = match call.poll(Transfer::Finished { code: 500 }) {
        Poll::Failed(e) => e,
        _ => panic!("status 500 passed"),
    };
    assert_eq!(failure, Failure::Status(500));
    let r = server.complete("rust".to_string(), Err(failure));
    assert_eq!(r.status, 500);
    assert_eq!(r.body, "");
    assert!(is_fetch(&server.call("/?q=rust"), "rust"));
    assert_eq!(reply(server.call("/?q=kept")).status, 200);
}

#[test]
fn settle_caches_a_text_and_drops_a_failure() {
    let mut server = SearchRssServer::new(config(1));
    let r = server.settle("a".to_string(), Ok("<rss/>".to_string()));
    assert_eq!(r.status, 200);
    assert_eq!(r.body, "<rss/>");
    let r = server.settle("b".to_string(), Err(Failure::Writer));
    assert_eq!(r.status, 500);
    assert_eq!(reply(server.call("/?q=a")).body, "<rss/>");
    assert!(is_fetch(&server.call("/?q=b"), "b"));
    assert_eq!(server.port(), 8080);
}

#[test]
fn numbers_are_read_as_the_standard_library_reads_them() {
    assert_eq!(parse_u64("42"), Some(42));
    assert_eq!(parse_u64("+42"), Some(42));
    assert_eq!(parse_u64("0042"), Some(42));
    assert_eq!(parse_u64("0"), Some(0));
    assert_eq!(parse_u64("18446744073709551615"), Some(u64::MAX));
    assert_eq!(parse_u64("18446744073709551616"), None);
    assert_eq!(parse_u64("18446744073709551620"), None);
    assert_eq!(parse_u64("99999999999999999999999"), None);
    for text in ["", "+", "-1", "++1", " 42", "42 ", "4_2", "1e3", "1.0", "٤٢", "12a", "+-3"] {
        assert_eq!(parse_u64(text), None, "{:?}", text);
        assert_eq!(parse_u64(text), text.parse::<u64>().ok(), "{:?}", text);
    }
    for text in ["42", "+42", "0042", "+0", "0", "18446744073709551615", "18446744073709551616"] {
        assert_eq!(parse_u64(text), text.parse::<u64>().ok(), "{:?}", text);
    }
}

#[test]
fn numbers_are_written_as_the_standard_library_writes_them() {
    assert_eq!(decimal_u64(0), "0");
    assert_eq!(decimal_u64(7), "7");
    assert_eq!(decimal_u64(10), "10");
    assert_eq!(decimal_u64(1234567890), "1234567890");
    assert_eq!(decimal_u64(u64::MAX), "18446744073709551615");
    assert_eq!(decimal_i64(0), "0");
    assert_eq!(decimal_i64(-1), "-1");
    assert_eq!(decimal_i64(-10), "-10");
    assert_eq!(decimal_i64(4294967295), "4294967295");
    assert_eq!(decimal_i64(i64::MAX), i64::MAX.to_string());
    assert_eq!(decimal_i64(i64::MIN), i64::MIN.to_string());
}

fn sample(items_per_page: i64, items: usize) -> Response {
    Response {
        title: "Q".to_string(),
        link: "U".to_string(),
        description: "D".to_string(),
        total_results: 42,
        start_index: 1,
        items_per_page,
        items: (0..items)
            .map(|k| hirareca::rss::Item {
                title: format!("T{}", k),
                link: format!("L{}", k),
                description: format!("S{}", k),
            })
            .collect(),
    }
}

fn fresh() -> xml::writer::EventWriter<Vec<u8>> {
    xml::writer::EmitterConfig::new().create_writer(Vec::new())
}

#[test]
fn a_missing_part_is_named_before_a_bad_total() {
    let mut raw = answer(1, 11);
    raw.queries[0].records[0].total_results = Some("many".to_string());
    raw.queries[0].records[0].start_index = None;
    assert_eq!(Response::try_from(raw).unwrap_err(), Failure::MissingField(Field::StartIndex));

    let mut raw = answer(1, 11);
    raw.queries[0].records[0].total_results = Some("many".to_string());
    raw.queries[1].records[0].start_index = None;
    assert_eq!(Response::try_from(raw).unwrap_err(), Failure::MissingField(Field::NextStartIndex));

    let mut raw = answer(1, 11);
    raw.queries[0].records[0].total_results = Some("many".to_string());
    raw.queries[0].records[0].start_index = None;
    raw.queries[1].records[0].start_index = None;
    assert_eq!(render(raw).unwrap_err(), Failure::MissingField(Field::StartIndex));
}

#[test]
fn a_fresh_writer_accepts_the_whole_document() {
    let mut w = fresh();
    assert_eq!(write_rss(&mut w, sample(10, 2)), Ok(()));
    assert_eq!(
        String::from_utf8(w.into_inner()).unwrap(),
        "<?xml version=\"1.0\" encoding=\"UTF-8\"?>\
         <rss version=\"2.0\" xmlns:opensearch=\"http://a9.com/-/spec/opensearch/1.1/\">\
         <channel><title>Q</title><link>U</link><description>D</description>\
         <opensearch:totalResults>42</opensearch:totalResults>\
         <opensearch:startIndex>1</opensearch:startIndex>\
         <opensearch:itemsPerPage>10</opensearch:itemsPerPage>\
         <item><title>T0</title><link>L0</link><description>S0</description></item>\
         <item><title>T1</title><link>L1</link><description>S1</description></item>\
         </channel></rss>"
    );
}

#[test]
fn a_document_without_items_closes_what_it_opened() {
    let mut w = fresh();
    assert_eq!(write_rss(&mut w, sample(-10, 0)), Ok(()));
    assert!(w.write(xml::writer::XmlEvent::end_element()).is_err());
    let text = String::from_utf8(w.into_inner()).unwrap();
    assert!(text.contains("<opensearch:itemsPerPage>-10</opensearch:itemsPerPage>"));
    assert!(!text.contains("<item>"));
    assert!(text.ends_with("</channel></rss>"));
}

#[test]
fn equal_documents_give_equal_bytes() {
    let mut first = fresh();
    let mut second = fresh();
    assert_eq!(write_rss(&mut first, sample(10, 3)), Ok(()));
    assert_eq!(write_rss(&mut second, sample(10, 3)), Ok(()));
    assert_eq!(first.into_inner(), second.into_inner());
    assert_eq!(serialize(sample(10, 3)), serialize(sample(10, 3)));
}

#[test]
fn a_writer_that_has_a_document_refuses_another() {
    let mut w = fresh();
    assert_eq!(write_rss(&mut w, sample(10, 0)), Ok(()));
    assert_eq!(write_rss(&mut w, sample(10, 0)), Err(Failure::Writer));
}

#[test]
fn write_value_keeps_the_depth() {
    let mut w = fresh();
    w.write(xml::writer::XmlEvent::start_element("a")).unwrap();
    assert_eq!(write_value(&mut w, None, "b", "x & y"), Ok(()));
    assert_eq!(write_value(&mut w, Some("p"), "c", ""), Ok(()));
    assert!(w.write(xml::writer::XmlEvent::end_element()).is_ok());
    assert!(w.write(xml::writer::XmlEvent::end_element()).is_err());
    let text = String::from_utf8(w.into_inner()).unwrap();
    assert!(text.ends_with("<a><b>x &amp; y</b><p:c></p:c></a>") || text.ends_with("<a><b>x &amp; y</b><p:c /></a>"));
}

#[test]
fn render_gives_the_text_or_the_failure() {
    let text = render(answer(1, 11)).unwrap();
    assert_eq!(text, serialize(Response::try_from(answer(1, 11)).unwrap()).unwrap());
    let mut raw = answer(1, 11);
    raw.queries.remove(1);
    assert_eq!(render(raw), Err(Failure::MissingField(Field::NextPage)));
    let mut raw = answer(1, 11);
    raw.queries[0].records[0].total_results = Some("-1".to_string());
    assert_eq!(render(raw), Err(Failure::InvalidTotal));
}
