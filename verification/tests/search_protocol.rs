use nixpick::search::{
    build_query, cached_schema, interpret_reply, schema_candidates, schema_file_contents,
    ReplyError, ReplyHit, SearchClient, SearchEvent, SearchReply, SearchStage, SearchStep,
};

const DOCUMENT: &str = r#"{
  "from": 0,
  "size": 30,
  "query": {
    "bool": {
      "filter": [{ "term": { "type": { "value": "package" } } }],
      "must": [{
        "dis_max": {
          "tie_breaker": 0.7,
          "queries": [
            { "multi_match": {
                "type": "cross_fields", "query": "ripgrep", "analyzer": "whitespace",
                "operator": "and",
                "fields": ["package_attr_name^9", "package_attr_name.*^5.4", "package_pname^6",
                           "package_pname.*^3.6", "package_description^1.3",
                           "package_longDescription^1"] } },
            { "multi_match": {
                "type": "best_fields", "query": "ripgrep", "analyzer": "whitespace",
                "operator": "and", "fields": ["package_programs^7.5"], "fuzziness": 1 } }
          ]
        }
      }]
    }
  }
}"#;

#[test]
fn query_body_is_the_serialized_document() {
    let value: serde_json::Value = serde_json::from_str(DOCUMENT).unwrap();
    assert_eq!(build_query("ripgrep", 30), serde_json::to_string(&value).unwrap());
}

#[test]
fn query_text_is_escaped() {
    let body = build_query("say \"hi\"\\", 5);
    assert!(body.contains(r#""query":"say \"hi\"\\""#));
    assert!(body.ends_with(r#""size":5}"#));
    let parsed: serde_json::Value = serde_json::from_str(&body).unwrap();
    assert_eq!(parsed["size"], 5);
}

#[test]
fn candidates_around_an_index() {
    assert_eq!(schema_candidates(48), vec![53, 52, 51, 50, 49, 47, 46, 45, 44, 43]);
    assert_eq!(schema_candidates(3), vec![8, 7, 6, 5, 4, 2, 1]);
    assert_eq!(schema_candidates(1), vec![6, 5, 4, 3, 2]);
    assert_eq!(schema_candidates(0), vec![5, 4, 3, 2, 1]);
}

#[test]
fn schema_cache_text() {
    assert_eq!(cached_schema(" 49\n"), Some("49".to_string()));
    assert_eq!(cached_schema("+7"), Some("+7".to_string()));
    assert_eq!(cached_schema("abc"), None);
    assert_eq!(cached_schema(""), None);
    assert_eq!(schema_file_contents("52"), "52\n");
    assert_eq!(cached_schema(&schema_file_contents("52")), Some("52".to_string()));
}

fn hit(attr: &str, version: Option<&str>) -> ReplyHit {
    ReplyHit { attr_name: attr.to_string(), version: version.map(String::from), description: None }
}

#[test]
fn replies() {
    let ok = SearchReply { error: None, total: 9, hits: vec![hit("ripgrep", Some("14")), hit("rg", None)] };
    let res = interpret_reply(ok, 12).expect("ok");
    assert_eq!(res.total, 9);
    assert_eq!(res.elapsed_ms, 12);
    assert_eq!(res.packages.len(), 2);
    assert_eq!(res.packages[0].attr_name, "ripgrep");
    assert_eq!(res.packages[0].version, "14");
    assert_eq!(res.packages[1].version, "");
    let err = SearchReply {
        error: Some(ReplyError { reason: Some("no such index [x]".to_string()) }),
        total: 0,
        hits: vec![],
    };
    assert_eq!(interpret_reply(err, 1).err(), Some("no such index [x]".to_string()));
    let err = SearchReply { error: Some(ReplyError { reason: None }), total: 0, hits: vec![] };
    assert_eq!(interpret_reply(err, 1).err(), Some("elasticsearch error".to_string()));
}

#[test]
fn client_defaults() {
    let c = SearchClient::new(None, None);
    assert_eq!(c.channel(), "unstable");
    let mut c = SearchClient::new(Some("25.11".to_string()), Some("oops".to_string()));
    assert_eq!(c.channel(), "25.11");
    c.set_channel("24.11".to_string());
    assert_eq!(c.channel(), "24.11");
}

#[test]
fn blank_search_finishes_at_once() {
    let c = SearchClient::new(None, None);
    let (flow, step) = c.start_search("  ", 30);
    assert!(matches!(flow.stage, SearchStage::Finished));
    match step {
        SearchStep::Finish(Ok(r)) => {
            assert!(r.packages.is_empty());
            assert_eq!(r.total, 0);
            assert_eq!(r.elapsed_ms, 0);
        }
        _ => panic!("expected an empty result"),
    }
}

fn head_url(step: &SearchStep) -> String {
    match step {
        SearchStep::Head { url } => url.clone(),
        _ => panic!("expected a probe"),
    }
}

#[test]
fn missing_index_is_probed_and_adopted() {
    let mut c = SearchClient::new(None, Some("48\n".to_string()));
    let (mut flow, step) = c.start_search("ripgrep", 30);
    match &step {
        SearchStep::Post { url, body, save_schema } => {
            assert_eq!(url, "https://search.nixos.org/backend/latest-48-nixos-unstable/_search");
            assert_eq!(body, &build_query("ripgrep", 30));
            assert!(save_schema.is_none());
        }
        _ => panic!("expected a request"),
    }
    let missing = SearchReply {
        error: Some(ReplyError { reason: Some("no such index [latest-48-nixos-unstable]".to_string()) }),
        total: 0,
        hits: vec![],
    };
    let step = c.resume_search(&mut flow, SearchEvent::Replied { reply: Ok(missing), elapsed_ms: 3 });
    assert_eq!(head_url(&step), "https://search.nixos.org/backend/latest-53-nixos-unstable");
    let step = c.resume_search(&mut flow, SearchEvent::Probed { found: false });
    assert_eq!(head_url(&step), "https://search.nixos.org/backend/latest-52-nixos-unstable");
    let step = c.resume_search(&mut flow, SearchEvent::Probed { found: true });
    match &step {
        SearchStep::Post { url, save_schema, .. } => {
            assert_eq!(url, "https://search.nixos.org/backend/latest-52-nixos-unstable/_search");
            assert_eq!(save_schema.as_deref(), Some("52"));
        }
        _ => panic!("expected a retry"),
    }
    let reply = SearchReply { error: None, total: 1, hits: vec![hit("ripgrep", Some("14"))] };
    let step = c.resume_search(&mut flow, SearchEvent::Replied { reply: Ok(reply), elapsed_ms: 40 });
    match step {
        SearchStep::Finish(Ok(r)) => {
            assert_eq!(r.packages[0].attr_name, "ripgrep");
            assert_eq!(r.elapsed_ms, 40);
        }
        _ => panic!("expected results"),
    }
    let (_, step) = c.start_search("fd", 30);
    match step {
        SearchStep::Post { url, .. } => {
            assert_eq!(url, "https://search.nixos.org/backend/latest-52-nixos-unstable/_search")
        }
        _ => panic!("expected a request"),
    }
}

#[test]
fn probing_gives_up_with_the_first_failure() {
    let mut c = SearchClient::new(Some("24.11".to_string()), Some("2".to_string()));
    let (mut flow, _) = c.start_search("x", 1);
    let mut step = c.resume_search(
        &mut flow,
        SearchEvent::Replied { reply: Err("no such index here".to_string()), elapsed_ms: 0 },
    );
    let mut urls = vec![];
    while let SearchStep::Head { url } = &step {
        urls.push(url.clone());
        step = c.resume_search(&mut flow, SearchEvent::Probed { found: false });
    }
    assert_eq!(urls.len(), 6);
    assert_eq!(urls[5], "https://search.nixos.org/backend/latest-1-nixos-24.11");
    match step {
        SearchStep::Finish(Err(e)) => assert_eq!(e, "no such index here"),
        _ => panic!("expected the first failure"),
    }
}

#[test]
fn other_failures_finish_the_search() {
    let mut c = SearchClient::new(None, None);
    let (mut flow, _) = c.start_search("x", 1);
    let step = c.resume_search(
        &mut flow,
        SearchEvent::Replied { reply: Err("request failed".to_string()), elapsed_ms: 0 },
    );
    match step {
        SearchStep::Finish(Err(e)) => assert_eq!(e, "request failed"),
        _ => panic!("expected a failure"),
    }
}

#[test]
fn control_characters_are_escaped_and_decode_back() {
    let query = "a\"b\\c\nd\te\u{1}f\u{8}\u{c}\r\u{7f}é";
    let body = build_query(query, 2);
    let expected = format!("{}{}", r#""query":"a\"b\\c\nd\te\u0001f\b\f\r"#, "\u{7f}é\"");
    assert!(body.contains(&expected), "{body}");
    let parsed: serde_json::Value = serde_json::from_str(&body).unwrap();
    let queries = &parsed["query"]["bool"]["must"][0]["dis_max"]["queries"];
    assert_eq!(queries[0]["multi_match"]["query"], query);
    assert_eq!(queries[1]["multi_match"]["query"], query);
    assert_eq!(parsed["from"], 0);
    assert_eq!(parsed["size"], 2);
    assert_eq!(parsed["query"]["bool"]["filter"][0]["term"]["type"]["value"], "package");
}

#[test]
fn missing_index_reports() {
    let missing = |reason: Option<&str>| SearchEvent::Replied {
        reply: Ok(SearchReply {
            error: Some(ReplyError { reason: reason.map(String::from) }),
            total: 0,
            hits: vec![],
        }),
        elapsed_ms: 0,
    };
    assert!(missing(Some("no such index [x]")).reports_missing_index());
    assert!(!missing(Some("timeout")).reports_missing_index());
    assert!(!missing(None).reports_missing_index());
    let failed = SearchEvent::Replied { reply: Err("no such index".to_string()), elapsed_ms: 0 };
    assert!(failed.reports_missing_index());
    assert!(!SearchEvent::Probed { found: false }.reports_missing_index());
}

#[test]
fn any_failure_but_a_missing_index_near_the_edge_finishes() {
    let mut c = SearchClient::new(None, Some("2147483646".to_string()));
    assert!(!c.neighbours_fit());
    let (mut flow, _) = c.start_search("x", 1);
    let ev = SearchEvent::Replied { reply: Err("request failed".to_string()), elapsed_ms: 0 };
    assert!(!ev.reports_missing_index());
    match c.resume_search(&mut flow, ev) {
        SearchStep::Finish(Err(e)) => assert_eq!(e, "request failed"),
        _ => panic!("expected a failure"),
    }
}
