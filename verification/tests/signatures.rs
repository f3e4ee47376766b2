use selector_signatures::signatures::{
    cache_key, entry_text, kind_name, lookup_url, parse_entries, parse_response,
    parse_signature, resolve_step, some_if_any, ResolveAction, ResolveEvent, ResolveSelector,
    ResolvedError, ResolvedFunction, ResolvedLog, SelectorKind, LOOKUP_TIMEOUT,
};
use ethers::abi::Token;
use serde_json::Value;

fn json(text: &str) -> Value {
    serde_json::from_str(text).unwrap()
}

fn strings(items: &[&str]) -> Vec<String> {
    items.iter().map(|s| s.to_string()).collect()
}

fn transfer_error() -> ResolvedError {
    ResolvedError {
        name: "transfer".to_string(),
        signature: "transfer(address,uint256)".to_string(),
        inputs: strings(&["address", "uint256"]),
    }
}

#[test]
fn parse_signature_splits_name_and_inputs() {
    let parsed: Option<ResolvedError> = parse_signature("transfer(address,uint256)");
    assert_eq!(parsed, Some(transfer_error()));
}

#[test]
fn parse_signature_of_a_function_has_no_decoded_inputs() {
    let parsed: Option<ResolvedFunction> = parse_signature("balanceOf(address)");
    assert_eq!(
        parsed,
        Some(ResolvedFunction {
            name: "balanceOf".to_string(),
            signature: "balanceOf(address)".to_string(),
            inputs: strings(&["address"]),
            decoded_inputs: None,
        })
    );
}

#[test]
fn parse_signature_without_inputs_gives_one_empty_input() {
    let parsed: Option<ResolvedLog> = parse_signature("Paused()");
    assert_eq!(
        parsed,
        Some(ResolvedLog {
            name: "Paused".to_string(),
            signature: "Paused()".to_string(),
            inputs: strings(&[""]),
        })
    );
}

#[test]
fn parse_signature_without_parenthesis_is_none() {
    assert_eq!(parse_signature::<ResolvedError>("test_signature"), None);
    assert_eq!(parse_signature::<ResolvedFunction>(""), None);
    assert_eq!(parse_signature::<ResolvedLog>("a)b"), None);
}

#[test]
fn parse_signature_removes_only_the_last_closing_parenthesis() {
    let parsed: Option<ResolvedError> = parse_signature("f((uint256,bool),address)");
    assert_eq!(
        parsed,
        Some(ResolvedError {
            name: "f".to_string(),
            signature: "f((uint256,bool),address)".to_string(),
            inputs: strings(&["(uint256", "bool)", "address"]),
        })
    );
    let open: Option<ResolvedError> = parse_signature("g(");
    assert_eq!(
        open,
        Some(ResolvedError {
            name: "g".to_string(),
            signature: "g(".to_string(),
            inputs: strings(&[""]),
        })
    );
    let trailing: Option<ResolvedError> = parse_signature("(a)b)c");
    assert_eq!(
        trailing,
        Some(ResolvedError {
            name: "".to_string(),
            signature: "(a)b)c".to_string(),
            inputs: strings(&["a)bc"]),
        })
    );
}

#[test]
fn selector_kinds_of_the_three_candidates() {
    assert_eq!(ResolvedFunction::selector_kind(), SelectorKind::Function);
    assert_eq!(ResolvedError::selector_kind(), SelectorKind::Error);
    assert_eq!(ResolvedLog::selector_kind(), SelectorKind::Event);
    assert_eq!(kind_name(SelectorKind::Function), "function");
    assert_eq!(kind_name(SelectorKind::Error), "error");
    assert_eq!(kind_name(SelectorKind::Event), "event");
}

#[test]
fn cache_key_names_kind_and_selector() {
    assert_eq!(
        cache_key(SelectorKind::Function, "test_signature"),
        "selector.function.test_signature"
    );
    assert_eq!(cache_key(SelectorKind::Error, "08c379a0"), "selector.error.08c379a0");
    assert_eq!(cache_key(SelectorKind::Event, "ddf252ad"), "selector.event.ddf252ad");
    assert_eq!(cache_key(SelectorKind::Event, ""), "selector.event.");
}

#[test]
fn cache_keys_of_different_kinds_differ() {
    let kinds = [SelectorKind::Function, SelectorKind::Error, SelectorKind::Event];
    for a in kinds {
        for b in kinds {
            assert_eq!(cache_key(a, "a9059cbb") == cache_key(b, "a9059cbb"), a == b);
        }
    }
    assert_ne!(
        cache_key(SelectorKind::Error, "a9059cbb"),
        cache_key(SelectorKind::Error, "a9059cbc")
    );
}

#[test]
fn lookup_url_names_kind_and_selector() {
    assert_eq!(
        lookup_url(SelectorKind::Function, "a9059cbb"),
        "https://api.etherface.io/v1/signatures/hash/function/a9059cbb/1"
    );
    assert_eq!(
        lookup_url(SelectorKind::Error, "08c379a0"),
        "https://api.etherface.io/v1/signatures/hash/error/08c379a0/1"
    );
    assert_eq!(
        lookup_url(SelectorKind::Event, "ddf252ad"),
        "https://api.etherface.io/v1/signatures/hash/event/ddf252ad/1"
    );
}

#[test]
fn entry_text_is_the_json_text_without_quotes() {
    assert_eq!(
        entry_text(&json(r#"{"text":"transfer(address,uint256)"}"#)),
        Some("transfer(address,uint256)".to_string())
    );
    assert_eq!(entry_text(&json(r#"{"text":5}"#)), Some("5".to_string()));
    assert_eq!(entry_text(&json(r#"{"text":null}"#)), Some("null".to_string()));
    assert_eq!(entry_text(&json(r#"{"text":["a","b"]}"#)), Some("[a,b]".to_string()));
    assert_eq!(entry_text(&json(r#"{"text":"a\"b(c)"}"#)), Some("a\\b(c)".to_string()));
}

#[test]
fn entry_text_is_none_without_the_member() {
    assert_eq!(entry_text(&json(r#"{"id":1}"#)), None);
    assert_eq!(entry_text(&json(r#"["text"]"#)), None);
    assert_eq!(entry_text(&json(r#""text""#)), None);
}

#[test]
fn parse_entries_keeps_order_and_skips_what_is_no_signature() {
    let entries = vec![
        json(r#"{"text":"transfer(address,uint256)"}"#),
        json(r#"{"id":7}"#),
        json(r#"{"text":"no_parenthesis"}"#),
        json(r#"{"text":"Paused()"}"#),
    ];
    let list: Vec<ResolvedError> = parse_entries(&entries);
    assert_eq!(
        list,
        vec![
            transfer_error(),
            ResolvedError {
                name: "Paused".to_string(),
                signature: "Paused()".to_string(),
                inputs: strings(&[""]),
            },
        ]
    );
    let none: Vec<ResolvedError> = parse_entries(&Vec::new());
    assert!(none.is_empty());
}

#[test]
fn parse_response_reads_the_items() {
    let response = json(
        r#"{"total_items":2,"items":[{"id":1,"text":"transfer(address,uint256)"},{"id":2,"text":"x"}]}"#,
    );
    let list: Option<Vec<ResolvedError>> = parse_response(&response);
    assert_eq!(list, Some(vec![transfer_error()]));
}

#[test]
fn parse_response_without_an_array_of_items_is_none() {
    assert_eq!(parse_response::<ResolvedError>(&json(r#"{"total_items":0}"#)), None);
    assert_eq!(parse_response::<ResolvedError>(&json(r#"{"items":{"text":"a()"}}"#)), None);
    assert_eq!(parse_response::<ResolvedError>(&json(r#"[{"text":"a()"}]"#)), None);
    assert_eq!(parse_response::<ResolvedLog>(&json(r#"{"items":[]}"#)), Some(Vec::new()));
}

#[test]
fn some_if_any_is_none_for_the_empty_list() {
    assert_eq!(some_if_any::<ResolvedError>(Vec::new()), None);
    assert_eq!(some_if_any(vec![transfer_error()]), Some(vec![transfer_error()]));
}

#[test]
fn a_lookup_starts_by_reading_the_cache() {
    match resolve_step::<ResolvedFunction>("test_signature", ResolveEvent::Started) {
        ResolveAction::ReadCache { key } => {
            assert_eq!(key, "selector.function.test_signature")
        }
        _ => panic!("the cache is read first"),
    }
}

#[test]
fn a_cached_list_ends_the_lookup() {
    let cached = vec![transfer_error()];
    match resolve_step("08c379a0", ResolveEvent::CacheRead(Some(cached.clone()))) {
        ResolveAction::Finish(outcome) => assert_eq!(outcome, Some(cached)),
        _ => panic!("a cached list is the outcome"),
    }
    match resolve_step::<ResolvedError>("08c379a0", ResolveEvent::CacheRead(Some(Vec::new()))) {
        ResolveAction::Finish(outcome) => assert_eq!(outcome, None),
        _ => panic!("an empty cached list is the outcome"),
    }
}

#[test]
fn a_cache_miss_asks_the_directory() {
    match resolve_step::<ResolvedLog>("ddf252ad", ResolveEvent::CacheRead(None)) {
        ResolveAction::Fetch { url, timeout } => {
            assert_eq!(url, "https://api.etherface.io/v1/signatures/hash/event/ddf252ad/1");
            assert_eq!(timeout, 10);
            assert_eq!(timeout, LOOKUP_TIMEOUT);
        }
        _ => panic!("the directory is asked"),
    }
    match resolve_step::<ResolvedFunction>("a9059cbb", ResolveEvent::CacheRead(None)) {
        ResolveAction::Fetch { url, .. } => {
            assert_eq!(url, "https://api.etherface.io/v1/signatures/hash/function/a9059cbb/1");
        }
        _ => panic!("the directory is asked"),
    }
}

#[test]
fn no_document_ends_the_lookup_with_none() {
    match resolve_step::<ResolvedError>("test_signature_notfound", ResolveEvent::Fetched(None)) {
        ResolveAction::Finish(outcome) => assert_eq!(outcome, None),
        _ => panic!("nothing to read"),
    }
    let response = json(r#"{"detail":"not found"}"#);
    match resolve_step::<ResolvedError>(
        "test_signature_notfound",
        ResolveEvent::Fetched(Some(response)),
    ) {
        ResolveAction::Finish(outcome) => assert_eq!(outcome, None),
        _ => panic!("nothing to read"),
    }
}

#[test]
fn an_answer_is_cached_before_it_is_returned() {
    let response = json(r#"{"items":[{"text":"transfer(address,uint256)"}]}"#);
    let stored = match resolve_step::<ResolvedError>(
        "a9059cbb",
        ResolveEvent::Fetched(Some(response)),
    ) {
        ResolveAction::Store { key, results } => {
            assert_eq!(key, "selector.error.a9059cbb");
            assert_eq!(results, vec![transfer_error()]);
            results
        }
        _ => panic!("the candidates are cached"),
    };
    match resolve_step("a9059cbb", ResolveEvent::Stored(stored)) {
        ResolveAction::Finish(outcome) => assert_eq!(outcome, Some(vec![transfer_error()])),
        _ => panic!("the candidates are returned"),
    }
}

#[test]
fn an_empty_answer_is_cached_and_gives_none() {
    let response = json(r#"{"items":[]}"#);
    let stored = match resolve_step::<ResolvedLog>(
        "test_signature",
        ResolveEvent::Fetched(Some(response)),
    ) {
        ResolveAction::Store { key, results } => {
            assert_eq!(key, "selector.event.test_signature");
            assert!(results.is_empty());
            results
        }
        _ => panic!("the empty list is cached"),
    };
    match resolve_step("test_signature", ResolveEvent::Stored(stored)) {
        ResolveAction::Finish(outcome) => assert_eq!(outcome, None),
        _ => panic!("no candidate"),
    }
}

/// Runs a lookup against a cache and a directory that answer as given, and
/// returns the outcome with what was written to the cache.
fn lookup<T: ResolveSelector + Clone>(
    selector: &str,
    cached: Option<Vec<T>>,
    answer: Option<Value>,
) -> (Option<Vec<T>>, Option<(String, Vec<T>)>) {
    lookup_with(selector, cached, Ok(answer))
}

/// The same, against a directory that may fail.
fn lookup_with<T: ResolveSelector + Clone>(
    selector: &str,
    cached: Option<Vec<T>>,
    answer: Result<Option<Value>, String>,
) -> (Option<Vec<T>>, Option<(String, Vec<T>)>) {
    let mut written = None;
    let mut event = ResolveEvent::Started;
    for _ in 0..8 {
        event = match resolve_step::<T>(selector, event) {
            ResolveAction::ReadCache { key } => {
                assert_eq!(key, cache_key(T::selector_kind(), selector));
                ResolveEvent::CacheRead(cached.clone())
            }
            ResolveAction::Fetch { .. } => match &answer {
                Ok(document) => ResolveEvent::Fetched(document.clone()),
                Err(_) => ResolveEvent::FetchFailed,
            },
            ResolveAction::Store { key, results } => {
                written = Some((key, results.clone()));
                ResolveEvent::Stored(results)
            }
            ResolveAction::Finish(outcome) => return (outcome, written),
        };
    }
    panic!("a lookup ends within four steps");
}

#[test]
fn resolve_function_signature_should_return_none_when_cached_results_not_found() {
    let signature = String::from("test_signature_nocache");
    let (result, _) = lookup::<ResolvedFunction>(&signature, None, None);
    assert_eq!(result, None,)
}

#[test]
fn resolve_function_signature_should_return_none_when_json_url_returns_empty_signatures() {
    let signature = String::from("test_signature");
    let (result, written) =
        lookup::<ResolvedFunction>(&signature, None, Some(json(r#"{"items":[]}"#)));
    assert_eq!(result, None);
    assert_eq!(
        written,
        Some((format!("selector.function.{}", "test_signature"), Vec::new()))
    );
}

#[test]
fn resolve_error_signature_should_return_none_when_cached_results_not_found() {
    let signature = String::from("test_signature_notfound");
    let (result, _) = lookup::<ResolvedError>(&signature, None, None);
    assert_eq!(result, None);
}

#[test]
fn resolve_error_signature_should_return_none_when_json_url_returns_none() {
    let signature = String::from("test_signature_notfound");
    let (result, written) = lookup::<ResolvedError>(&signature, None, None);
    assert_eq!(result, None);
    assert_eq!(written, None);
}

#[test]
fn resolve_error_signature_should_return_none_when_json_url_returns_empty_signatures() {
    let signature = String::from("test_signature_notfound");
    let (result, _) = lookup::<ResolvedError>(&signature, None, Some(json(r#"{"items":[]}"#)));
    assert_eq!(result, None);
}

#[test]
fn resolve_event_signature_should_return_none_when_cached_results_not_found() {
    let signature = String::from("test_signature_notfound");
    let (result, _) = lookup::<ResolvedLog>(&signature, None, None);
    assert_eq!(result, None);
}

#[test]
fn resolve_event_signature_should_return_none_when_json_url_returns_none() {
    let signature = String::from("test_signature_notfound");
    let (result, written) = lookup::<ResolvedLog>(&signature, None, None);
    assert_eq!(result, None);
    assert_eq!(written, None);
}

#[test]
fn resolve_event_signature_should_return_none_when_json_url_returns_empty_signatures() {
    let signature = String::from("test_signature_notfound");
    let (result, _) = lookup::<ResolvedLog>(&signature, None, Some(json(r#"{"items":[]}"#)));
    assert_eq!(result, None);
}

#[test]
fn a_lookup_returns_an_empty_cached_list_as_none_without_asking() {
    let answer = json(r#"{"items":[{"text":"a()"}]}"#);
    let (result, written) = lookup::<ResolvedLog>("ddf252ad", Some(Vec::new()), Some(answer));
    assert_eq!(result, None);
    assert_eq!(written, None);
}

#[test]
fn a_lookup_offers_the_best_candidate_first_and_caches_the_directory_order() {
    let answer = json(
        r#"{"items":[{"text":"watch_tg_invmru_2f69f1b(address,address)"},{"text":"transfer(address,uint256)"},{"text":"many_msg_babbage(bytes1,uint256)"}]}"#,
    );
    let (result, written) = lookup::<ResolvedFunction>("a9059cbb", None, Some(answer));
    let texts: Vec<String> =
        result.unwrap().iter().map(|item| item.signature_text().to_string()).collect();
    assert_eq!(
        texts,
        strings(&[
            "transfer(address,uint256)",
            "many_msg_babbage(bytes1,uint256)",
            "watch_tg_invmru_2f69f1b(address,address)",
        ])
    );
    let (key, stored) = written.unwrap();
    assert_eq!(key, "selector.function.a9059cbb");
    let stored_texts: Vec<String> =
        stored.iter().map(|item| item.signature_text().to_string()).collect();
    assert_eq!(
        stored_texts,
        strings(&[
            "watch_tg_invmru_2f69f1b(address,address)",
            "transfer(address,uint256)",
            "many_msg_babbage(bytes1,uint256)",
        ])
    );
}

#[test]
fn a_cached_candidate_keeps_its_decoded_inputs() {
    let cached = vec![
        ResolvedFunction {
            name: "setFlags".to_string(),
            signature: "setFlags(bool,string)".to_string(),
            inputs: strings(&["bool", "string"]),
            decoded_inputs: Some(vec![Token::Bool(true), Token::String("x".to_string())]),
        },
        ResolvedFunction {
            name: "set".to_string(),
            signature: "set(bool)".to_string(),
            inputs: strings(&["bool"]),
            decoded_inputs: None,
        },
    ];
    let (result, written) = lookup("12345678", Some(cached.clone()), None);
    assert_eq!(result, Some(vec![cached[1].clone(), cached[0].clone()]));
    assert_eq!(written, None);
}

#[test]
fn a_lookup_is_the_same_each_time() {
    let answer = json(r#"{"items":[{"text":"b(uint8)"},{"text":"a()"},{"text":"c()"}]}"#);
    let first = lookup::<ResolvedError>("01020304", None, Some(answer.clone()));
    let second = lookup::<ResolvedError>("01020304", None, Some(answer));
    assert_eq!(first, second);
}

#[test]
fn signature_text_is_the_signature() {
    assert_eq!(transfer_error().signature_text(), "transfer(address,uint256)");
}

#[test]
fn a_failed_directory_ends_the_lookup_with_none_and_writes_nothing() {
    match resolve_step::<ResolvedFunction>("a9059cbb", ResolveEvent::FetchFailed) {
        ResolveAction::Finish(outcome) => assert_eq!(outcome, None),
        _ => panic!("a failure ends the lookup"),
    }
    let unavailable = Err("backend unavailable".to_string());
    let (result, written) = lookup_with::<ResolvedFunction>("a9059cbb", None, unavailable.clone());
    assert_eq!(result, None);
    assert_eq!(written, None);
    let (result, written) = lookup_with::<ResolvedError>("08c379a0", None, unavailable.clone());
    assert_eq!(result, None);
    assert_eq!(written, None);
    let (result, written) = lookup_with::<ResolvedLog>("ddf252ad", None, unavailable);
    assert_eq!(result, None);
    assert_eq!(written, None);
}

#[test]
fn candidates_cached_for_one_kind_do_not_answer_another() {
    let answer = json(r#"{"items":[{"text":"transfer(address,uint256)"}]}"#);
    let (_, written) = lookup::<ResolvedFunction>("a9059cbb", None, Some(answer));
    let (function_key, _) = written.unwrap();
    let error_key = match resolve_step::<ResolvedError>("a9059cbb", ResolveEvent::Started) {
        ResolveAction::ReadCache { key } => key,
        _ => panic!("the cache is read first"),
    };
    let event_key = match resolve_step::<ResolvedLog>("a9059cbb", ResolveEvent::Started) {
        ResolveAction::ReadCache { key } => key,
        _ => panic!("the cache is read first"),
    };
    assert_eq!(function_key, "selector.function.a9059cbb");
    assert_eq!(error_key, "selector.error.a9059cbb");
    assert_eq!(event_key, "selector.event.a9059cbb");
    assert_ne!(function_key, error_key);
    assert_ne!(function_key, event_key);
    assert_ne!(error_key, event_key);
}
