use httpie::dispatch::collapse;
use httpie::dispatch::plan_request;
use httpie::dispatch::Method;
use httpie::dispatch::TIMEOUT_SECS;
use httpie::input::Command;
use httpie::input::FormPair;

fn entry(key: &str, value: &str) -> FormPair {
    FormPair { key: key.to_string(), value: value.to_string() }
}

fn tokens(items: &[&str]) -> Vec<String> {
    items.iter().map(|s| s.to_string()).collect()
}

#[test]
fn timeout_is_ten_seconds() {
    assert_eq!(TIMEOUT_SECS, 10);
}

fn sorted(entries: &Vec<FormPair>) -> Vec<(String, String)> {
    let mut list: Vec<(String, String)> =
        entries.iter().map(|e| (e.key.clone(), e.value.clone())).collect();
    list.sort();
    list
}

fn mapping(items: &[(&str, &str)]) -> Vec<(String, String)> {
    items.iter().map(|(k, v)| (k.to_string(), v.to_string())).collect()
}

#[test]
fn last_write_wins_on_duplicate_keys() {
    let body = collapse(&vec![entry("a", "1"), entry("b", "2"), entry("a", "3")]);
    assert_eq!(sorted(body.entries()), mapping(&[("a", "3"), ("b", "2")]));
}

#[test]
fn collapse_keeps_every_distinct_key() {
    let body = collapse(&vec![entry("z", "26"), entry("a", "1"), entry("m", "13")]);
    assert_eq!(sorted(body.entries()), mapping(&[("a", "1"), ("m", "13"), ("z", "26")]));
}

#[test]
fn collapse_of_nothing_is_empty() {
    assert!(collapse(&vec![]).entries().is_empty());
}

#[test]
fn collapse_of_one_key_many_times() {
    let body = collapse(&vec![entry("k", "1"), entry("k", "2"), entry("k", ""), entry("k", "4")]);
    assert_eq!(sorted(body.entries()), mapping(&[("k", "4")]));
}

#[test]
fn collapse_tells_keys_apart_exactly() {
    let body = collapse(&vec![entry("a", "1"), entry("A", "2"), entry("", "3"), entry("a ", "4")]);
    assert_eq!(
        sorted(body.entries()),
        mapping(&[("", "3"), ("A", "2"), ("a", "1"), ("a ", "4")])
    );
}

#[test]
fn get_is_planned_without_body() {
    let command = Command::get("http://example.test/ok").unwrap();
    let plan = plan_request(&command);
    assert_eq!(plan.method, Method::Get);
    assert_eq!(plan.url, "http://example.test/ok");
    assert_eq!(plan.timeout_secs, 10);
    assert!(plan.body.is_none());
}

#[test]
fn post_is_planned_with_collapsed_body() {
    let command = Command::post("http://example.test/p", &tokens(&["a=1", "b=2", "a=3"])).unwrap();
    let plan = plan_request(&command);
    assert_eq!(plan.method, Method::Post);
    assert_eq!(plan.url, "http://example.test/p");
    assert_eq!(plan.timeout_secs, 10);
    let body = plan.body.unwrap();
    assert_eq!(sorted(body.entries()), mapping(&[("a", "3"), ("b", "2")]));
}

#[test]
fn post_without_pairs_is_planned_with_empty_body() {
    let command = Command::post("http://example.test/p", &tokens(&[])).unwrap();
    let plan = plan_request(&command);
    assert_eq!(plan.method, Method::Post);
    assert!(plan.body.unwrap().entries().is_empty());
}
