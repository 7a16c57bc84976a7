use labman::discovery::{filter_models, models_url, chat_completions_url};
use labman::endpoint::ModelDescriptor;
use labman::glob::glob_match;
use labman::text::{trim, blank, str_contains};

#[test]
fn glob_match_basic_cases() {
    assert!(glob_match("*", "gpt-4"));
    assert!(glob_match("gpt-4", "gpt-4"));
    assert!(glob_match("gpt-*", "gpt-4"));
    assert!(glob_match("gpt-*", "gpt-3.5"));
    assert!(glob_match("llama*7b", "llama3-7b"));
    assert!(!glob_match("gpt-4", "gpt-3.5"));
    assert!(!glob_match("llama*7b", "llama3-8b"));
}

#[test]
fn literal_pattern_matches_itself_only() {
    for s in ["", "llama3", "mistral-nemo:12b", "a.b?c"] {
        assert!(glob_match(s, s));
    }
    assert!(!glob_match("llama3", "llama3x"));
    assert!(!glob_match("llama3", "llama"));
}

#[test]
fn star_matches_everything() {
    for s in ["", "x", "gpt-4", "*", "a\nb"] {
        assert!(glob_match("*", s));
    }
}

#[test]
fn stars_need_segments_in_order() {
    assert!(glob_match("a*b*c", "abc"));
    assert!(glob_match("a*b*c", "aXXbYYc"));
    assert!(!glob_match("a*b*c", "acb"));
    assert!(glob_match("*test*", "my-test-model"));
    assert!(!glob_match("ab*ba", "aba"));
    assert!(glob_match("**", ""));
    assert!(!glob_match("a*", ""));
}

fn ids(v: &[ModelDescriptor]) -> Vec<String> {
    v.iter().map(|m| m.id.clone()).collect()
}

#[test]
fn filters_keep_then_drop() {
    let models = vec![
        ModelDescriptor::new("llama3"),
        ModelDescriptor::new("llama3-test"),
        ModelDescriptor::new("mixtral"),
    ];
    let keep = Some(vec!["llama*".to_string()]);
    let drop = Some(vec!["*test*".to_string()]);
    assert_eq!(ids(&filter_models(&models, &keep, &drop)), vec!["llama3"]);
    assert_eq!(ids(&filter_models(&models, &None, &drop)), vec!["llama3", "mixtral"]);
    assert_eq!(ids(&filter_models(&models, &Some(vec![]), &None)), Vec::<String>::new());
    assert_eq!(ids(&filter_models(&models, &None, &None)).len(), 3);
}

#[test]
fn endpoint_urls_do_not_repeat_v1() {
    assert_eq!(models_url("http://127.0.0.1:11434/v1"), "http://127.0.0.1:11434/v1/models");
    assert_eq!(models_url("http://127.0.0.1:11434/v1//"), "http://127.0.0.1:11434/v1/models");
    assert_eq!(models_url("http://host:8000"), "http://host:8000/v1/models");
    assert_eq!(
        chat_completions_url("http://127.0.0.1:11434/v1/"),
        "http://127.0.0.1:11434/v1/chat/completions"
    );
}

#[test]
fn trimming_follows_unicode_white_space() {
    assert_eq!(trim("  \t http://x/v1 \n"), "http://x/v1");
    assert_eq!(trim("\u{3000}a b\u{a0}"), "a b");
    assert!(blank(" \t\r\n"));
    assert!(!blank(" x "));
    for c in ['\u{85}', '\u{2028}', '\u{1680}', 'x', '\u{200b}'] {
        assert_eq!(labman::text::is_whitespace_char(c), c.is_whitespace());
    }
    assert!(str_contains("http://h/v1/x", "/v1/"));
    assert!(!str_contains("http://h/v2", "/v1"));
}
