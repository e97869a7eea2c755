use green_linter::config::{prompt_answer, resolve_country_code, PromptAnswer};

fn codes() -> Vec<String> {
    vec!["USA".to_string(), "PER".to_string(), "WORLD".to_string()]
}

#[test]
fn known_code_in_any_case() {
    match prompt_answer("  per \n", &codes()) {
        PromptAnswer::Accept(c) => assert_eq!(c, "PER"),
        PromptAnswer::Retry(_) => panic!("expected accept"),
    }
}

#[test]
fn empty_line_means_world() {
    match prompt_answer("   \n", &codes()) {
        PromptAnswer::Accept(c) => assert_eq!(c, "WORLD"),
        PromptAnswer::Retry(_) => panic!("expected accept"),
    }
}

#[test]
fn unknown_code_is_retried() {
    match prompt_answer("xyz", &codes()) {
        PromptAnswer::Retry(c) => assert_eq!(c, "XYZ"),
        PromptAnswer::Accept(_) => panic!("expected retry"),
    }
}

#[test]
fn country_code_resolved_upper_case() {
    assert_eq!(resolve_country_code("per", &codes()), Ok("PER".to_string()));
    assert_eq!(resolve_country_code("World", &codes()), Ok("WORLD".to_string()));
    assert_eq!(
        resolve_country_code("xx", &codes()),
        Err("Unknown country code 'XX'. Use ISO 3166-1 alpha-3 (e.g. USA, PER, DEU). Use WORLD for global average.".to_string())
    );
}
