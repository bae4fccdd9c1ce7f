use memoryos_wiki_gen::config::LlmConfig;
use memoryos_wiki_gen::error::WikiGenError;
use memoryos_wiki_gen::llm_gen::{LlmDocGenerator, LlmStep, SYSTEM_PROMPT};

fn waits(step: LlmStep) -> u64 {
    match step {
        LlmStep::Send { wait_ms } => wait_ms,
        LlmStep::GiveUp(e) => panic!("unexpected give-up: {}", e.to_string()),
    }
}

fn gives_up(step: LlmStep) -> String {
    match step {
        LlmStep::GiveUp(WikiGenError::Llm(m)) => m,
        other => panic!("unexpected step: {:?}", other),
    }
}

#[test]
fn test_llm_chat_messages() {
    let g = LlmDocGenerator::new(LlmConfig::default());
    let m = g.chat_messages("fn main() {}");
    assert_eq!(m.len(), 2);
    assert_eq!(m[0].0, "system");
    assert_eq!(m[0].1, SYSTEM_PROMPT);
    assert!(m[0].1.starts_with("You are a technical documentation generator."));
    assert_eq!(m[1].0, "user");
    assert_eq!(m[1].1, "Generate documentation for the following symbol:\n\nfn main() {}");
}

#[test]
fn test_llm_retry_backoff_doubles() {
    let g = LlmDocGenerator::new(LlmConfig::default());
    assert_eq!(waits(g.retry_step(0, "crate::f", None)), 0);
    assert_eq!(waits(g.retry_step(1, "crate::f", Some("timeout"))), 2000);
    assert_eq!(waits(g.retry_step(2, "crate::f", Some("timeout"))), 4000);
}

#[test]
fn test_llm_retries_exhausted() {
    let g = LlmDocGenerator::new(LlmConfig::default());
    assert_eq!(
        gives_up(g.retry_step(3, "crate::f", Some("timeout"))),
        "All 3 retries exhausted for crate::f: timeout"
    );
    assert_eq!(gives_up(g.retry_step(3, "crate::f", None)), "All 3 retries exhausted for crate::f: unknown");
    let mut none = LlmConfig::default();
    none.retry_max = 0;
    let g = LlmDocGenerator::new(none);
    assert_eq!(gives_up(g.retry_step(0, "x", None)), "All 0 retries exhausted for x: unknown");
}
