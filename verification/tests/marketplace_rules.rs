use zos_server::marketplace::{call_llm_endpoint, process_prompt_template, AIPromptMarketplace};

#[test]
fn tier_quotas() {
    let mut b = AIPromptMarketplace::new();
    b.initialize_user_quota("u1", "Silver", 1000);
    b.initialize_user_quota("u2", "Mystery", 5);
    b.initialize_user_quota("u3", "Platinum", 0);
    let q = b.usage_quotas.get("u1").unwrap();
    assert_eq!((q.daily_requests, q.monthly_tokens, q.premium_credits, q.reset_at), (200, 200000, 2000, 87400));
    let q = b.usage_quotas.get("u2").unwrap();
    assert_eq!((q.daily_requests, q.monthly_tokens, q.premium_credits), (10, 10000, 100));
    assert_eq!(b.usage_quotas.get("u3").unwrap().daily_requests, u32::MAX);
}

#[test]
fn templates_are_filled() {
    assert_eq!(
        process_prompt_template("Q: {input} at {timestamp}; again {input}", Some("hi"), "2024-01-01T00:00:00+00:00"),
        Ok("Q: hi at 2024-01-01T00:00:00+00:00; again hi".to_string())
    );
    assert_eq!(process_prompt_template("{input}!", None, "t"), Ok("{input}!".to_string()));
}

#[test]
fn simulated_replies() {
    // "abcd" is 4 bytes long: the first reply
    assert_eq!(call_llm_endpoint("u", "abcd"), Ok("Here's a helpful response to your query. abcd".to_string()));
    let long = "x".repeat(61);
    let r = call_llm_endpoint("u", &long).unwrap();
    assert_eq!(r, format!("Based on the input, I can provide this analysis. {}", "x".repeat(50)));
}

use zos_server::marketplace::{ModelType, PromptCategory, RequestStatus};

fn market() -> AIPromptMarketplace {
    let mut m = AIPromptMarketplace::new();
    m.initialize_user_quota("user_1", "Free", 0);
    m
}

#[test]
fn publishing_and_registering() {
    let mut m = market();
    let id = m
        .publish_prompt("pub_abc", "Title", "Desc", "Q: {input}", PromptCategory::QA, 5, 1700000000)
        .unwrap();
    assert_eq!(id, "prompt_pub_abc_1700000000");
    let p = m.published_prompts.get(&id).unwrap();
    assert_eq!(p.model_requirements.min_context_length, 2048);
    assert!(p.model_requirements.preferred_models.is_empty());
    assert_eq!(p.output_format, "text");
    let e = m.register_llm_endpoint("owner_x", 8080, "llama", ModelType::TextGeneration, 4096).unwrap();
    assert_eq!(e, "endpoint_owner_x_8080");
    let ep = m.llm_endpoints.get(&e).unwrap();
    assert_eq!(ep.endpoint_url, "http://localhost:8080/ai");
    assert_eq!(ep.available_quota, 1000000);
}

#[test]
fn executing_a_prompt_charges_and_records() {
    let mut m = market();
    let pid = m.publish_prompt("pub_abc", "T", "D", "Q: {input}", PromptCategory::QA, 5, 7).unwrap();
    assert_eq!(
        m.execute_prompt("nobody", &pid, Some("hi"), &vec![], 9, "ts").unwrap_err(),
        "User quota not found"
    );
    assert_eq!(
        m.execute_prompt("user_1", "missing", Some("hi"), &vec![], 9, "ts").unwrap_err(),
        "Prompt not found"
    );
    assert_eq!(
        m.execute_prompt("user_1", &pid, Some("hi"), &vec![], 9, "ts").unwrap_err(),
        "No available endpoints meet requirements"
    );
    let small = m.register_llm_endpoint("o", 1, "tiny", ModelType::TextGeneration, 1024).unwrap();
    let big = m.register_llm_endpoint("o", 2, "big", ModelType::TextGeneration, 4096).unwrap();
    let req = m
        .execute_prompt("user_1", &pid, Some("hi"), &vec!["ghost".to_string(), small.clone(), big.clone()], 9, "ts")
        .unwrap();
    // "Q: hi" is 5 bytes; the answer is reply 1 (5 % 4), a space and the prompt
    assert_eq!(req.output, "Based on the input, I can provide this analysis. Q: hi");
    assert_eq!(req.tokens_used, ((5 + req.output.len()) / 4) as u32);
    assert_eq!(req.endpoint_id, big);
    assert_eq!(req.request_id, "req_user_1_9");
    assert_eq!(req.cost_credits, 5);
    assert_eq!(req.status, RequestStatus::Completed);
    let q = m.usage_quotas.get("user_1").unwrap();
    assert_eq!(q.requests_used_today, 1);
    assert_eq!(q.premium_credits, 95);
    assert_eq!(q.tokens_used_month, req.tokens_used as u64);
    assert_eq!(m.published_prompts.get(&pid).unwrap().usage_count, 1);
    assert_eq!(m.llm_endpoints.get(&big).unwrap().available_quota, 1000000 - req.tokens_used as u64);
    assert_eq!(m.request_history.get("user_1").unwrap().len(), 1);
}

#[test]
fn credits_and_daily_limit_are_enforced() {
    let mut m = market();
    let pid = m.publish_prompt("p", "T", "D", "x", PromptCategory::QA, 500, 1).unwrap();
    let e = m.register_llm_endpoint("o", 3, "m", ModelType::TextGeneration, 4096).unwrap();
    assert_eq!(m.execute_prompt("user_1", &pid, None, &vec![e.clone()], 2, "t").unwrap_err(), "Insufficient credits");
    for i in 0..10 {
        m.direct_llm_request("user_1", &e, "abcd", 1, i).unwrap();
    }
    assert_eq!(m.direct_llm_request("user_1", &e, "abcd", 1, 11).unwrap_err(), "Daily request limit exceeded");
    assert_eq!(m.direct_llm_request("user_1", "none", "abcd", 1, 11).unwrap_err(), "Endpoint not found");
    let h = m.request_history.get("user_1").unwrap();
    assert_eq!(h.len(), 10);
    assert_eq!(h[0].request_id, "direct_user_1_0");
    assert_eq!(h[0].processing_time_ms, 2000);
}
