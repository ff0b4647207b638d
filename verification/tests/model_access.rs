use roco_battle::llm::{
    battle_settings, chat_messages, connectivity_text, decision_failed, decision_refused, prompt_transcript, reply_text,
    throttle, trial_failed, trial_refused, trial_reply_text, trial_settings, Env, RequestFailure, Settings,
    LLM_MIN_INTERVAL_MS,
};
use roco_battle::pet::Side;
use roco_battle::prompt::battle_rule_prompt;

#[test]
fn settings_are_read_from_text() {
    let env = Env::parse("# 注释\n\nA=1\n B = 2=3 \nbad\n#C=4\nA=5\r\n=6");
    assert_eq!(env.get("A").as_deref(), Some("5"));
    assert_eq!(env.get("B").as_deref(), Some("2=3"));
    assert_eq!(env.get("C"), None);
    assert_eq!(env.get("bad"), None);
    assert_eq!(env.get("").as_deref(), Some("6"));
}

#[test]
fn missing_settings_are_complained_about() {
    let full = "OPENAI_BASE_URL=http://x//\nOPENAI_API_KEY=SECRET-REDACTED\nLLM_MODEL=m\n";
    let s = battle_settings(&Env::parse(full)).unwrap();
    assert_eq!((s.base_url.as_str(), s.model.as_str()), ("http://x//", "m"));
    assert_eq!(s.endpoint(), "http://x/openai/v1/chat/completions");
    assert_eq!(s.authorization(), "Bearer SECRET-REDACTED");
    assert!(trial_settings(&Env::parse(full)).is_ok());
    let none = Env::parse("");
    assert_eq!(battle_settings(&none).unwrap_err(), "缺少 OPENAI_BASE_URL");
    assert_eq!(trial_settings(&none).unwrap_err(), "缺少 OPENAI_API_KEY");
    let url = Env::parse("OPENAI_BASE_URL=u");
    assert_eq!(battle_settings(&url).unwrap_err(), "缺少 OPENAI_API_KEY");
    let key = Env::parse("OPENAI_API_KEY=k");
    assert_eq!(trial_settings(&key).unwrap_err(), "缺少 OPENAI_BASE_URL");
    let both = Env::parse("OPENAI_BASE_URL=u\nOPENAI_API_KEY=k");
    assert_eq!(battle_settings(&both).unwrap_err(), "缺少 LLM_MODEL");
    assert_eq!(trial_settings(&both).unwrap_err(), "缺少 LLM_MODEL");
}

#[test]
fn addresses_without_a_slash() {
    let s = Settings { base_url: "http://x/v".to_string(), api_key: String::new(), model: String::new() };
    assert_eq!(s.endpoint(), "http://x/v/openai/v1/chat/completions");
    assert_eq!(s.authorization(), "Bearer ");
}

#[test]
fn requests_are_kept_apart() {
    assert_eq!(LLM_MIN_INTERVAL_MS, 900);
    assert_eq!(throttle(0, 1_700_000_000_000), None);
    assert_eq!(throttle(1000, 1000), Some(900));
    assert_eq!(throttle(1000, 1899), Some(1));
    assert_eq!(throttle(1000, 1900), None);
    // a clock that went back
    assert_eq!(throttle(1000, 500), Some(900));
    assert_eq!(throttle(u128::MAX, 0), Some(900));
}

#[test]
fn messages_to_the_model() {
    let m = chat_messages(true, "局面");
    assert_eq!((m[0].role.as_str(), m[0].content.as_str()), ("system", battle_rule_prompt()));
    assert_eq!((m[1].role.as_str(), m[1].content.as_str()), ("user", "局面"));
    let m = chat_messages(false, "局面");
    assert_eq!(m.len(), 1);
    assert_eq!((m[0].role.as_str(), m[0].content.as_str()), ("user", "局面"));
}

#[test]
fn transcripts() {
    assert_eq!(
        prompt_transcript(Side::B, 7, false, "局面"),
        "\n===== LLM PROMPT [B方 R7] USER-ONLY =====\n局面\n===== END PROMPT =====\n"
    );
    assert_eq!(
        prompt_transcript(Side::A, 1, true, "局面"),
        format!(
            "\n===== LLM PROMPT [A方 R1] SYSTEM =====\n{}\n===== LLM PROMPT [A方 R1] USER =====\n局面\n===== END PROMPT =====\n",
            battle_rule_prompt()
        )
    );
}

#[test]
fn replies_of_the_model() {
    let some = |s: &str| Some(s.to_string());
    assert_eq!(reply_text(&vec![some("CHARGE"), some("x")]), "CHARGE");
    assert_eq!(reply_text(&vec![None, some("x")]), "");
    assert_eq!(reply_text(&vec![]), "");
    assert_eq!(trial_reply_text(&vec![some("你好")]), "你好");
    assert_eq!(trial_reply_text(&vec![None]), "模型已响应（空内容）");
    assert_eq!(trial_reply_text(&vec![]), "模型已响应（空内容）");
    assert_eq!(trial_reply_text(&vec![some(&"字".repeat(100))]), "字".repeat(80));
}

#[test]
fn refusals() {
    assert_eq!(decision_refused("500 Internal Server Error", "坏"), "决策 HTTP 500 Internal Server Error: 坏");
    assert_eq!(decision_refused("500", &"字".repeat(200)), format!("决策 HTTP 500: {}", "字".repeat(150)));
    assert_eq!(trial_refused("404 Not Found", &"字".repeat(200)), format!("HTTP 404 Not Found: {}", "字".repeat(120)));
}

#[test]
fn failures() {
    let f = |timeout, connect, request, decode| RequestFailure { timeout, connect, request, decode };
    let none: Vec<String> = Vec::new();
    let some = vec!["甲".to_string(), "乙".to_string()];
    assert_eq!(decision_failed("决策请求失败", "u", "e", f(true, true, true, true), &none), "决策请求失败: e | url: u | 请求超时");
    assert_eq!(
        decision_failed("决策请求失败", "u", "e", f(false, true, true, true), &some),
        "决策请求失败: e | url: u | 连接失败（DNS/TLS/网络） | 详细原因: 甲 -> 乙"
    );
    assert_eq!(decision_failed("p", "u", "e", f(false, false, true, true), &none), "p: e | url: u | 请求异常");
    assert_eq!(trial_failed("p", "u", "e", f(true, false, false, false), &none), "p: e | url: u | 请求超时");
    assert_eq!(trial_failed("p", "u", "e", f(false, true, false, false), &none), "p: e | url: u | 连接失败（DNS/TLS/网络）");
    assert_eq!(trial_failed("p", "u", "e", f(false, false, true, true), &none), "p: e | url: u | 请求构造失败");
    assert_eq!(trial_failed("p", "u", "e", f(false, false, false, true), &none), "p: e | url: u | 响应解析失败");
    assert_eq!(trial_failed("p", "u", "e", f(false, false, false, false), &some), "p: e | url: u | 请求异常 | 详细原因: 甲 -> 乙");
}

#[test]
fn what_is_shown_of_a_trial() {
    assert_eq!(connectivity_text(Ok("你好".to_string())), "连接成功 - 你好");
    assert_eq!(connectivity_text(Err("坏".to_string())), "连接失败 - 坏");
}
