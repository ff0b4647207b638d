//! How the model that decides is reached: its settings, what is sent to it, and what comes back.

use vstd::prelude::*;
use crate::named;
use crate::number::push_int;
use crate::number;
use crate::pet::Side;
use crate::prompt;
use crate::text;
use crate::text::CharClass;

verus! {

/// The least time between two requests, in milliseconds.
pub const LLM_MIN_INTERVAL_MS: u128 = 900;

// Settings.

/// The setting that a line writes: a key, an equals sign and a value. Empty lines and those that
/// begin with a number sign write none.
pub open spec fn setting_in(line: Seq<char>) -> Option<(Seq<char>, Seq<char>)> {
    let t = text::trimmed(line);
    if t.len() == 0 || t[0] == '#' {
        None
    } else {
        match text::split_once_at(t, '=') {
            Some((k, v)) => Some((text::trimmed(k), text::trimmed(v))),
            None => None,
        }
    }
}

/// The settings that the lines write, in their order.
pub open spec fn settings_in(lines: Seq<Seq<char>>) -> Seq<(Seq<char>, Seq<char>)>
    decreases lines.len(),
{
    if lines.len() == 0 {
        seq![]
    } else {
        let front = settings_in(lines.drop_last());
        match setting_in(lines.last()) {
            Some(pair) => front.push(pair),
            None => front,
        }
    }
}

/// Settings, found by their keys.
pub struct Env {
    pairs: Vec<(String, String)>,
}

/// Settings, by their texts.
pub open spec fn setting_pairs(v: Seq<(String, String)>) -> Seq<(Seq<char>, Seq<char>)> {
    v.map_values(|p: (String, String)| (p.0@, p.1@))
}

impl View for Env {
    type V = Map<Seq<char>, Seq<char>>;

    closed spec fn view(&self) -> Map<Seq<char>, Seq<char>> {
        named::map_of(setting_pairs(self.pairs@))
    }
}

fn read_setting(line: &str) -> (r: Option<(String, String)>)
    ensures
        (match r {
            Some(p) => setting_in(line@) == Some((p.0@, p.1@)),
            None => setting_in(line@) is None,
        }),
{
    let t: &str = text::trim(line);
    if t.unicode_len() == 0 {
        return None;
    }
    if t.get_char(0) == '#' {
        return None;
    }
    match text::split_once(t, '=') {
        Some((k, v)) => Some((text::trim(k).to_owned(), text::trim(v).to_owned())),
        None => None,
    }
}

impl Env {
    /// The settings that a text writes, line by line; of two settings of one key the later one
    /// counts.
    pub fn parse(content: &str) -> (r: Env)
        ensures
            r@ == named::map_of(settings_in(text::lines_of(content@))),
    {
        let lines: Vec<String> = text::lines(content);
        let ghost all = text::texts(lines@);
        let mut pairs: Vec<(String, String)> = Vec::new();
        let mut i: usize = 0;
        assert(setting_pairs(pairs@) == settings_in(all.take(0)));
        while i < lines.len()
            invariant
                i <= lines.len(),
                all == text::texts(lines@),
                setting_pairs(pairs@) == settings_in(all.take(i as int)),
            decreases lines.len() - i,
        {
            assert(all.take(i + 1).drop_last() == all.take(i as int));
            assert(all.take(i + 1).last() == lines@[i as int]@);
            if let Some(p) = read_setting(lines[i].as_str()) {
                let ghost before = pairs@;
                let ghost q = (p.0@, p.1@);
                pairs.push(p);
                assert(setting_pairs(pairs@) == setting_pairs(before).push(q));
            }
            i = i + 1;
        }
        assert(all.take(i as int) == all);
        Env { pairs }
    }

    /// The value of a setting.
    pub fn get(&self, key: &str) -> (r: Option<String>)
        ensures
            (match r {
                Some(v) => self@.contains_key(key@) && self@[key@] == v@,
                None => !self@.contains_key(key@),
            }),
    {
        let mut i: usize = self.pairs.len();
        let ghost ps = setting_pairs(self.pairs@);
        while i > 0
            invariant
                i <= self.pairs.len(),
                ps == setting_pairs(self.pairs@),
                forall|j: int| i <= j < ps.len() ==> (#[trigger] ps[j]).0 != key@,
            decreases i,
        {
            i = i - 1;
            if text::same(self.pairs[i].0.as_str(), key) {
                proof {
                    assert(ps[i as int].0 == key@);
                    named::lemma_map_of_last(ps, key@, i as int);
                }
                return Some(self.pairs[i].1.clone());
            }
        }
        proof {
            named::lemma_map_of_none(ps, key@);
        }
        None
    }

    fn need(&self, key: &str) -> (r: Result<String, String>)
        ensures
            (match r {
                Ok(v) => self@.contains_key(key@) && self@[key@] == v@,
                Err(m) => !self@.contains_key(key@) && m@ == "缺少 "@ + key@,
            }),
    {
        match self.get(key) {
            Some(v) => Ok(v),
            None => {
                let mut m: String = "缺少 ".to_owned();
                m.append(key);
                Err(m)
            },
        }
    }
}

/// Where the model is, how to be let in, and which one it is.
#[derive(Debug)]
pub struct Settings {
    pub base_url: String,
    pub api_key: String,
    pub model: String,
}

/// The settings hold what stands under their keys.
pub open spec fn settings_of(env: Map<Seq<char>, Seq<char>>, s: Settings) -> bool {
    &&& env.contains_key("OPENAI_BASE_URL"@) && s.base_url@ == env["OPENAI_BASE_URL"@]
    &&& env.contains_key("OPENAI_API_KEY"@) && s.api_key@ == env["OPENAI_API_KEY"@]
    &&& env.contains_key("LLM_MODEL"@) && s.model@ == env["LLM_MODEL"@]
}

/// The first of three keys that is missing.
pub open spec fn first_missing(
    env: Map<Seq<char>, Seq<char>>,
    x: Seq<char>,
    y: Seq<char>,
    z: Seq<char>,
) -> Option<Seq<char>> {
    if !env.contains_key(x) {
        Some(x)
    } else if !env.contains_key(y) {
        Some(y)
    } else if !env.contains_key(z) {
        Some(z)
    } else {
        None
    }
}

/// The settings that a battle needs; or the complaint about the first that is missing.
pub fn battle_settings(env: &Env) -> (r: Result<Settings, String>)
    ensures
        ({
            let missing = first_missing(
                env@,
                "OPENAI_BASE_URL"@,
                "OPENAI_API_KEY"@,
                "LLM_MODEL"@,
            );
            match r {
                Ok(s) => missing is None && settings_of(env@, s),
                Err(m) => missing is Some && m@ == "缺少 "@ + missing->0,
            }
        }),
{
    let base_url: String = match env.need("OPENAI_BASE_URL") {
        Ok(v) => v,
        Err(m) => {
            return Err(m);
        },
    };
    let api_key: String = match env.need("OPENAI_API_KEY") {
        Ok(v) => v,
        Err(m) => {
            return Err(m);
        },
    };
    let model: String = match env.need("LLM_MODEL") {
        Ok(v) => v,
        Err(m) => {
            return Err(m);
        },
    };
    Ok(Settings { base_url, api_key, model })
}

/// The settings that a trial of the connection needs; or the complaint about the first that is
/// missing.
pub fn trial_settings(env: &Env) -> (r: Result<Settings, String>)
    ensures
        ({
            let missing = first_missing(
                env@,
                "OPENAI_API_KEY"@,
                "OPENAI_BASE_URL"@,
                "LLM_MODEL"@,
            );
            match r {
                Ok(s) => missing is None && settings_of(env@, s),
                Err(m) => missing is Some && m@ == "缺少 "@ + missing->0,
            }
        }),
{
    let api_key: String = match env.need("OPENAI_API_KEY") {
        Ok(v) => v,
        Err(m) => {
            return Err(m);
        },
    };
    let base_url: String = match env.need("OPENAI_BASE_URL") {
        Ok(v) => v,
        Err(m) => {
            return Err(m);
        },
    };
    let model: String = match env.need("LLM_MODEL") {
        Ok(v) => v,
        Err(m) => {
            return Err(m);
        },
    };
    Ok(Settings { base_url, api_key, model })
}

impl Settings {
    /// Where requests go: slashes at the end of the base address do not count.
    pub fn endpoint(&self) -> (r: String)
        ensures
            r@ == text::trimmed_end(self.base_url@, CharClass::Only('/'))
                + "/openai/v1/chat/completions"@,
    {
        let mut m: String = text::trim_end(
            self.base_url.as_str(),
            CharClass::Only('/'),
        ).to_owned();
        m.append("/openai/v1/chat/completions");
        m
    }

    /// What lets requests in.
    pub fn authorization(&self) -> (r: String)
        ensures
            r@ == "Bearer "@ + self.api_key@,
    {
        let mut m: String = "Bearer ".to_owned();
        m.append(self.api_key.as_str());
        m
    }
}

// Requests.

/// How long to wait before the next request, in milliseconds: requests are at least
/// `LLM_MIN_INTERVAL_MS` apart.
pub fn throttle(last_ms: u128, now_ms: u128) -> (r: Option<u64>)
    ensures
        (match r {
            Some(wait) => now_ms < last_ms + LLM_MIN_INTERVAL_MS && wait == (if now_ms >= last_ms {
                last_ms + LLM_MIN_INTERVAL_MS - now_ms
            } else {
                LLM_MIN_INTERVAL_MS as int
            }),
            None => now_ms >= last_ms + LLM_MIN_INTERVAL_MS,
        }),
{
    let elapsed: u128 = if now_ms >= last_ms {
        now_ms - last_ms
    } else {
        0
    };
    if elapsed < LLM_MIN_INTERVAL_MS {
        Some((LLM_MIN_INTERVAL_MS - elapsed) as u64)
    } else {
        None
    }
}

/// One message to the model.
#[derive(Debug)]
pub struct ChatMessage {
    pub role: String,
    pub content: String,
}

/// Messages, each by its role and content.
pub open spec fn messages_of(v: Seq<ChatMessage>) -> Seq<(Seq<char>, Seq<char>)> {
    v.map_values(|m: ChatMessage| (m.role@, m.content@))
}

/// What is sent to the model: the rules, where it has to be told them, and the text it decides on.
pub fn chat_messages(with_rules: bool, user: &str) -> (r: Vec<ChatMessage>)
    ensures
        messages_of(r@) == (if with_rules {
            seq![("system"@, prompt::BATTLE_RULES@), ("user"@, user@)]
        } else {
            seq![("user"@, user@)]
        }),
{
    let mut r: Vec<ChatMessage> = Vec::new();
    if with_rules {
        r.push(
            ChatMessage {
                role: "system".to_owned(),
                content: prompt::battle_rule_prompt().to_owned(),
            },
        );
    }
    r.push(ChatMessage { role: "user".to_owned(), content: user.to_owned() });
    assert(messages_of(r@) =~= if with_rules {
        seq![("system"@, prompt::BATTLE_RULES@), ("user"@, user@)]
    } else {
        seq![("user"@, user@)]
    });
    r
}

/// The heading of a text that is sent to the model.
pub open spec fn heading(side: Side, round: int, what: Seq<char>) -> Seq<char> {
    "\n===== LLM PROMPT ["@ + side.letter() + "方 R"@ + number::int_text(round) + "] "@ + what
        + " =====\n"@
}

fn push_heading(m: &mut String, side: Side, round: i32, what: &str)
    ensures
        final(m)@ == old(m)@ + heading(side, round as int, what@),
{
    let mut h: String = "\n===== LLM PROMPT [".to_owned();
    h.append(side.text());
    h.append("方 R");
    push_int(&mut h, round);
    h.append("] ");
    h.append(what);
    h.append(" =====\n");
    m.append(h.as_str());
}

/// What is printed of the texts that are sent to the model.
pub fn prompt_transcript(side: Side, round: i32, with_rules: bool, user: &str) -> (r: String)
    ensures
        r@ == (if with_rules {
            heading(side, round as int, "SYSTEM"@) + prompt::BATTLE_RULES@ + heading(
                side,
                round as int,
                "USER"@,
            ) + user@ + "\n===== END PROMPT =====\n"@
        } else {
            heading(side, round as int, "USER-ONLY"@) + user@ + "\n===== END PROMPT =====\n"@
        }),
{
    let mut m: String = String::new();
    if with_rules {
        push_heading(&mut m, side, round, "SYSTEM");
        assert(m@ == heading(side, round as int, "SYSTEM"@));
        m.append(prompt::battle_rule_prompt());
        push_heading(&mut m, side, round, "USER");
    } else {
        push_heading(&mut m, side, round, "USER-ONLY");
        assert(m@ == heading(side, round as int, "USER-ONLY"@));
    }
    m.append(user);
    m.append("\n===== END PROMPT =====\n");
    m
}

// Replies.

/// What the model has replied: the first of what it offers, or nothing.
pub fn reply_text(choices: &Vec<Option<String>>) -> (r: String)
    ensures
        r@ == (if choices.len() > 0 && choices@[0] is Some {
            choices@[0]->0@
        } else {
            Seq::<char>::empty()
        }),
{
    if choices.len() > 0 {
        if let Some(s) = &choices[0] {
            return s.clone();
        }
    }
    String::new()
}

/// What the model has replied to a trial: the first 80 characters of the first of what it offers,
/// or that it has replied without content.
pub fn trial_reply_text(choices: &Vec<Option<String>>) -> (r: String)
    ensures
        r@ == text::shortened(
            if choices.len() > 0 && choices@[0] is Some {
                choices@[0]->0@
            } else {
                "模型已响应（空内容）"@
            },
            80,
        ),
{
    if choices.len() > 0 {
        if let Some(s) = &choices[0] {
            return text::shorten(s.as_str(), 80).to_owned();
        }
    }
    text::shorten("模型已响应（空内容）", 80).to_owned()
}

/// The complaint about a decision that was refused: the status, and the first 150 characters of
/// the answer.
pub fn decision_refused(status: &str, body: &str) -> (r: String)
    ensures
        r@ == "决策 HTTP "@ + status@ + ": "@ + text::shortened(body@, 150),
{
    let mut m: String = "决策 HTTP ".to_owned();
    m.append(status);
    m.append(": ");
    m.append(text::shorten(body, 150));
    m
}

/// The complaint about a trial that was refused: the status, and the first 120 characters of the
/// answer.
pub fn trial_refused(status: &str, body: &str) -> (r: String)
    ensures
        r@ == "HTTP "@ + status@ + ": "@ + text::shortened(body@, 120),
{
    let mut m: String = "HTTP ".to_owned();
    m.append(status);
    m.append(": ");
    m.append(text::shorten(body, 120));
    m
}

/// What a request failed of.
#[derive(Debug, Clone, Copy)]
pub struct RequestFailure {
    pub timeout: bool,
    pub connect: bool,
    pub request: bool,
    pub decode: bool,
}

/// What a request for a decision failed of, in words.
pub open spec fn decision_failure(f: RequestFailure) -> Seq<char> {
    if f.timeout {
        "请求超时"@
    } else if f.connect {
        "连接失败（DNS/TLS/网络）"@
    } else {
        "请求异常"@
    }
}

/// What a trial failed of, in words.
pub open spec fn trial_failure(f: RequestFailure) -> Seq<char> {
    if f.timeout {
        "请求超时"@
    } else if f.connect {
        "连接失败（DNS/TLS/网络）"@
    } else if f.request {
        "请求构造失败"@
    } else if f.decode {
        "响应解析失败"@
    } else {
        "请求异常"@
    }
}

/// The complaint about a request that failed, with the causes behind the error.
pub open spec fn failure_text(
    prefix: Seq<char>,
    error: Seq<char>,
    endpoint: Seq<char>,
    kind: Seq<char>,
    causes: Seq<Seq<char>>,
) -> Seq<char> {
    prefix + ": "@ + error + " | url: "@ + endpoint + " | "@ + kind + (if causes.len() == 0 {
        seq![]
    } else {
        " | 详细原因: "@ + text::joined(causes, " -> "@)
    })
}

fn describe_failure(prefix: &str, error: &str, endpoint: &str, kind: &str, causes: &Vec<String>) -> (r:
    String)
    ensures
        r@ == failure_text(prefix@, error@, endpoint@, kind@, text::texts(causes@)),
{
    let mut m: String = prefix.to_owned();
    m.append(": ");
    m.append(error);
    m.append(" | url: ");
    m.append(endpoint);
    m.append(" | ");
    m.append(kind);
    assert(text::texts(causes@).len() == causes.len());
    if causes.len() > 0 {
        let mut c: String = " | 详细原因: ".to_owned();
        c.append(text::join(causes, " -> ").as_str());
        m.append(c.as_str());
    } else {
        assert(m@ + Seq::<char>::empty() == m@);
    }
    m
}

/// The complaint about a request for a decision that failed.
pub fn decision_failed(
    prefix: &str,
    endpoint: &str,
    error: &str,
    failure: RequestFailure,
    causes: &Vec<String>,
) -> (r: String)
    ensures
        r@ == failure_text(
            prefix@,
            error@,
            endpoint@,
            decision_failure(failure),
            text::texts(causes@),
        ),
{
    let kind: &str = if failure.timeout {
        "请求超时"
    } else if failure.connect {
        "连接失败（DNS/TLS/网络）"
    } else {
        "请求异常"
    };
    describe_failure(prefix, error, endpoint, kind, causes)
}

/// The complaint about a trial that failed.
pub fn trial_failed(
    prefix: &str,
    endpoint: &str,
    error: &str,
    failure: RequestFailure,
    causes: &Vec<String>,
) -> (r: String)
    ensures
        r@ == failure_text(
            prefix@,
            error@,
            endpoint@,
            trial_failure(failure),
            text::texts(causes@),
        ),
{
    let kind: &str = if failure.timeout {
        "请求超时"
    } else if failure.connect {
        "连接失败（DNS/TLS/网络）"
    } else if failure.request {
        "请求构造失败"
    } else if failure.decode {
        "响应解析失败"
    } else {
        "请求异常"
    };
    describe_failure(prefix, error, endpoint, kind, causes)
}

/// What is shown of a trial of the connection.
pub fn connectivity_text(outcome: Result<String, String>) -> (r: String)
    ensures
        r@ == (match outcome {
            Ok(m) => "连接成功 - "@ + m@,
            Err(m) => "连接失败 - "@ + m@,
        }),
{
    match outcome {
        Ok(m) => {
            let mut t: String = "连接成功 - ".to_owned();
            t.append(m.as_str());
            t
        },
        Err(m) => {
            let mut t: String = "连接失败 - ".to_owned();
            t.append(m.as_str());
            t
        },
    }
}

} // verus!
