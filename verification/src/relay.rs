//! The streaming relay to a chat-completion service: where a request goes,
//! what it holds, and which models the service offers.

pub mod sse;
pub mod stream;

use vstd::prelude::*;
use crate::json::{
    Json, JsonView, debug_text, json_of, member, parse_json, parsed_view, render_debug,
};
use crate::lists::put_text;
use crate::text::{
    chars_between, chars_end_with, chars_trim, chars_trim_end_char, concat, copy_str, ends_with,
    from_chars, push_str, to_chars, trim, trim_end_char,
};

verus! {

/// How to reach the service.
#[derive(Clone, Debug)]
pub struct AiConfig {
    pub api_base: String,
    pub api_key: String,
    pub model: String,
}

pub const CHAT_PATH: &'static str = "/chat/completions";

pub const MODELS_PATH: &'static str = "/models";

/// The prompt of an analysis that was asked for without one.
pub const OUTLINE_PROMPT: &'static str =
    "你是一个拥有10年经验的网文主编，擅长拆解爆款小说的底层逻辑。\n请将用户提供的这一章小说内容，反向还原为【细纲/章纲】。\n\n要求：\n1. 必须严格按照原文的叙事顺序，将内容拆解为关键情节节点。\n2. 每个节点必须包含两个部分：\n   - 【剧情概括】：用简练的语言概括发生了什么（Who Did What）。\n   - 【写作目的】：深度分析作者写这一段的意图（例如：制造冲突、拉高期待、压抑情绪、制造危机、展示金手指、打脸爽点、埋下伏笔、转换地图等）。\n\n请使用以下格式输出：\n\n### 1. [剧情节点]\n> **概括**: ...\n> **目的**: (例如：制造冲突) ...\n\n### 2. [剧情节点]\n...\n\n### 💡 本章核心总结\n(一句话概括本章主旨)";

/// The prompt of the analysis of a novel's opening chapters.
pub const OPENING_PROMPT: &'static str =
    "你是一个专业的网文商业分析师。请阅读以上小说开篇内容（前5章），分析并以纯 JSON 格式返回以下信息（不要使用 Markdown 代码块）：\n{\n  \"genre\": \"题材类型 (如：玄幻/系统/都市文)\",\n  \"style\": \"整体风格 (如：轻松搞笑/热血/暗黑)\",\n  \"goldfinger\": \"金手指设定 (简要概括主角的特殊能力或系统)\",\n  \"opening\": \"开篇故事梗概 (100字以内)\",\n  \"highlights\": \"核心看点与爽点分析 (50字以内)\"\n}";

/// The base address without its trailing slashes.
pub open spec fn base_of(api_base: Seq<char>) -> Seq<char> {
    trim_end_char(api_base, '/')
}

/// Where completions are asked for: the base itself where it names the
/// completions path already, else the base with that path.
pub open spec fn chat_endpoint_of(api_base: Seq<char>) -> Seq<char> {
    let base = base_of(api_base);
    if ends_with(base, CHAT_PATH@) {
        base
    } else {
        base + CHAT_PATH@
    }
}

/// Where the models are listed: the models path in place of a trailing
/// completions path, or behind the base where there is none.
pub open spec fn models_endpoint_of(api_base: Seq<char>) -> Seq<char> {
    let base = base_of(api_base);
    if ends_with(base, CHAT_PATH@) {
        base.take(base.len() - CHAT_PATH@.len()) + MODELS_PATH@
    } else {
        base + MODELS_PATH@
    }
}

/// A text that does not end in `c` loses nothing when trailing `c`s are removed.
pub proof fn lemma_trim_end_char_kept(s: Seq<char>, c: char)
    requires
        s.len() == 0 || s.last() != c,
    ensures
        trim_end_char(s, c) == s,
{
}

/// Trailing `c`s go, however many there are.
pub proof fn lemma_trim_end_char_push(s: Seq<char>, c: char)
    ensures
        trim_end_char(s.push(c), c) == trim_end_char(s, c),
{
    assert(s.push(c).drop_last() =~= s);
}

/// Endpoint resolution. Whether the base is given bare, with a trailing
/// slash, with the completions path, or with both, completions are asked for
/// at the base with the completions path. The base meant here is one that
/// ends neither in a slash nor in the completions path itself.
pub proof fn lemma_chat_endpoint(x: Seq<char>)
    requires
        x.len() == 0 || x.last() != '/',
        !ends_with(x, CHAT_PATH@),
    ensures
        chat_endpoint_of(x) == x + CHAT_PATH@,
        chat_endpoint_of(x + "/"@) == x + CHAT_PATH@,
        chat_endpoint_of(x + CHAT_PATH@) == x + CHAT_PATH@,
        chat_endpoint_of(x + CHAT_PATH@ + "/"@) == x + CHAT_PATH@,
{
    reveal_strlit("/chat/completions");
    reveal_strlit("/");
    let path = CHAT_PATH@;
    let full = x + path;
    lemma_trim_end_char_kept(x, '/');
    assert(x + "/"@ =~= x.push('/'));
    lemma_trim_end_char_push(x, '/');
    assert(full.last() == 's');
    lemma_trim_end_char_kept(full, '/');
    assert(full.subrange(full.len() - path.len(), full.len() as int) =~= path);
    assert(full + "/"@ =~= full.push('/'));
    lemma_trim_end_char_push(full, '/');
}

/// Where the models are listed does not depend on trailing slashes, and a
/// trailing completions path gives way to the models path.
pub proof fn lemma_models_endpoint(x: Seq<char>)
    requires
        x.len() == 0 || x.last() != '/',
        !ends_with(x, CHAT_PATH@),
    ensures
        models_endpoint_of(x) == x + MODELS_PATH@,
        models_endpoint_of(x + "/"@) == x + MODELS_PATH@,
        models_endpoint_of(x + CHAT_PATH@) == x + MODELS_PATH@,
{
    reveal_strlit("/chat/completions");
    reveal_strlit("/");
    let path = CHAT_PATH@;
    let full = x + path;
    lemma_trim_end_char_kept(x, '/');
    assert(x + "/"@ =~= x.push('/'));
    lemma_trim_end_char_push(x, '/');
    assert(full.last() == 's');
    lemma_trim_end_char_kept(full, '/');
    assert(full.subrange(full.len() - path.len(), full.len() as int) =~= path);
    assert(full.take(full.len() - path.len()) =~= x);
}

/// Where completions are asked for.
pub fn chat_endpoint(api_base: &str) -> (r: String)
    ensures
        r@ == chat_endpoint_of(api_base@),
{
    let mut base = chars_trim_end_char(&to_chars(api_base), '/');
    let path = to_chars(CHAT_PATH);
    if !chars_end_with(&base, &path) {
        push_str(&mut base, CHAT_PATH);
    }
    from_chars(&base)
}

/// Where the models are listed.
pub fn models_endpoint(api_base: &str) -> (r: String)
    ensures
        r@ == models_endpoint_of(api_base@),
{
    let base = chars_trim_end_char(&to_chars(api_base), '/');
    let path = to_chars(CHAT_PATH);
    let mut out = if chars_end_with(&base, &path) {
        proof {
            assert(base@.take(base@.len() - path@.len()) =~= base@.subrange(
                0,
                base@.len() - path@.len(),
            ));
        }
        chars_between(&base, 0, base.len() - path.len())
    } else {
        base
    };
    push_str(&mut out, MODELS_PATH);
    from_chars(&out)
}

/// The prompt that an analysis runs with: the one given, or the outline
/// prompt where the one given is blank.
pub open spec fn analysis_prompt_of(prompt: Seq<char>) -> Seq<char> {
    if trim(prompt).len() == 0 {
        OUTLINE_PROMPT@
    } else {
        prompt
    }
}

/// The prompt that an analysis runs with.
pub fn analysis_prompt(prompt: &str) -> (r: String)
    ensures
        r@ == analysis_prompt_of(prompt@),
{
    if chars_trim(&to_chars(prompt)).len() == 0 {
        copy_str(OUTLINE_PROMPT)
    } else {
        copy_str(prompt)
    }
}

/// The prompt of the analysis of a novel's opening chapters.
pub fn get_auto_analysis_prompt() -> (r: String)
    ensures
        r@ == OPENING_PROMPT@,
{
    copy_str(OPENING_PROMPT)
}

/// A completion request, as it is posted.
#[derive(Clone, Debug)]
pub struct ChatRequest {
    /// Where it is posted to.
    pub url: String,
    /// The `Authorization` header.
    pub authorization: String,
    pub model: String,
    /// The message of the `system` role.
    pub system: String,
    /// The message of the `user` role.
    pub user: String,
    pub stream: bool,
    /// The temperature, in tenths.
    pub temperature_tenths: u32,
    /// Whether the reply is asked for as a JSON object.
    pub json_object: bool,
}

pub struct ChatRequestView {
    pub url: Seq<char>,
    pub authorization: Seq<char>,
    pub model: Seq<char>,
    pub system: Seq<char>,
    pub user: Seq<char>,
    pub stream: bool,
    pub temperature_tenths: u32,
    pub json_object: bool,
}

impl DeepView for ChatRequest {
    type V = ChatRequestView;

    open spec fn deep_view(&self) -> ChatRequestView {
        ChatRequestView {
            url: self.url@,
            authorization: self.authorization@,
            model: self.model@,
            system: self.system@,
            user: self.user@,
            stream: self.stream,
            temperature_tenths: self.temperature_tenths,
            json_object: self.json_object,
        }
    }
}

impl ChatRequest {
    /// A copy of the request.
    pub fn copy(&self) -> (r: ChatRequest)
        ensures
            r.deep_view() == self.deep_view(),
    {
        ChatRequest {
            url: self.url.clone(),
            authorization: self.authorization.clone(),
            model: self.model.clone(),
            system: self.system.clone(),
            user: self.user.clone(),
            stream: self.stream,
            temperature_tenths: self.temperature_tenths,
            json_object: self.json_object,
        }
    }
}

/// The bearer header for a key.
pub open spec fn bearer(api_key: Seq<char>) -> Seq<char> {
    "Bearer "@ + api_key
}

/// The request of an analysis: a streamed completion at temperature 0.7,
/// with the prompt as the system's message and the content as the user's.
pub open spec fn chat_request_of(
    api_base: Seq<char>,
    api_key: Seq<char>,
    model: Seq<char>,
    prompt: Seq<char>,
    content: Seq<char>,
    force_json: bool,
) -> ChatRequestView {
    ChatRequestView {
        url: chat_endpoint_of(api_base),
        authorization: bearer(api_key),
        model,
        system: prompt,
        user: content,
        stream: true,
        temperature_tenths: 7,
        json_object: force_json,
    }
}

/// The request of an analysis of `content` under `prompt`.
pub fn chat_request(config: &AiConfig, prompt: &str, content: &str, force_json: bool) -> (r:
    ChatRequest)
    ensures
        r.deep_view() == chat_request_of(
            config.api_base@,
            config.api_key@,
            config.model@,
            prompt@,
            content@,
            force_json,
        ),
{
    ChatRequest {
        url: chat_endpoint(config.api_base.as_str()),
        authorization: concat("Bearer ", config.api_key.as_str()),
        model: config.model.clone(),
        system: copy_str(prompt),
        user: copy_str(content),
        stream: true,
        temperature_tenths: 7,
        json_object: force_json,
    }
}

/// The ids that the entries of a model list hold: of each entry its `id`,
/// where it has one that is a string.
pub open spec fn model_ids(entries: Seq<JsonView>) -> Seq<Seq<char>>
    decreases entries.len(),
{
    if entries.len() == 0 {
        Seq::empty()
    } else {
        let earlier = model_ids(entries.drop_last());
        match member(entries.last(), "id"@) {
            Some(JsonView::Text(id)) => earlier.push(id),
            _ => earlier,
        }
    }
}

/// The models that a reply lists under `data`; `None` where it holds no such list.
pub open spec fn listed_models(reply: JsonView) -> Option<Seq<Seq<char>>> {
    match member(reply, "data"@) {
        Some(JsonView::Array(entries)) => Some(model_ids(entries)),
        _ => None,
    }
}

/// What the service answered to the question for its models.
#[derive(Debug)]
pub enum ModelsReply {
    /// The request could not be sent; the reason.
    SendFailed(String),
    /// The service refused; its status line.
    Refused(String),
    /// The service answered with this body.
    Body(String),
}

pub enum ModelsReplyView {
    SendFailed(Seq<char>),
    Refused(Seq<char>),
    Body(Seq<char>),
}

impl DeepView for ModelsReply {
    type V = ModelsReplyView;

    open spec fn deep_view(&self) -> ModelsReplyView {
        match self {
            ModelsReply::SendFailed(e) => ModelsReplyView::SendFailed(e@),
            ModelsReply::Refused(status) => ModelsReplyView::Refused(status@),
            ModelsReply::Body(body) => ModelsReplyView::Body(body@),
        }
    }
}

pub open spec fn send_failed_message(error: Seq<char>) -> Seq<char> {
    "Request failed: "@ + error
}

pub open spec fn refused_message(status: Seq<char>) -> Seq<char> {
    "API Error "@ + status
}

pub open spec fn malformed_message(complaint: Seq<char>) -> Seq<char> {
    "Parse error: "@ + complaint
}

pub open spec fn unknown_format_message(reply: JsonView) -> Seq<char> {
    "Unknown response format: "@ + debug_text(reply)
}

/// The models of a parsed reply, or the complaint about its shape.
pub open spec fn models_of_reply(reply: JsonView) -> Result<Seq<Seq<char>>, Seq<char>> {
    match listed_models(reply) {
        Some(models) => Ok(models),
        None => Err(unknown_format_message(reply)),
    }
}

/// The models of a reply body, by what it parses to.
pub open spec fn models_of_body(parsed: Result<JsonView, Seq<char>>) -> Result<
    Seq<Seq<char>>,
    Seq<char>,
> {
    match parsed {
        Ok(reply) => models_of_reply(reply),
        Err(complaint) => Err(malformed_message(complaint)),
    }
}

/// The models that the service offers, or why they cannot be had.
pub open spec fn models_of(reply: ModelsReplyView) -> Result<Seq<Seq<char>>, Seq<char>> {
    match reply {
        ModelsReplyView::SendFailed(error) => Err(send_failed_message(error)),
        ModelsReplyView::Refused(status) => Err(refused_message(status)),
        ModelsReplyView::Body(body) => models_of_body(json_of(body)),
    }
}

pub open spec fn listing_view(r: Result<Vec<String>, String>) -> Result<Seq<Seq<char>>, Seq<char>> {
    match r {
        Ok(models) => Ok(models.deep_view()),
        Err(e) => Err(e@),
    }
}

/// The models that a parsed reply lists.
pub fn models_from(reply: &Json) -> (r: Result<Vec<String>, String>)
    ensures
        listing_view(r) == models_of_reply(reply.deep_view()),
{
    match reply.field("data") {
        Some(Json::Array(entries)) => {
            proof {
                Json::lemma_array_view(*entries);
            }
            let ghost all = entries.deep_view();
            let mut ids: Vec<String> = Vec::new();
            let mut i: usize = 0;
            proof {
                assert(ids.deep_view() =~= Seq::<Seq<char>>::empty());
                assert(all.take(0) =~= Seq::<JsonView>::empty());
            }
            while i < entries.len()
                invariant
                    i <= entries.len(),
                    all == entries.deep_view(),
                    ids.deep_view() == model_ids(all.take(i as int)),
                decreases entries.len() - i,
            {
                proof {
                    assert(all.take(i + 1).drop_last() =~= all.take(i as int));
                    assert(all.take(i + 1).last() == entries@[i as int].deep_view());
                }
                match entries[i].field("id") {
                    Some(Json::Text(id)) => {
                        put_text(&mut ids, id.clone());
                    },
                    _ => {},
                }
                i += 1;
            }
            proof {
                assert(all.take(entries.len() as int) =~= all);
            }
            Ok(ids)
        },
        _ => Err(concat("Unknown response format: ", render_debug(reply).as_str())),
    }
}

/// The models of a reply body, given what it parsed to.
pub fn models_from_body(parsed: Result<Json, String>) -> (r: Result<Vec<String>, String>)
    ensures
        listing_view(r) == models_of_body(parsed_view(parsed)),
{
    match parsed {
        Ok(reply) => models_from(&reply),
        Err(complaint) => Err(concat("Parse error: ", complaint.as_str())),
    }
}

/// Reads the service's answer to the question for its models.
pub fn fetch_models(reply: ModelsReply) -> (r: Result<Vec<String>, String>)
    ensures
        listing_view(r) == models_of(reply.deep_view()),
{
    match reply {
        ModelsReply::SendFailed(error) => Err(concat("Request failed: ", error.as_str())),
        ModelsReply::Refused(status) => Err(concat("API Error ", status.as_str())),
        ModelsReply::Body(body) => models_from_body(parse_json(body.as_str())),
    }
}

impl AiConfig {
    /// The configuration for listing models, which needs no model.
    pub fn for_models(api_base: &str, api_key: &str) -> (r: AiConfig)
        ensures
            r.api_base@ == api_base@,
            r.api_key@ == api_key@,
            r.model@ == Seq::<char>::empty(),
    {
        AiConfig { api_base: copy_str(api_base), api_key: copy_str(api_key), model: String::new() }
    }
}

} // verus!
