use novel_spider::json::Json;
use novel_spider::model::Status;
use novel_spider::relay::sse::{chunk_of, chunk_of_line, content_of, payload_of, SseParser};
use novel_spider::relay::stream::{
    stream_analysis, AnalysisStream, StreamAction, StreamEvent, StreamStage,
};
use novel_spider::relay::{
    analysis_prompt, chat_endpoint, chat_request, fetch_models, get_auto_analysis_prompt,
    models_endpoint, models_from, models_from_body, AiConfig, ModelsReply,
};

fn config(base: &str) -> AiConfig {
    AiConfig { api_base: base.to_string(), api_key: "sk-test".to_string(), model: "gpt-x".to_string() }
}

fn feed_all(pieces: &[&str]) -> (Vec<String>, Vec<String>) {
    let mut parser = SseParser::new();
    let mut chunks = Vec::new();
    for piece in pieces {
        chunks.extend(parser.feed(piece));
    }
    let rest = parser.feed("\n");
    (chunks, rest)
}

#[test]
fn endpoint_resolution() {
    for x in ["https://api.example.com/v1", "x", "", "http://localhost:8080"] {
        let expected = format!("{}/chat/completions", x);
        for base in [
            x.to_string(),
            format!("{}/", x),
            format!("{}/chat/completions", x),
            format!("{}/chat/completions/", x),
        ] {
            assert_eq!(chat_endpoint(&base), expected);
        }
    }
    assert_eq!(chat_endpoint("x///"), "x/chat/completions");
    assert_eq!(chat_endpoint("x/chat/completions/extra"), "x/chat/completions/extra/chat/completions");
}

#[test]
fn models_endpoint_replaces_a_trailing_completions_path() {
    assert_eq!(models_endpoint("https://api.example.com/v1"), "https://api.example.com/v1/models");
    assert_eq!(models_endpoint("https://api.example.com/v1/"), "https://api.example.com/v1/models");
    assert_eq!(models_endpoint("https://api.example.com/v1/chat/completions"), "https://api.example.com/v1/models");
    assert_eq!(models_endpoint("https://api.example.com/v1/chat/completions/"), "https://api.example.com/v1/models");
    assert_eq!(
        models_endpoint("https://h/chat/completions/v1/chat/completions"),
        "https://h/chat/completions/v1/models"
    );
}

#[test]
fn the_request_of_an_analysis() {
    let r = chat_request(&config("https://api.example.com/v1/"), "提示", "正文", true);
    assert_eq!(r.url, "https://api.example.com/v1/chat/completions");
    assert_eq!(r.authorization, "Bearer sk-test");
    assert_eq!(r.model, "gpt-x");
    assert_eq!(r.system, "提示");
    assert_eq!(r.user, "正文");
    assert!(r.stream);
    assert_eq!(r.temperature_tenths, 7);
    assert!(r.json_object);
    assert!(!chat_request(&config("x"), "p", "c", false).json_object);
    let copy = r.copy();
    assert_eq!(copy.url, r.url);
    assert_eq!(copy.user, r.user);
    let listing = AiConfig::for_models("b", "k");
    assert_eq!(listing.api_base, "b");
    assert_eq!(listing.api_key, "k");
    assert_eq!(listing.model, "");
}

#[test]
fn a_blank_prompt_gives_way_to_the_outline_prompt() {
    assert_eq!(analysis_prompt("我的提示"), "我的提示");
    assert_eq!(analysis_prompt(" 我的提示 "), " 我的提示 ");
    for blank in ["", "   ", "\n\t"] {
        let p = analysis_prompt(blank);
        assert!(p.starts_with("你是一个拥有10年经验的网文主编"));
        assert!(p.ends_with("(一句话概括本章主旨)"));
        assert!(p.contains("### 1. [剧情节点]\n> **概括**: ...\n> **目的**: (例如：制造冲突) ..."));
    }
    let auto = get_auto_analysis_prompt();
    assert!(auto.starts_with("你是一个专业的网文商业分析师。"));
    assert!(auto.contains("\n  \"genre\": \"题材类型 (如：玄幻/系统/都市文)\",\n"));
    assert!(auto.ends_with("\"highlights\": \"核心看点与爽点分析 (50字以内)\"\n}"));
}

#[test]
fn sse_relay() {
    let mut stream = AnalysisStream::new(chat_request(&config("x"), "p", "c", false));
    let begun = stream_analysis(&mut stream, StreamEvent::Begin);
    assert!(matches!(&begun[0], StreamAction::EmitStatus { message, status: Status::Start } if message == "Connecting to AI at x/chat/completions..."));
    assert!(matches!(&begun[1], StreamAction::Post { request } if request.url == "x/chat/completions"));
    assert!(matches!(stream_analysis(&mut stream, StreamEvent::Connected)[..], [StreamAction::ReadPiece]));
    let pieces = [
        "data: {\"choices\":[{\"delta\":{\"content\":\"he",
        "llo\"}}]}\n",
        "data: {\"choices\":[{\"delta\":{\"content\":\" world\"}}]}\n",
        "data: [DONE]\n",
    ];
    let mut chunks = Vec::new();
    for piece in pieces {
        let actions = stream_analysis(&mut stream, StreamEvent::Piece(piece.as_bytes().to_vec()));
        let (last, emitted) = actions.split_last().unwrap();
        assert!(matches!(last, StreamAction::ReadPiece));
        for action in emitted {
            match action {
                StreamAction::EmitChunk { chunk } => chunks.push(chunk.clone()),
                _ => panic!("only chunks are emitted while the reply is read"),
            }
        }
    }
    assert_eq!(chunks, vec!["hello", " world"]);
    let ended = stream_analysis(&mut stream, StreamEvent::End);
    assert_eq!(ended.len(), 2);
    assert!(matches!(&ended[0], StreamAction::EmitStatus { message, status: Status::Done } if message == "Analysis Complete"));
    assert!(matches!(&ended[1], StreamAction::Finished));
    assert_eq!(stream.stage(), StreamStage::Done);
}

#[test]
fn sse_robustness() {
    let stream = "data: {\"choices\":[{\"delta\":{\"content\":\"第一\"}}]}\n\n: keep-alive\n\
data: {\"unknown\":1}\r\ndata: not json\n  data: {\"choices\":[{\"delta\":{\"content\":\"二\\n\"}}]}  \n\
event: ping\ndata: {\"choices\":[{\"delta\":{}}]}\ndata: {\"choices\":[{\"delta\":{\"content\":\"三\"}}]}\ndata: [DONE]\n";
    let (whole, _) = feed_all(&[stream]);
    assert_eq!(whole, vec!["第一", "二\n", "三"]);
    let chars: Vec<char> = stream.chars().collect();
    for cut in 0..=chars.len() {
        let first: String = chars[..cut].iter().collect();
        let second: String = chars[cut..].iter().collect();
        assert_eq!(feed_all(&[&first, &second]).0, whole);
    }
    let singles: Vec<String> = chars.iter().map(|c| c.to_string()).collect();
    let refs: Vec<&str> = singles.iter().map(|s| s.as_str()).collect();
    assert_eq!(feed_all(&refs).0, whole);
}

#[test]
fn bytes_cut_anywhere_read_the_same() {
    let stream = "data: {\"choices\":[{\"delta\":{\"content\":\"你好\"}}]}\n\
data: {\"choices\":[{\"delta\":{\"content\":\"💡 世界\"}}]}\n";
    let bytes = stream.as_bytes();
    let mut whole = SseParser::new();
    let expected = whole.feed_bytes(bytes);
    assert_eq!(expected, vec!["你好", "💡 世界"]);
    for cut in 0..=bytes.len() {
        let mut parser = SseParser::new();
        let mut chunks = parser.feed_bytes(&bytes[..cut]);
        chunks.extend(parser.feed_bytes(&bytes[cut..]));
        assert_eq!(chunks, expected);
    }
    let mut parser = SseParser::new();
    let mut chunks = Vec::new();
    for byte in bytes {
        chunks.extend(parser.feed_bytes(&[*byte]));
    }
    assert_eq!(chunks, expected);
}

#[test]
fn bytes_that_are_not_text_are_read_as_replacement_characters() {
    let mut parser = SseParser::new();
    let chunks = parser.feed_bytes(b"data: {\"choices\":[{\"delta\":{\"content\":\"a\xffb\"}}]}\n");
    assert_eq!(chunks, vec!["a\u{fffd}b"]);
}

#[test]
fn an_incomplete_line_releases_nothing() {
    let mut parser = SseParser::new();
    assert!(parser.feed("data: {\"choices\":[{\"delta\":{\"content\":\"x\"}}]}").is_empty());
    assert_eq!(parser.feed("\n"), vec!["x"]);
    assert!(parser.feed("\n\n").is_empty());
}

#[test]
fn the_payload_of_a_line() {
    assert_eq!(payload_of("data: {}"), Some("{}".to_string()));
    assert_eq!(payload_of("  data: [DONE] \r"), Some("[DONE]".to_string()));
    assert_eq!(payload_of("data: "), None);
    assert_eq!(payload_of("data:  x"), Some(" x".to_string()));
    assert_eq!(payload_of("data:{}"), None);
    assert_eq!(payload_of("event: x"), None);
    assert_eq!(payload_of(""), None);
}

#[test]
fn the_chunk_of_a_payload() {
    let record = "{\"choices\":[{\"delta\":{\"content\":\"好\"}},{\"delta\":{\"content\":\"二\"}}]}";
    assert_eq!(chunk_of(record, Json::parse(record)), Some("好".to_string()));
    assert_eq!(chunk_of("[DONE]", Json::parse("[DONE]")), None);
    assert_eq!(chunk_of("[DONE]", Json::parse(record)), None);
    assert_eq!(chunk_of("x", Err("bad".to_string())), None);
    assert_eq!(chunk_of_line("data: {\"choices\":[{\"delta\":{\"content\":\"\"}}]}"), Some(String::new()));
    assert_eq!(chunk_of_line("data: {\"choices\":[{\"delta\":{\"content\":null}}]}"), None);
    assert_eq!(chunk_of_line("data: {\"choices\":{\"0\":{\"delta\":{\"content\":\"x\"}}}}"), None);
    assert_eq!(chunk_of_line("data: {\"choices\":[]}"), None);
    assert_eq!(chunk_of_line("data: 5"), None);
}

#[test]
fn the_content_delta_of_a_record() {
    let content = Json::Text("好".to_string());
    let delta = Json::Object(vec![("role".to_string(), Json::Null), ("content".to_string(), content)]);
    let choice = Json::Object(vec![("index".to_string(), Json::Number("0".to_string())), ("delta".to_string(), delta)]);
    let record = Json::Object(vec![("id".to_string(), Json::Text("1".to_string())), ("choices".to_string(), Json::Array(vec![choice]))]);
    assert_eq!(content_of(&record), Some("好".to_string()));
    assert_eq!(content_of(&Json::Array(Vec::new())), None);
    assert_eq!(content_of(&Json::Object(vec![("choices".to_string(), Json::Array(Vec::new()))])), None);
    let number = Json::Object(vec![("content".to_string(), Json::Number("1".to_string()))]);
    let choice = Json::Object(vec![("delta".to_string(), number)]);
    assert_eq!(content_of(&Json::Object(vec![("choices".to_string(), Json::Array(vec![choice]))])), None);
}

#[test]
fn a_refusal_is_reported_with_its_status_and_body() {
    let mut stream = AnalysisStream::new(chat_request(&config("x"), "p", "c", false));
    stream_analysis(&mut stream, StreamEvent::Begin);
    let asked = stream_analysis(&mut stream, StreamEvent::Refused("401 Unauthorized".to_string()));
    assert!(matches!(asked[..], [StreamAction::ReadErrorBody]));
    assert_eq!(stream.stage(), StreamStage::Refused);
    let failed = stream_analysis(&mut stream, StreamEvent::ErrorBody("{\"error\":\"bad key\"}".to_string()));
    assert!(matches!(&failed[0], StreamAction::EmitStatus { message, status: Status::Error }
        if message == "Error: API Error 401 Unauthorized: {\"error\":\"bad key\"}"));
    assert!(matches!(&failed[1], StreamAction::Failed { message }
        if message == "API Error 401 Unauthorized: {\"error\":\"bad key\"}"));
    assert_eq!(stream.stage(), StreamStage::Failed);
    assert!(stream_analysis(&mut stream, StreamEvent::End).is_empty());
}

#[test]
fn transport_failures_end_the_analysis() {
    let mut stream = AnalysisStream::new(chat_request(&config("x"), "p", "c", false));
    stream_analysis(&mut stream, StreamEvent::Begin);
    let failed = stream_analysis(&mut stream, StreamEvent::SendFailed("dns error".to_string()));
    assert!(matches!(&failed[1], StreamAction::Failed { message } if message == "Request failed: dns error"));
    assert!(matches!(&failed[0], StreamAction::EmitStatus { message, .. } if message == "Error: Request failed: dns error"));

    let mut stream = AnalysisStream::new(chat_request(&config("x"), "p", "c", false));
    assert!(stream_analysis(&mut stream, StreamEvent::Connected).is_empty());
    stream_analysis(&mut stream, StreamEvent::Begin);
    stream_analysis(&mut stream, StreamEvent::Connected);
    let failed = stream_analysis(&mut stream, StreamEvent::ReadFailed("connection reset".to_string()));
    assert!(matches!(&failed[1], StreamAction::Failed { message } if message == "connection reset"));
    assert_eq!(stream.stage(), StreamStage::Failed);
}

#[test]
fn the_models_of_a_reply() {
    let body = "{\"object\":\"list\",\"data\":[{\"id\":\"gpt-a\"},{\"name\":\"no id\"},{\"id\":7},{\"id\":\"gpt-b\"},\"x\"]}";
    assert_eq!(fetch_models(ModelsReply::Body(body.to_string())), Ok(vec!["gpt-a".to_string(), "gpt-b".to_string()]));
    assert_eq!(fetch_models(ModelsReply::Body("{\"data\":[]}".to_string())), Ok(Vec::new()));
    assert_eq!(fetch_models(ModelsReply::SendFailed("timeout".to_string())), Err("Request failed: timeout".to_string()));
    assert_eq!(fetch_models(ModelsReply::Refused("403 Forbidden".to_string())), Err("API Error 403 Forbidden".to_string()));
}

#[test]
fn a_reply_of_another_shape_is_shown_as_it_is() {
    let body = "{\"models\":[\"a\"],\"n\":1.5}";
    let value: serde_json::Value = serde_json::from_str(body).unwrap();
    assert_eq!(
        fetch_models(ModelsReply::Body(body.to_string())),
        Err(format!("Unknown response format: {:?}", value))
    );
    let value: serde_json::Value = serde_json::from_str("{\"data\":{\"id\":\"x\"}}").unwrap();
    assert_eq!(
        models_from(&Json::parse("{\"data\":{\"id\":\"x\"}}").unwrap()),
        Err(format!("Unknown response format: {:?}", value))
    );
}

#[test]
fn a_body_that_is_not_json_is_a_parse_error() {
    let complaint = serde_json::from_str::<serde_json::Value>("<html>").unwrap_err().to_string();
    assert_eq!(fetch_models(ModelsReply::Body("<html>".to_string())), Err(format!("Parse error: {}", complaint)));
    assert_eq!(models_from_body(Err("boom".to_string())), Err("Parse error: boom".to_string()));
}
