use artificial::adapter::OpenAiAdapterBuilder;
use artificial::api_v1::chat_completion::ChatCompletionChoice;
use artificial::api_v1::chat_completion::ChatCompletionMessage;
use artificial::api_v1::chat_completion::ChatCompletionMessageForResponse;
use artificial::api_v1::chat_completion::ChatCompletionResponse;
use artificial::api_v1::chat_completion::Content;
use artificial::api_v1::chat_completion::FinishReason;
use artificial::api_v1::chat_completion::MessageRole;
use artificial::api_v1::chat_completion::ToolSpec;
use artificial::api_v1::chat_completion_stream::ChatCompletionChunkChoice;
use artificial::api_v1::chat_completion_stream::ChatCompletionChunkResponse;
use artificial::api_v1::chat_completion_stream::ChatCompletionMessageDelta;
use artificial::api_v1::common::Usage;
use artificial::api_v1::tools::tool_calls_from_generic;
use artificial::api_v1::tools::tool_calls_into_generic;
use artificial::api_v1::tools::ToolCall;
use artificial::api_v1::tools::ToolCallFunction;
use artificial::api_v1::tools::ToolType;
use artificial::delay::Delay;
use artificial::error::ArtificialError;
use artificial::error::OpenAiError;
use artificial::generic::GenericFunctionCall;
use artificial::generic::GenericFunctionCallIntent;
use artificial::generic::GenericFunctionSpec;
use artificial::generic::GenericMessage;
use artificial::generic::GenericRole;
use artificial::generic::GenericUsageReport;
use artificial::generic::ResponseContent;
use artificial::generic::StreamEvent;
use artificial::openai_client::OpenAiClient;
use artificial::provider_chat::finish_chat_completion;
use artificial::provider_chat::text_deltas;
use artificial::provider_chat::usage_report;
use artificial::provider_responses::extract_output_text;
use artificial::provider_responses::extract_usage;
use artificial::provider_responses::extract_usage_from_obj;
use artificial::provider_responses::finish_response;
use artificial::provider_responses::on_response_event;
use artificial::provider_responses::on_response_text_event;
use artificial::provider_responses::to_responses_messages;
use artificial::provider_responses::OutputItem;
use artificial::provider_responses::OutputShape;
use artificial::provider_responses::ResponseStreamEvent;
use artificial::provider_responses::UsageFields;
use artificial::provider_responses::UsageShape;
use artificial::retry::RetryPolicy;

fn json(text: &str) -> serde_json::Value {
    serde_json::from_str(text).unwrap()
}

fn intent(id: &str, name: &str, arguments: &str) -> GenericFunctionCallIntent {
    GenericFunctionCallIntent {
        id: id.to_string(),
        function: GenericFunctionCall { name: name.to_string(), arguments: json(arguments) },
    }
}

fn response_message(content: Option<&str>) -> ChatCompletionMessageForResponse {
    ChatCompletionMessageForResponse {
        role: MessageRole::Assistant,
        content: content.map(str::to_string),
        reasoning_content: Some("because".to_string()),
        tool_calls: None,
        tool_call_id: None,
        name: None,
    }
}

fn response(choices: Vec<(Option<&str>, Option<FinishReason>)>) -> ChatCompletionResponse {
    ChatCompletionResponse {
        id: None,
        object: "chat.completion".to_string(),
        created: 1,
        model: "gpt-4o".to_string(),
        choices: choices
            .into_iter()
            .enumerate()
            .map(|(index, (content, finish_reason))| ChatCompletionChoice {
                index: index as i64,
                message: response_message(content),
                finish_reason,
                finish_details: None,
            })
            .collect(),
        usage: Usage { prompt_tokens: 3, completion_tokens: 4, total_tokens: 7 },
        system_fingerprint: None,
    }
}

#[test]
fn roles_convert_both_ways() {
    assert_eq!(MessageRole::from_generic(GenericRole::System), MessageRole::System);
    assert_eq!(MessageRole::from_generic(GenericRole::Assistant), MessageRole::Assistant);
    assert_eq!(MessageRole::from_generic(GenericRole::User), MessageRole::User);
    assert_eq!(MessageRole::from_generic(GenericRole::Tool), MessageRole::Tool);
    assert_eq!(MessageRole::User.into_generic(), GenericRole::User);
    assert_eq!(MessageRole::System.into_generic(), GenericRole::System);
    assert_eq!(MessageRole::Assistant.into_generic(), GenericRole::Assistant);
    assert_eq!(MessageRole::Function.into_generic(), GenericRole::Tool);
    assert_eq!(MessageRole::Tool.into_generic(), GenericRole::Tool);
}

#[test]
fn content_on_the_wire() {
    assert_eq!(Content::Text("hi".to_string()).wire_text(), Some("hi"));
    assert_eq!(Content::Text(String::new()).wire_text(), None);
    assert_eq!(Content::from_wire(Some("hi")), Content::Text("hi".to_string()));
    assert_eq!(Content::from_wire(None), Content::Text(String::new()));
}

#[test]
fn tool_calls_convert_both_ways() {
    let generic = vec![intent("a", "f", "{\"x\":1}"), intent("b", "g", "[]")];
    let wire = tool_calls_from_generic(&generic);
    assert_eq!(wire.len(), 2);
    assert_eq!(wire[0].id, "a");
    assert_eq!(wire[0].function.name, "f");
    assert_eq!(wire[0].function.arguments, json("{\"x\":1}"));
    assert_eq!(wire[1].kind, ToolType::Function);
    assert_eq!(tool_calls_into_generic(&wire), generic);
    let single = ToolCall::from_generic(intent("c", "h", "null"));
    assert_eq!(single.kind, ToolType::Function);
    assert_eq!(single.clone().into_generic(), intent("c", "h", "null"));
    let function = ToolCallFunction::from_generic(GenericFunctionCall { name: "n".to_string(), arguments: json("1") });
    assert_eq!(function.clone().into_generic(), GenericFunctionCall { name: "n".to_string(), arguments: json("1") });
}

#[test]
fn tool_spec_is_strict() {
    let tool = ToolSpec::from_generic(GenericFunctionSpec {
        name: "f".to_string(),
        description: "does f".to_string(),
        parameters: json("{\"type\":\"object\"}"),
    });
    assert_eq!(tool.function.name, "f");
    assert_eq!(tool.function.description, "does f");
    assert_eq!(tool.function.parameters, json("{\"type\":\"object\"}"));
    assert_eq!(tool.function.strict, Some(true));
}

#[test]
fn messages_convert_both_ways() {
    let generic = GenericMessage {
        content: Some("hello".to_string()),
        role: GenericRole::Tool,
        name: Some("ann".to_string()),
        tool_calls: Some(vec![intent("a", "f", "{}")]),
        tool_call_id: Some("a".to_string()),
    };
    let wire = ChatCompletionMessage::from_generic(generic.clone());
    assert_eq!(wire.role, MessageRole::Tool);
    assert_eq!(wire.content, Some(Content::Text("hello".to_string())));
    assert_eq!(wire.name.as_deref(), Some("ann"));
    assert_eq!(wire.tool_call_id.as_deref(), Some("a"));
    assert_eq!(tool_calls_into_generic(wire.tool_calls.as_ref().unwrap()), vec![intent("a", "f", "{}")]);

    let answer = ChatCompletionMessageForResponse {
        role: MessageRole::Function,
        content: Some("hello".to_string()),
        reasoning_content: Some("hidden".to_string()),
        tool_calls: Some(tool_calls_from_generic(&[intent("a", "f", "{}")].to_vec())),
        tool_call_id: Some("a".to_string()),
        name: Some("ann".to_string()),
    };
    assert_eq!(answer.into_generic(), generic);
}

#[test]
fn finished_answer_takes_the_last_choice() {
    let answer = finish_chat_completion(response(vec![
        (Some("first"), Some(FinishReason::Length)),
        (Some("last"), Some(FinishReason::Stop)),
    ]))
    .unwrap();
    match answer.content {
        ResponseContent::Finished(message) => {
            assert_eq!(message.content.as_deref(), Some("last"));
            assert_eq!(message.role, GenericRole::Assistant);
        }
        other => panic!("unexpected content: {:?}", other),
    }
    assert_eq!(
        answer.usage,
        Some(GenericUsageReport { prompt_tokens: 3, completion_tokens: 4, total_tokens: 7 })
    );
    assert!(finish_chat_completion(response(vec![(None, None)])).is_ok());
}

#[test]
fn unfinished_answers_are_format_errors() {
    match finish_chat_completion(response(vec![])) {
        Err(ArtificialError::Backend(OpenAiError::Format(message))) => {
            assert_eq!(message, "response has no choices")
        }
        other => panic!("unexpected result: {:?}", other),
    }
    match finish_chat_completion(response(vec![(Some("x"), Some(FinishReason::Length))])) {
        Err(ArtificialError::Backend(OpenAiError::Format(message))) => {
            assert_eq!(message, "unhandled finish reason on API: Length")
        }
        other => panic!("unexpected result: {:?}", other),
    }
    match finish_chat_completion(response(vec![(Some("x"), Some(FinishReason::ToolCalls))])) {
        Err(ArtificialError::Backend(OpenAiError::Format(message))) => {
            assert_eq!(message, "unhandled finish reason on API: ToolCalls")
        }
        other => panic!("unexpected result: {:?}", other),
    }
    match finish_chat_completion(response(vec![(Some("x"), Some(FinishReason::ContentFilter))])) {
        Err(ArtificialError::Backend(OpenAiError::Format(message))) => {
            assert_eq!(message, "unhandled finish reason on API: ContentFilter")
        }
        other => panic!("unexpected result: {:?}", other),
    }
}

#[test]
fn usage_counts_are_widened() {
    let report = usage_report(&Usage { prompt_tokens: i32::MAX, completion_tokens: -1, total_tokens: 0 });
    assert_eq!(report.prompt_tokens, i32::MAX as i64);
    assert_eq!(report.completion_tokens, -1);
    assert_eq!(report.total_tokens, 0);
}

#[test]
fn text_of_every_choice_is_passed_on() {
    let chunk = ChatCompletionChunkResponse {
        id: None,
        object: String::new(),
        created: 0,
        model: String::new(),
        choices: vec![
            ChatCompletionChunkChoice {
                index: 0,
                delta: ChatCompletionMessageDelta { role: None, content: Some("a".to_string()), tool_calls: None },
                finish_reason: None,
            },
            ChatCompletionChunkChoice {
                index: 1,
                delta: ChatCompletionMessageDelta { role: None, content: None, tool_calls: None },
                finish_reason: None,
            },
            ChatCompletionChunkChoice {
                index: 2,
                delta: ChatCompletionMessageDelta { role: None, content: Some(String::new()), tool_calls: None },
                finish_reason: Some(FinishReason::Stop),
            },
        ],
    };
    assert_eq!(text_deltas(&chunk), vec!["a".to_string(), String::new()]);
}

fn fields(
    input: Option<i64>,
    prompt: Option<i64>,
    output: Option<i64>,
    completion: Option<i64>,
    total: Option<i64>,
) -> UsageFields {
    UsageFields {
        input_tokens: input,
        prompt_tokens: prompt,
        output_tokens: output,
        completion_tokens: completion,
        total_tokens: total,
    }
}

#[test]
fn usage_is_read_by_either_name() {
    let report = |p, c, t| Some(GenericUsageReport { prompt_tokens: p, completion_tokens: c, total_tokens: t });
    assert_eq!(extract_usage_from_obj(&fields(Some(1), None, Some(2), None, Some(9))), report(1, 2, 9));
    assert_eq!(extract_usage_from_obj(&fields(None, Some(1), None, Some(2), None)), report(1, 2, 3));
    assert_eq!(extract_usage_from_obj(&fields(Some(5), Some(1), Some(6), Some(2), None)), report(5, 6, 11));
    assert_eq!(extract_usage_from_obj(&fields(Some(1), None, None, None, Some(9))), None);
    assert_eq!(extract_usage_from_obj(&fields(None, None, Some(1), None, Some(9))), None);
    assert_eq!(extract_usage_from_obj(&fields(None, None, None, None, None)), None);
    assert_eq!(extract_usage_from_obj(&fields(Some(i64::MAX), None, Some(1), None, None)), None);
    assert_eq!(
        extract_usage_from_obj(&fields(Some(i64::MAX), None, Some(1), None, Some(0))),
        report(i64::MAX, 1, 0)
    );
    assert_eq!(extract_usage(&UsageShape::Other), None);
    assert_eq!(
        extract_usage(&UsageShape::Object(fields(Some(1), None, Some(1), None, None))),
        report(1, 1, 2)
    );
}

#[test]
fn output_text_is_joined() {
    let block = |kind: Option<&str>, text: Option<&str>| OutputItem::Object {
        kind: kind.map(str::to_string),
        text: text.map(str::to_string),
    };
    let array = OutputShape::Array(vec![
        block(Some("output_text"), Some("Hello")),
        block(Some("reasoning"), Some("hidden")),
        OutputItem::Other,
        block(None, Some(", ")),
        block(Some("output_text"), None),
        block(Some("output_text"), Some("world")),
    ]);
    assert_eq!(extract_output_text(&array).as_deref(), Some("Hello, world"));
    assert_eq!(extract_output_text(&OutputShape::Array(vec![])).as_deref(), Some(""));
    assert_eq!(
        extract_output_text(&OutputShape::Object { text: Some("t".to_string()) }).as_deref(),
        Some("t")
    );
    assert_eq!(extract_output_text(&OutputShape::Object { text: None }), None);
    assert_eq!(extract_output_text(&OutputShape::Other), None);
}

#[test]
fn messages_for_the_responses_endpoint() {
    let message = |role, content: Option<&str>| ChatCompletionMessage {
        role,
        content: content.map(|text| Content::Text(text.to_string())),
        name: None,
        tool_calls: None,
        tool_call_id: None,
    };
    let out = to_responses_messages(&vec![
        message(MessageRole::System, Some("be kind")),
        message(MessageRole::User, Some("hi")),
        message(MessageRole::Assistant, None),
        message(MessageRole::Tool, Some("42")),
        message(MessageRole::Function, Some("")),
    ]);
    let pairs: Vec<(&str, &str)> = out.iter().map(|m| (m.role, m.text.as_str())).collect();
    assert_eq!(
        pairs,
        vec![("system", "be kind"), ("user", "hi"), ("assistant", ""), ("tool", "42"), ("tool", "")]
    );
}

#[test]
fn responses_events_are_passed_on() {
    let step = on_response_event(&ResponseStreamEvent::OutputTextDelta { delta: "hi".to_string() });
    assert_eq!(step.events, vec![StreamEvent::TextDelta("hi".to_string())]);
    assert!(!step.finished);
    assert!(step.error.is_none());

    let step = on_response_event(&ResponseStreamEvent::OutputTextDelta { delta: String::new() });
    assert!(step.events.is_empty());
    assert!(!step.finished);

    for quiet in [
        ResponseStreamEvent::OutputTextDone { text: "all".to_string() },
        ResponseStreamEvent::RefusalDelta { delta: "no".to_string() },
        ResponseStreamEvent::RefusalDone { text: "no".to_string() },
        ResponseStreamEvent::Unknown,
    ] {
        let step = on_response_event(&quiet);
        assert!(step.events.is_empty());
        assert!(!step.finished);
        assert!(step.error.is_none());
        let text = on_response_text_event(&quiet);
        assert_eq!(text.text, None);
        assert!(!text.finished);
        assert!(text.error.is_none());
    }

    let usage = UsageShape::Object(fields(Some(1), None, Some(2), None, None));
    let step = on_response_event(&ResponseStreamEvent::Completed { usage: Some(usage) });
    assert_eq!(
        step.events,
        vec![
            StreamEvent::Usage(GenericUsageReport { prompt_tokens: 1, completion_tokens: 2, total_tokens: 3 }),
            StreamEvent::MessageEnd,
        ]
    );
    assert!(step.finished);
    for usage in [None, Some(UsageShape::Other), Some(UsageShape::Object(fields(None, None, None, None, Some(1))))] {
        let step = on_response_event(&ResponseStreamEvent::Completed { usage });
        assert_eq!(step.events, vec![StreamEvent::MessageEnd]);
        assert!(step.finished);
        assert!(step.error.is_none());
    }

    let step = on_response_event(&ResponseStreamEvent::Error { error: "{\"code\":1}".to_string() });
    assert!(step.events.is_empty());
    assert!(step.finished);
    match step.error {
        Some(ArtificialError::Backend(OpenAiError::Unknown(message))) => {
            assert_eq!(message, "responses stream error: {\"code\":1}")
        }
        other => panic!("unexpected error: {:?}", other),
    }
}

#[test]
fn responses_text_events() {
    let step = on_response_text_event(&ResponseStreamEvent::OutputTextDelta { delta: "hi".to_string() });
    assert_eq!(step.text.as_deref(), Some("hi"));
    assert!(!step.finished);
    let step = on_response_text_event(&ResponseStreamEvent::OutputTextDelta { delta: String::new() });
    assert_eq!(step.text, None);
    let step = on_response_text_event(&ResponseStreamEvent::Completed { usage: None });
    assert_eq!(step.text, None);
    assert!(step.finished);
    assert!(step.error.is_none());
    let step = on_response_text_event(&ResponseStreamEvent::Error { error: "\"x\"".to_string() });
    assert!(step.finished);
    match step.error {
        Some(ArtificialError::Backend(OpenAiError::Unknown(message))) => {
            assert_eq!(message, "responses stream error: \"x\"")
        }
        other => panic!("unexpected error: {:?}", other),
    }
}

#[test]
fn client_settings() {
    let client = OpenAiClient::new("sk-test".to_string()).unwrap();
    assert_eq!(client.chat_completions_url(), "https://api.openai.com/v1/chat/completions");
    assert_eq!(client.authorization(), "Bearer sk-test");
    assert_eq!(client.retry_policy().max_retries, 3);
    assert_eq!(client.executor().attempt, 0);

    let custom = OpenAiClient::with_http(
        "k".to_string(),
        reqwest::Client::new(),
        Some("http://localhost:8080/v1".to_string()),
    )
    .with_retry_policy(RetryPolicy {
        max_retries: 9,
        base_delay: Delay::from_millis(1),
        max_delay: Delay::from_millis(2),
        respect_retry_after: false,
    });
    assert_eq!(custom.chat_completions_url(), "http://localhost:8080/v1/chat/completions");
    assert_eq!(custom.retry_policy().max_retries, 9);
    assert_eq!(custom.executor().policy.max_delay, Delay::from_millis(2));
    let _shared: &reqwest::Client = custom.http();
}

#[test]
fn adapter_needs_a_key() {
    match OpenAiAdapterBuilder::new().build() {
        Err(ArtificialError::Invalid(message)) => {
            assert_eq!(message, "missing env variable: `OPENAI_API_KEY`")
        }
        _ => panic!("a builder without key must not build"),
    }
    match OpenAiAdapterBuilder::new_with_key(None).client_for(reqwest::Client::new()) {
        Err(ArtificialError::Invalid(message)) => {
            assert_eq!(message, "missing env variable: `OPENAI_API_KEY`")
        }
        _ => panic!("a builder without key must not build"),
    }
    let retry = RetryPolicy {
        max_retries: 1,
        base_delay: Delay::from_millis(5),
        max_delay: Delay::from_millis(50),
        respect_retry_after: true,
    };
    let adapter = OpenAiAdapterBuilder::new_with_key(Some("sk".to_string()))
        .with_retry_policy(retry)
        .build()
        .ok()
        .unwrap();
    assert_eq!(adapter.client().authorization(), "Bearer sk");
    assert_eq!(adapter.client().retry_policy().max_retries, 1);
    let plain = OpenAiAdapterBuilder::new_with_key(Some("sk".to_string())).build().ok().unwrap();
    assert_eq!(plain.client().retry_policy().max_retries, 3);
    assert_eq!(plain.client().chat_completions_url(), "https://api.openai.com/v1/chat/completions");
}

#[test]
fn errors_wrap_backend_errors() {
    match ArtificialError::from_backend(OpenAiError::Format("bad".to_string())) {
        ArtificialError::Backend(OpenAiError::Format(message)) => assert_eq!(message, "bad"),
        other => panic!("unexpected error: {:?}", other),
    }
    let invalid = std::str::from_utf8(&[0xff]).unwrap_err();
    match OpenAiError::from_utf8_error(invalid) {
        OpenAiError::Unknown(message) => {
            assert_eq!(message, format!("UTF8 error: {}", invalid))
        }
        other => panic!("unexpected error: {:?}", other),
    }
}

#[test]
fn conversions_by_from_and_into() {
    let role: GenericRole = MessageRole::Function.into();
    assert_eq!(role, GenericRole::Tool);
    assert_eq!(MessageRole::from(GenericRole::Assistant), MessageRole::Assistant);
    let call: ToolCall = intent("a", "f", "{}").into();
    assert_eq!(call.kind, ToolType::Function);
    let back: GenericFunctionCallIntent = call.into();
    assert_eq!(back, intent("a", "f", "{}"));
    let function: ToolCallFunction =
        GenericFunctionCall { name: "n".to_string(), arguments: json("[1]") }.into();
    let generic: GenericFunctionCall = function.into();
    assert_eq!(generic, GenericFunctionCall { name: "n".to_string(), arguments: json("[1]") });
    let tool: ToolSpec = GenericFunctionSpec {
        name: "f".to_string(),
        description: "d".to_string(),
        parameters: json("{}"),
    }
    .into();
    assert_eq!(tool.function.strict, Some(true));
    let error: ArtificialError = OpenAiError::Unknown("x".to_string()).into();
    assert!(matches!(error, ArtificialError::Backend(OpenAiError::Unknown(_))));
}

#[test]
fn responses_answer_is_put_together() {
    let block = |text: &str| OutputItem::Object { kind: None, text: Some(text.to_string()) };
    let report = |p, c, t| Some(GenericUsageReport { prompt_tokens: p, completion_tokens: c, total_tokens: t });
    let extra = Some(UsageShape::Object(fields(Some(1), None, Some(2), None, None)));
    let usage = Some(UsageShape::Object(fields(Some(10), None, Some(20), None, None)));
    let output = Some(OutputShape::Array(vec![block("Hello"), block(" there")]));

    let answer = finish_response(&extra, &usage, &output);
    assert_eq!(answer.usage, report(1, 2, 3));
    match answer.content {
        ResponseContent::Finished(message) => {
            assert_eq!(message, GenericMessage::new("Hello there".to_string(), GenericRole::Assistant))
        }
        other => panic!("unexpected content: {:?}", other),
    }

    assert_eq!(finish_response(&None, &usage, &output).usage, report(10, 20, 30));
    assert_eq!(finish_response(&Some(UsageShape::Other), &usage, &output).usage, None);
    assert_eq!(finish_response(&None, &None, &output).usage, None);
    for empty in [None, Some(OutputShape::Other), Some(OutputShape::Object { text: None })] {
        match finish_response(&None, &None, &empty).content {
            ResponseContent::Finished(message) => {
                assert_eq!(message, GenericMessage::new(String::new(), GenericRole::Assistant))
            }
            other => panic!("unexpected content: {:?}", other),
        }
    }
}
