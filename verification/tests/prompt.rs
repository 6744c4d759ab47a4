use artificial::client::ArtificialClient;
use artificial::fragments::current_date::current_date_message;
use artificial::fragments::current_date::ClockReading;
use artificial::fragments::current_date::CurrentDateFragment;
use artificial::fragments::static_fragment::StaticFragment;
use artificial::generic::GenericMessage;
use artificial::generic::GenericRole;
use artificial::model::map_model;
use artificial::model::Model;
use artificial::model::OpenAiModel;
use artificial::prompt::builder::PromptBuilder;
use artificial::prompt::chain::PromptChain;
use artificial::template::IntoPrompt;
use artificial::text::concat_text;
use artificial::text::decimal_string;

#[test]
fn builder_writes_markdown() {
    let md = PromptBuilder::new()
        .add_section_h1("Mission Briefing")
        .add_blank_line()
        .add_line("Your objective:")
        .add_key_value("Priority", "High")
        .add_blank_line()
        .add_text_markdown("Remember: **no disintegrations**.")
        .finalize();
    assert!(md.starts_with("# Mission Briefing"));
    assert_eq!(
        md,
        "# Mission Briefing\n\nYour objective:\n**Priority**: High\n\n```markdown\nRemember: **no disintegrations**.\n```\n"
    );
}

#[test]
fn builder_methods_one_by_one() {
    assert_eq!(PromptBuilder::new().finalize(), "");
    assert_eq!(PromptBuilder::default().finalize(), "");
    assert_eq!(PromptBuilder::new().add_section_h1("a").finalize(), "# a\n");
    assert_eq!(PromptBuilder::new().add_section_h2("a").finalize(), "## a\n");
    assert_eq!(PromptBuilder::new().add_line("a").finalize(), "a\n");
    assert_eq!(PromptBuilder::new().add_line_bold("a").finalize(), "**a**\n");
    assert_eq!(PromptBuilder::new().add_key_value("k", "v").finalize(), "**k**: v\n");
    assert_eq!(PromptBuilder::new().add_text_markdown("m").finalize(), "```markdown\nm\n```\n");
    assert_eq!(PromptBuilder::new().add_text_json("{}").finalize(), "```json\n{}\n```\n");
    assert_eq!(PromptBuilder::new().add_text_yaml("a: 1").finalize(), "```yaml\na: 1\n```\n");
    assert_eq!(PromptBuilder::new().add_blank_line().finalize(), "\n");
    assert_eq!(PromptBuilder::new().add_delimiter().finalize(), "---\n");
    assert_eq!(PromptBuilder::new().indent().add_line("x").finalize(), "\tx\n");
}

#[test]
fn chain_keeps_the_order() {
    let messages: Vec<GenericMessage> = PromptChain::new()
        .with(StaticFragment::new("You are a helpful bot.", GenericRole::System))
        .with(GenericMessage::new("hi".to_string(), GenericRole::User))
        .with(StaticFragment::from_text("Be brief."))
        .build();
    assert_eq!(messages.len(), 3);
    assert_eq!(messages[0], GenericMessage::new("You are a helpful bot.".to_string(), GenericRole::System));
    assert_eq!(messages[1], GenericMessage::new("hi".to_string(), GenericRole::User));
    assert_eq!(messages[2], GenericMessage::new("Be brief.".to_string(), GenericRole::System));
    let empty: Vec<GenericMessage> = PromptChain::default().build();
    assert!(empty.is_empty());
}

#[test]
fn current_date_text() {
    let reading = ClockReading {
        timestamp: "2025-04-20T12:34:56+00:00".to_string(),
        date: "2025-04-20".to_string(),
        time: "12:34:56".to_string(),
        weekday: "Sun".to_string(),
        timezone: "UTC".to_string(),
    };
    let message = current_date_message(&reading);
    assert_eq!(message.role, GenericRole::System);
    assert_eq!(
        message.content.as_deref(),
        Some(
            "**Current ISO Timestamp**: 2025-04-20T12:34:56+00:00\n\
             **Current Date and Time**: 2025-04-20 12:34:56\n\
             **Current Weekday**: Sun\n\
             **Timezone**: UTC\n\
             You are currently reasoning in the context of Sun, 2025-04-20, 12:34:56, UTC\n\
             \n\
             Use this information when interpreting natural language expressions like 'next week' or 'in 3 days'.\n"
        )
    );
    assert_eq!(message.name, None);
    assert_eq!(message.tool_calls, None);
    assert_eq!(message.tool_call_id, None);
}

#[test]
fn current_date_fragment_is_a_system_message() {
    let messages = PromptChain::new().with(CurrentDateFragment::new()).build();
    assert_eq!(messages.len(), 1);
    assert_eq!(messages[0].role.to_string(), "system");
    let text = messages[0].content.clone().unwrap();
    assert!(text.starts_with("**Current ISO Timestamp**: "));
    assert!(text.contains("\n**Timezone**: UTC\n"));
    assert!(text.contains(", UTC\n\nUse this information"));
    let stamp = CurrentDateFragment::new().into_prompt();
    assert_eq!(stamp.len(), 1);
}

#[test]
fn roles_have_wire_names() {
    assert_eq!(GenericRole::System.to_string(), "system");
    assert_eq!(GenericRole::Assistant.as_str(), "assistant");
    assert_eq!(GenericRole::User.as_str(), "user");
    assert_eq!(GenericRole::Tool.to_string(), "tool");
}

#[test]
fn message_builders() {
    let message = GenericMessage::new("hello".to_string(), GenericRole::User)
        .with_name("ann")
        .with_tool_call_id("call_9");
    assert_eq!(message.content.as_deref(), Some("hello"));
    assert_eq!(message.name.as_deref(), Some("ann"));
    assert_eq!(message.tool_call_id.as_deref(), Some("call_9"));
    assert_eq!(message.tool_calls, None);
    let request = GenericMessage::new_tool_call("call_1".to_string(), vec![]);
    assert_eq!(request.role, GenericRole::Assistant);
    assert_eq!(request.content, None);
    assert_eq!(request.tool_calls, Some(vec![]));
    assert_eq!(request.tool_call_id.as_deref(), Some("call_1"));
    assert_eq!(request.clone().into_prompt(), vec![request]);
}

#[test]
fn models_have_wire_names() {
    let expected = [
        (OpenAiModel::Gpt4o, "gpt-4o"),
        (OpenAiModel::Gpt4oMini, "gpt-4o-mini"),
        (OpenAiModel::O3, "o3"),
        (OpenAiModel::O3Mini, "o3-mini"),
        (OpenAiModel::O4Mini, "o4-mini"),
        (OpenAiModel::Gpt5, "gpt-5"),
        (OpenAiModel::Gpt5Nano, "gpt-5-nano"),
        (OpenAiModel::Gpt5Mini, "gpt-5-mini"),
        (OpenAiModel::Gpt5_1, "gpt-5.1"),
        (OpenAiModel::Gpt5_2, "gpt-5.2"),
    ];
    for (model, name) in expected {
        assert_eq!(map_model(&Model::from_openai(model)), Some(name));
        assert_eq!(Model::from_openai(model), Model::OpenAi(model));
    }
    assert_eq!(map_model(&Model::Custom("my-model")), Some("my-model"));
}

#[test]
fn client_hands_out_its_backend() {
    let client = ArtificialClient::new(41u32);
    assert_eq!(*client.backend(), 41);
    let copy = client.clone();
    assert_eq!(*copy.backend(), 41);
}

#[test]
fn numerals_and_joined_text() {
    assert_eq!(decimal_string(0), "0");
    assert_eq!(decimal_string(7), "7");
    assert_eq!(decimal_string(10), "10");
    assert_eq!(decimal_string(1_002_030), "1002030");
    assert_eq!(decimal_string(usize::MAX), usize::MAX.to_string());
    assert_eq!(concat_text("ab", "cd"), "abcd");
    assert_eq!(concat_text("", ""), "");
}

struct Greeting(&'static str);

impl IntoPrompt for Greeting {
    type Message = String;

    fn into_prompt(self) -> Vec<String> {
        vec!["hello".to_string(), self.0.to_string()]
    }
}

#[test]
fn chain_takes_any_prompt() {
    let messages = PromptChain::new().with(Greeting("ann")).with(Greeting("bob")).build();
    assert_eq!(messages, vec!["hello", "ann", "hello", "bob"]);
}

#[test]
fn conversions_by_from() {
    assert_eq!(Model::from(OpenAiModel::Gpt4oMini), Model::OpenAi(OpenAiModel::Gpt4oMini));
    let messages = StaticFragment::from("Stay calm.").into_prompt();
    assert_eq!(messages, vec![GenericMessage::new("Stay calm.".to_string(), GenericRole::System)]);
}
