use liminal::ai::ChatMessage;
use liminal::ai::ChatResponse;
use liminal::ai::ModelInfo;
use liminal::ai::ModelsResponse;
use liminal::ai::answer_question_messages;
use liminal::ai::chat_reply;
use liminal::ai::explain_output_messages;
use liminal::ai::generate_command_messages;
use liminal::ai::model_available;
use liminal::ai::model_names;
use liminal::ai::str_contains;

fn model(name: &str) -> ModelInfo {
    ModelInfo {
        name: name.to_string(),
        size: Some(1),
        digest: None,
        modified_at: "today".to_string(),
    }
}

#[test]
fn command_generation_builds_a_two_part_conversation() {
    let messages = generate_command_messages("list files");
    assert_eq!(messages.len(), 2);
    assert_eq!(messages[0].role, "system");
    assert_eq!(
        messages[0].content,
        "You are a helpful assistant that generates shell commands based on natural language descriptions. Only respond with the command, no explanations unless asked."
    );
    assert_eq!(messages[1].role, "user");
    assert_eq!(messages[1].content, "Generate a shell command for: list files");
}

#[test]
fn output_explanation_names_the_command_and_its_output() {
    let messages = explain_output_messages("ls", "a b c");
    assert_eq!(messages.len(), 2);
    assert_eq!(messages[0].role, "system");
    assert_eq!(
        messages[1].content,
        "Explain the output of the command 'ls': a b c"
    );
}

#[test]
fn questions_carry_their_context_only_when_given() {
    let bare = answer_question_messages("what is a pipe?", None);
    assert_eq!(
        bare[1].content,
        "Answer this question about shell/terminal usage: what is a pipe?"
    );
    let with = answer_question_messages("what is a pipe?", Some("used in scripts"));
    assert_eq!(
        with[1].content,
        "Answer this question about shell/terminal usage: what is a pipe?\n\nContext: used in scripts"
    );
}

#[test]
fn the_chat_reply_is_the_message_text() {
    let response = ChatResponse {
        model: "m".to_string(),
        created_at: "now".to_string(),
        message: ChatMessage {
            role: "assistant".to_string(),
            content: "ls -la".to_string(),
        },
        done: true,
    };
    assert_eq!(chat_reply(response), "ls -la");
}

#[test]
fn a_model_is_available_when_any_name_mentions_it() {
    let models = ModelsResponse {
        models: vec![model("llama3:8b"), model("deepseek-r1:1.5b")],
    };
    assert!(model_available(&models, "deepseek-r1"));
    assert!(model_available(&models, "llama3"));
    assert!(!model_available(&models, "mistral"));
    let empty = ModelsResponse { models: Vec::new() };
    assert!(!model_available(&empty, "anything"));
}

#[test]
fn model_names_come_out_in_order() {
    let models = ModelsResponse {
        models: vec![model("a"), model("b"), model("c")],
    };
    assert_eq!(
        model_names(models),
        vec!["a".to_string(), "b".to_string(), "c".to_string()]
    );
}

#[test]
fn substring_search_finds_runs_anywhere() {
    assert!(str_contains("deepseek-r1:1.5b", "r1"));
    assert!(str_contains("abc", "abc"));
    assert!(str_contains("abc", ""));
    assert!(!str_contains("abc", "abcd"));
    assert!(!str_contains("abab", "aba-"));
    assert!(str_contains("aab", "ab"));
}
