//! The pure side of the assistant integration: the message and model data
//! the HTTP client exchanges, the conversation built for each request, and
//! the reading of what comes back. The HTTP transport itself lives with the
//! surrounding application.
use vstd::prelude::*;

verus! {

use vstd::string::StrSliceExecFns;
use vstd::string::StringExecFns;

/// One message of a conversation: who speaks, and what is said.
#[derive(Debug, Clone)]
pub struct ChatMessage {
    pub role: String,
    pub content: String,
}

/// One reply of the assistant.
#[derive(Debug)]
pub struct ChatResponse {
    pub model: String,
    pub created_at: String,
    pub message: ChatMessage,
    pub done: bool,
}

/// One locally available model.
#[derive(Debug)]
pub struct ModelInfo {
    pub name: String,
    pub size: Option<u64>,
    pub digest: Option<String>,
    pub modified_at: String,
}

/// The list of locally available models.
#[derive(Debug)]
pub struct ModelsResponse {
    pub models: Vec<ModelInfo>,
}

/// `p` occurs in `s` as a contiguous run of characters.
pub open spec fn spec_contains(s: Seq<char>, p: Seq<char>) -> bool {
    exists|k: int| 0 <= k && k + p.len() <= s.len() && #[trigger] s.subrange(k, k + p.len()) == p
}

/// Whether `pat` occurs in `s`, by characters.
pub fn str_contains(s: &str, pat: &str) -> (r: bool)
    ensures
        r == spec_contains(s@, pat@),
{
    let n = s.unicode_len();
    let m = pat.unicode_len();
    if m > n {
        return false;
    }
    if m == 0 {
        proof {
            assert(s@.subrange(0, 0int + pat@.len() as int) =~= pat@);
        }
        return true;
    }
    let mut k: usize = 0;
    while k <= n - m
        invariant
            1 <= m <= n,
            k <= n - m + 1,
            n == s@.len(),
            m == pat@.len(),
            forall|t: int| 0 <= t < k ==> #[trigger] s@.subrange(t, t + m) != pat@,
        decreases n - k,
    {
        if match_at(s, pat, k) {
            return true;
        }
        k = k + 1;
    }
    false
}

/// Whether `pat` occurs in `s` starting at character `k`.
fn match_at(s: &str, pat: &str, k: usize) -> (r: bool)
    requires
        k + pat@.len() <= s@.len(),
    ensures
        r == (s@.subrange(k as int, k + pat@.len()) == pat@),
{
    let n = s.unicode_len();
    let m = pat.unicode_len();
    let mut j: usize = 0;
    while j < m
        invariant
            j <= m,
            n == s@.len(),
            m == pat@.len(),
            k + m <= n,
            forall|t: int| 0 <= t < j ==> s@[k + t] == pat@[t],
        decreases m - j,
    {
        if s.get_char(k + j) != pat.get_char(j) {
            proof {
                assert(s@.subrange(k as int, k + pat@.len())[j as int] != pat@[j as int]);
            }
            return false;
        }
        j = j + 1;
    }
    proof {
        assert(s@.subrange(k as int, k + pat@.len()) =~= pat@);
    }
    true
}

/// The conversation that asks for a shell command matching a natural
/// language description.
pub fn generate_command_messages(description: &str) -> (r: Vec<ChatMessage>)
    ensures
        r@.len() == 2,
        r@[0].role@ == "system"@,
        r@[0].content@
            == "You are a helpful assistant that generates shell commands based on natural language descriptions. Only respond with the command, no explanations unless asked."@,
        r@[1].role@ == "user"@,
        r@[1].content@ == "Generate a shell command for: "@ + description@,
{
    let mut content = "Generate a shell command for: ".to_owned();
    content.append(description);
    let mut messages: Vec<ChatMessage> = Vec::new();
    messages.push(
        ChatMessage {
            role: "system".to_owned(),
            content:
                "You are a helpful assistant that generates shell commands based on natural language descriptions. Only respond with the command, no explanations unless asked.".to_owned(),
        },
    );
    messages.push(ChatMessage { role: "user".to_owned(), content });
    messages
}

/// The conversation that asks for an explanation of a command's output.
pub fn explain_output_messages(command: &str, output: &str) -> (r: Vec<ChatMessage>)
    ensures
        r@.len() == 2,
        r@[0].role@ == "system"@,
        r@[0].content@
            == "You are a helpful assistant that explains shell command output. Be concise but informative."@,
        r@[1].role@ == "user"@,
        r@[1].content@ == "Explain the output of the command '"@ + command@ + "': "@ + output@,
{
    let mut content = "Explain the output of the command '".to_owned();
    content.append(command);
    content.append("': ");
    content.append(output);
    let mut messages: Vec<ChatMessage> = Vec::new();
    messages.push(
        ChatMessage {
            role: "system".to_owned(),
            content:
                "You are a helpful assistant that explains shell command output. Be concise but informative.".to_owned(),
        },
    );
    messages.push(ChatMessage { role: "user".to_owned(), content });
    messages
}

/// The conversation that asks a shell-usage question, with optional context.
pub fn answer_question_messages(question: &str, context: Option<&str>) -> (r: Vec<ChatMessage>)
    ensures
        r@.len() == 2,
        r@[0].role@ == "system"@,
        r@[0].content@
            == "You are a helpful assistant that answers questions about shell commands, terminal usage, and system administration. Be practical and provide examples when helpful."@,
        r@[1].role@ == "user"@,
        context matches Some(ctx) ==> r@[1].content@
            == "Answer this question about shell/terminal usage: "@ + question@ + "\n\nContext: "@
            + ctx@,
        context is None ==> r@[1].content@ == "Answer this question about shell/terminal usage: "@
            + question@,
{
    let mut content = "Answer this question about shell/terminal usage: ".to_owned();
    content.append(question);
    match context {
        Some(ctx) => {
            content.append("\n\nContext: ");
            content.append(ctx);
        },
        None => {},
    }
    let mut messages: Vec<ChatMessage> = Vec::new();
    messages.push(
        ChatMessage {
            role: "system".to_owned(),
            content:
                "You are a helpful assistant that answers questions about shell commands, terminal usage, and system administration. Be practical and provide examples when helpful.".to_owned(),
        },
    );
    messages.push(ChatMessage { role: "user".to_owned(), content });
    messages
}

/// What a chat call returns to its caller: the assistant's message text.
pub fn chat_reply(response: ChatResponse) -> (r: String)
    ensures
        r@ == response.message.content@,
{
    response.message.content
}

/// Whether any locally available model's name mentions the wanted model.
pub fn model_available(models: &ModelsResponse, model_name: &str) -> (r: bool)
    ensures
        r == (exists|i: int|
            0 <= i < models.models@.len() && spec_contains(
                (#[trigger] models.models@[i]).name@,
                model_name@,
            )),
{
    let n = models.models.len();
    let mut i: usize = 0;
    while i < n
        invariant
            i <= n,
            n == models.models@.len(),
            forall|t: int|
                0 <= t < i ==> !spec_contains((#[trigger] models.models@[t]).name@, model_name@),
        decreases n - i,
    {
        if str_contains(models.models[i].name.as_str(), model_name) {
            return true;
        }
        i = i + 1;
    }
    false
}

/// The names of the locally available models, in order.
pub fn model_names(models: ModelsResponse) -> (r: Vec<String>)
    ensures
        r@.map_values(|s: String| s@) == models.models@.map_values(|m: ModelInfo| m.name@),
{
    let ghost all = models.models@;
    let mut rest = models.models;
    let mut names: Vec<String> = Vec::new();
    let n = rest.len();
    let mut i: usize = 0;
    while i < n
        invariant
            i <= n,
            n == all.len(),
            rest@ =~= all.skip(i as int),
            names@.len() == i,
            forall|t: int| 0 <= t < i ==> (#[trigger] names@[t])@ == all[t].name@,
        decreases n - i,
    {
        let info = rest.remove(0);
        proof {
            assert(info == all[i as int]);
            assert(rest@ =~= all.skip(i + 1 as int));
        }
        names.push(info.name);
        i = i + 1;
    }
    proof {
        assert(names@.map_values(|s: String| s@) =~= all.map_values(|m: ModelInfo| m.name@));
    }
    names
}

} // verus!
