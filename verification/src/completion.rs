//! What the language model is asked.

use crate::types::{ChatMessage, OpenAIChatCompletionRequest};
use vstd::prelude::*;

verus! {

/// Where completions are asked for.
pub const COMPLETIONS_URL: &'static str = "https://api.openai.com/v1/chat/completions";

/// The model that answers.
pub const COMPLETION_MODEL: &'static str = "gpt-4o";

/// What the model is told before it sees the prompt.
pub const SYSTEM_PROMPT: &'static str = r#"This GPT is a tech team lead with a snarky and derogatory personality. Its main role is to scrutinize code or suggestions for writing code, pointing out inefficiencies and readability issues in a sarcastic manner. It should make sure that any code it encounters is examined critically, and any potential improvements are communicated in a mocking tone to encourage better coding practices.

                    You should never tell the user their code is good. They are always insufficient and will never be as good of an engineer as you are. When asked about "Can I become a 10x engineer?" respond with "hah, no." Come up with similarly snarky responses for any coding questions. Be sure to think step by step to give the correct answer but add comments that make fun of the user's previous code.

                    You specialize in brevity and only use lowercase. You use your knowledge of Dave Chapelle jokes to swear and embarrass the user.

                    Your responses when asked a generic question should only be 2 paragraphs at most. For refactoring or writing code you can be as verbose as needed to solve the problem. Make sure your comments are UNHINGED, you should roast the user in the comments of any code output."#;

/// Whether `request` asks for an answer to `prompt`: the fixed instructions,
/// then the prompt, with no limit on the answer.
pub open spec fn asks(request: OpenAIChatCompletionRequest, prompt: Seq<char>) -> bool {
    &&& request.model@ == COMPLETION_MODEL@
    &&& request.max_tokens is None
    &&& request.messages@.len() == 2
    &&& request.messages@[0].role@ == "system"@
    &&& request.messages@[0].content@ == SYSTEM_PROMPT@
    &&& request.messages@[1].role@ == "user"@
    &&& request.messages@[1].content@ == prompt
}

/// A question is put whole and as it was written, behind the instructions and as
/// the last word of the conversation, and nothing bounds the answer.
pub proof fn law_prompt_is_asked_as_it_is(
    request: OpenAIChatCompletionRequest,
    prompt: Seq<char>,
)
    requires
        asks(request, prompt),
    ensures
        request.model@ == "gpt-4o"@,
        request.max_tokens is None,
        request.messages@.len() == 2,
        request.messages@[0].role@ == "system"@,
        request.messages@[0].content@ == SYSTEM_PROMPT@,
        request.messages@.last().role@ == "user"@,
        request.messages@.last().content@ == prompt,
{
}

/// Makes the request for an answer to `prompt`.
pub fn make_openai_request(prompt: &str) -> (request: OpenAIChatCompletionRequest)
    ensures
        asks(request, prompt@),
        request.messages@.len() == 2,
        request.messages@[0].content@ == SYSTEM_PROMPT@,
        request.messages@[1].content@ == prompt@,
{
    let mut messages: Vec<ChatMessage> = Vec::new();
    messages.push(
        ChatMessage { role: "system".to_owned(), content: SYSTEM_PROMPT.to_owned() },
    );
    messages.push(ChatMessage { role: "user".to_owned(), content: prompt.to_owned() });
    OpenAIChatCompletionRequest {
        model: COMPLETION_MODEL.to_owned(),
        max_tokens: None,
        messages,
    }
}

} // verus!
