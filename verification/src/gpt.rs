//! The chat-completion exchange: the messages sent to the model, the request
//! that carries them, and the answer taken from its response.

use vstd::prelude::*;
use vstd::string::StringExecFns;
use crate::document::TextDocument;
use crate::extract::{extract_json, extracted_json};
use crate::json::{document_json, document_json_text};
use crate::prompt_config::PromptConfigEntry;

verus! {

broadcast use vstd::string::group_string_axioms;

/// One message of a chat conversation.
pub struct GptMessage {
    /// Who speaks: `system` or `user`.
    pub role: String,
    /// What is said.
    pub content: String,
}

/// A chat-completion request.
pub struct GptRequest {
    /// The model asked.
    pub model: String,
    /// The conversation.
    pub messages: Vec<GptMessage>,
    /// The sampling temperature, as the bits of an `f32`.
    pub temperature_bits: u32,
    /// The number of answers wanted.
    pub n: u32,
}

/// A chat-completion response.
pub struct GptResponse {
    /// The response's identifier.
    pub id: String,
    /// The answers, in order.
    pub choices: Vec<GptResponseChoice>,
    /// The tokens that the exchange used.
    pub usage: GptResponseUsage,
}

/// One answer of a chat-completion response.
pub struct GptResponseChoice {
    /// The answer's position.
    pub index: u64,
    /// The answer.
    pub message: GptMessage,
    /// Why the model stopped.
    pub finish_reason: String,
}

/// The tokens that an exchange used.
pub struct GptResponseUsage {
    /// Tokens of the request.
    pub prompt_tokens: u64,
    /// Tokens of the answer.
    pub completion_tokens: u64,
    /// Tokens in all.
    pub total_tokens: u64,
}

/// The role of the instructions and context given to the model.
pub open spec fn system_role() -> Seq<char> {
    seq!['s', 'y', 's', 't', 'e', 'm']
}

/// The role of the request that the model answers.
pub open spec fn user_role() -> Seq<char> {
    seq!['u', 's', 'e', 'r']
}

/// A message as a (role, content) pair of character sequences.
pub open spec fn message_view(m: GptMessage) -> (Seq<char>, Seq<char>) {
    (m.role@, m.content@)
}

/// The conversation sent for one client request: each prompt paragraph as a
/// system message, then each workspace document as a system message holding
/// its JSON, or, when there are no workspace documents, the latest document
/// opened (if any) in the same form, and last the client's request as the
/// user message.
pub open spec fn conversation(
    raw_msg: Seq<char>,
    prompts: Seq<Seq<char>>,
    documents: Seq<TextDocument>,
    latest: Option<TextDocument>,
) -> Seq<(Seq<char>, Seq<char>)> {
    prompts.map_values(|p: Seq<char>| (system_role(), p))
        + documents.map_values(|d: TextDocument| (system_role(), document_json_text(d)))
        + (if documents.len() == 0 && latest is Some {
            seq![(system_role(), document_json_text(latest->0))]
        } else {
            seq![]
        })
        + seq![(user_role(), raw_msg)]
}

/// The shape of a conversation: first the prompt paragraphs, then the
/// workspace documents, then (exactly when there are no workspace documents
/// and a latest document exists, whatever the prompts) the latest document,
/// last the client's request.
pub proof fn lemma_conversation_shape(
    raw_msg: Seq<char>,
    prompts: Seq<Seq<char>>,
    documents: Seq<TextDocument>,
    latest: Option<TextDocument>,
)
    ensures
        conversation(raw_msg, prompts, documents, latest).len() == prompts.len() + documents.len()
            + (if documents.len() == 0 && latest is Some { 1int } else { 0int }) + 1,
        forall|i: int|
            0 <= i < prompts.len() ==> #[trigger] conversation(raw_msg, prompts, documents, latest)[i]
                == (system_role(), prompts[i]),
        forall|j: int|
            0 <= j < documents.len() ==> #[trigger] conversation(raw_msg, prompts, documents, latest)[prompts.len()
                + j] == (system_role(), document_json_text(documents[j])),
        documents.len() == 0 && latest is Some ==> conversation(raw_msg, prompts, documents, latest)[
            conversation(raw_msg, prompts, documents, latest).len() - 2] == (
            system_role(),
            document_json_text(latest->0),
        ),
        conversation(raw_msg, prompts, documents, latest)[conversation(
            raw_msg,
            prompts,
            documents,
            latest,
        ).len() - 1] == (user_role(), raw_msg),
{
    let a = prompts.map_values(|p: Seq<char>| (system_role(), p));
    let b = documents.map_values(|d: TextDocument| (system_role(), document_json_text(d)));
    let c: Seq<(Seq<char>, Seq<char>)> = if documents.len() == 0 && latest is Some {
        seq![(system_role(), document_json_text(latest->0))]
    } else {
        seq![]
    };
    let conv = conversation(raw_msg, prompts, documents, latest);
    assert(conv == a + b + c + seq![(user_role(), raw_msg)]);
    assert forall|i: int| 0 <= i < prompts.len() implies #[trigger] conv[i] == (system_role(), prompts[i]) by {
        assert(conv[i] == a[i]);
    }
    assert forall|j: int| 0 <= j < documents.len() implies #[trigger] conv[prompts.len() + j] == (
        system_role(),
        document_json_text(documents[j]),
    ) by {
        assert(conv[prompts.len() + j] == b[j]);
    }
}

fn system_message(content: String) -> (m: GptMessage)
    ensures
        message_view(m) == (system_role(), content@),
{
    let role = String::from_str("system");
    proof {
        reveal_strlit("system");
    }
    assert(role@ =~= system_role());
    GptMessage { role, content }
}

/// Builds the conversation for a client request `raw_msg` answered with the
/// prompts of `prompt_config_entry`, given the documents found in the
/// workspace and the latest document that the client opened.
pub fn create_messages(
    raw_msg: String,
    prompt_config_entry: &PromptConfigEntry,
    workspace_documents: &Vec<TextDocument>,
    latest_text_document_item: &Option<TextDocument>,
) -> (r: Vec<GptMessage>)
    ensures
        r@.map_values(|m: GptMessage| message_view(m)) == conversation(
            raw_msg@,
            prompt_config_entry.prompt_views(),
            workspace_documents@,
            *latest_text_document_item,
        ),
        r@.len() == prompt_config_entry.prompt_messages@.len() + workspace_documents@.len() + (if workspace_documents@.len()
            == 0 && latest_text_document_item is Some { 1int } else { 0int }) + 1,
        forall|i: int|
            0 <= i < prompt_config_entry.prompt_messages@.len() ==> message_view(#[trigger] r@[i]) == (
                system_role(),
                prompt_config_entry.prompt_messages@[i]@,
            ),
        forall|j: int|
            0 <= j < workspace_documents@.len() ==> message_view(
                #[trigger] r@[prompt_config_entry.prompt_messages@.len() + j],
            ) == (system_role(), document_json_text(workspace_documents@[j])),
        workspace_documents@.len() == 0 && latest_text_document_item is Some ==> message_view(
            r@[r@.len() - 2],
        ) == (system_role(), document_json_text(latest_text_document_item->0)),
        message_view(r@[r@.len() - 1]) == (user_role(), raw_msg@),
{
    let ghost prompts = prompt_config_entry.prompt_views();
    let ghost docs = workspace_documents@;
    let mut messages: Vec<GptMessage> = Vec::new();
    let mut i: usize = 0;
    while i < prompt_config_entry.prompt_messages.len()
        invariant
            i <= prompts.len(),
            prompts == prompt_config_entry.prompt_views(),
            messages@.map_values(|m: GptMessage| message_view(m)) =~= prompts.subrange(0, i as int).map_values(
                |p: Seq<char>| (system_role(), p),
            ),
        decreases prompt_config_entry.prompt_messages.len() - i,
    {
        let ghost before = messages@.map_values(|m: GptMessage| message_view(m));
        let m = system_message(prompt_config_entry.prompt_messages[i].clone());
        assert(prompts[i as int] == prompt_config_entry.prompt_messages@[i as int]@);
        messages.push(m);
        assert(messages@.map_values(|m: GptMessage| message_view(m)) =~= before.push(message_view(m)));
        assert(prompts.subrange(0, i + 1).map_values(|p: Seq<char>| (system_role(), p))
            =~= prompts.subrange(0, i as int).map_values(|p: Seq<char>| (system_role(), p)).push(
            (system_role(), prompts[i as int]),
        ));
        i = i + 1;
    }
    assert(prompts.subrange(0, prompts.len() as int) =~= prompts);
    let ghost after_prompts = messages@.map_values(|m: GptMessage| message_view(m));
    let mut j: usize = 0;
    while j < workspace_documents.len()
        invariant
            j <= docs.len(),
            docs == workspace_documents@,
            messages@.map_values(|m: GptMessage| message_view(m)) =~= after_prompts + docs.subrange(
                0,
                j as int,
            ).map_values(|d: TextDocument| (system_role(), document_json_text(d))),
        decreases workspace_documents.len() - j,
    {
        let ghost before = messages@.map_values(|m: GptMessage| message_view(m));
        let m = system_message(document_json(&workspace_documents[j]));
        messages.push(m);
        assert(messages@.map_values(|m: GptMessage| message_view(m)) =~= before.push(message_view(m)));
        assert(docs.subrange(0, j + 1).map_values(|d: TextDocument| (system_role(), document_json_text(d)))
            =~= docs.subrange(0, j as int).map_values(
            |d: TextDocument| (system_role(), document_json_text(d)),
        ).push((system_role(), document_json_text(docs[j as int]))));
        j = j + 1;
    }
    assert(docs.subrange(0, docs.len() as int) =~= docs);
    let ghost after_documents = messages@.map_values(|m: GptMessage| message_view(m));
    if workspace_documents.len() == 0 {
        match latest_text_document_item {
            Some(item) => {
                let m = system_message(document_json(item));
                messages.push(m);
            },
            None => {},
        }
    }
    let ghost after_latest = messages@.map_values(|m: GptMessage| message_view(m));
    let role = String::from_str("user");
    proof {
        reveal_strlit("user");
    }
    assert(role@ =~= user_role());
    messages.push(GptMessage { role, content: raw_msg });
    assert(messages@.map_values(|m: GptMessage| message_view(m)) =~= after_latest + seq![
        (user_role(), raw_msg@),
    ]);
    proof {
        let conv = conversation(raw_msg@, prompts, docs, *latest_text_document_item);
        lemma_conversation_shape(raw_msg@, prompts, docs, *latest_text_document_item);
        let mv = messages@.map_values(|m: GptMessage| message_view(m));
        assert(mv == conv);
        assert forall|i: int| 0 <= i < messages@.len() implies message_view(#[trigger] messages@[i]) == conv[i] by {
            assert(mv[i] == message_view(messages@[i]));
        }
        assert(prompts.len() == prompt_config_entry.prompt_messages@.len());
        assert forall|i: int| 0 <= i < prompts.len() implies prompts[i] == prompt_config_entry.prompt_messages@[i]@ by {}
        assert(message_view(messages@[messages@.len() - 1]) == conv[conv.len() - 1]);
        if docs.len() == 0 && latest_text_document_item is Some {
            assert(message_view(messages@[messages@.len() - 2]) == conv[conv.len() - 2]);
        }
        assert forall|j: int| 0 <= j < docs.len() implies message_view(
            #[trigger] messages@[prompts.len() + j],
        ) == (system_role(), document_json_text(docs[j])) by {
            assert(message_view(messages@[prompts.len() + j]) == conv[prompts.len() + j]);
        }
        assert forall|i: int| 0 <= i < prompts.len() implies message_view(#[trigger] messages@[i]) == (
            system_role(),
            prompt_config_entry.prompt_messages@[i]@,
        ) by {
            assert(message_view(messages@[i]) == conv[i]);
        }
    }
    messages
}

/// The request that asks the model of `prompt_config_entry`, at its
/// temperature, for one answer to `messages`.
pub fn create_request(prompt_config_entry: &PromptConfigEntry, messages: Vec<GptMessage>) -> (r:
    GptRequest)
    ensures
        r.model@ == prompt_config_entry.model@,
        r.messages@ == messages@,
        r.temperature_bits == prompt_config_entry.model_temperature_bits,
        r.n == 1,
{
    GptRequest {
        model: prompt_config_entry.model.clone(),
        messages,
        temperature_bits: prompt_config_entry.model_temperature_bits,
        n: 1,
    }
}

/// The answer taken from a response: the JSON extracted from the first
/// choice's content; `None` when the response has no choice.
pub fn reply_text(response: &GptResponse) -> (r: Option<&str>)
    ensures
        r is None <==> response.choices@.len() == 0,
        r matches Some(t) ==> t@ == extracted_json(response.choices@[0].message.content@),
{
    if response.choices.len() == 0 {
        None
    } else {
        Some(extract_json(response.choices[0].message.content.as_str()))
    }
}

} // verus!
