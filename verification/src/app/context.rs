//! What a turn is given: the recent messages, the sources and the tools.
//!
//! A turn sees the sources that are bound to its conversation, and nothing else of
//! the workspace.
use crate::app::cards::files_of;
use crate::app::page::HomePage;
use crate::app::process::file_title;
use crate::data::ai::provider::{ChatMessage, ChatRequest, ChatRole};
use crate::data::ai::tool::{are_builtins, builtin_tools, BoundSource, ToolContext, ToolDef};
use crate::data::ai::types::{content_hash, fnv1a, Message, MessageRole, SourceRef, SourceTarget};
use crate::data::ids::{ContainerId, ConversationId, ExternalFileId};
use crate::data::model::Snippet;
use crate::data::workspace::{Container, ExternalFileRef, Reference, ReferenceTarget};
use crate::idmap::IdMap;
use crate::text::{decimal, decimal_text, first_chars, hex_text, join, join2, join3, joined,
    joined_holds_each, take_chars, texts, trim, trimmed};
use vstd::prelude::*;

verus! {

/// How many characters of a source a turn sees.
pub const MAX_SOURCE_CHARS: usize = 4000;

/// How many messages a turn sees.
pub const HISTORY_LENGTH: usize = 20;

/// The texts of the snippets of a container.
pub open spec fn member_texts(
    members: Seq<Reference>,
    snippets: Map<Seq<char>, Snippet>,
) -> Seq<Seq<char>>
    decreases members.len(),
{
    if members.len() == 0 {
        Seq::empty()
    } else {
        let rest = member_texts(members.drop_last(), snippets);
        match members.last().target {
            ReferenceTarget::Snippet(id) => if snippets.contains_key(id@) {
                rest.push("- "@ + snippets[id@].title@ + ":\n"@ + snippets[id@].content@)
            } else {
                rest
            },
            _ => rest,
        }
    }
}

/// The title and text of a source, if it can be found. A container has the texts
/// of its own snippets, but not of the containers in it.
pub open spec fn source_text(
    page: HomePage,
    files: Map<Seq<char>, String>,
    target: SourceTarget,
) -> Option<(Seq<char>, Seq<char>)> {
    let limit = MAX_SOURCE_CHARS as int;
    match target {
        SourceTarget::Snippet(id) => if page.all_snippets@.contains_key(id@) {
            let snippet = page.all_snippets@[id@];
            Some((snippet.title@, first_chars(snippet.content@, limit)))
        } else {
            None
        },
        SourceTarget::Container(id) => if page.workspace.has_container(id@) {
            let container = page.workspace.containers@[id@];
            Some(
                (
                    "Folder "@ + container.title@,
                    first_chars(
                        joined(
                            member_texts(container.members@, page.all_snippets@),
                            "\n\n"@,
                        ),
                        limit,
                    ),
                ),
            )
        } else {
            None
        },
        SourceTarget::ExternalFile(id) => match file_title(
            files_of(page.workspace.containers.order()),
            id@,
        ) {
            Some(title) => if files.contains_key(id@) {
                Some((title, first_chars(files[id@]@, limit)))
            } else {
                None
            },
            None => None,
        },
    }
}

/// A source with its title and text.
pub struct SourceModel {
    pub target: SourceTarget,
    pub title: Seq<char>,
    pub text: Seq<char>,
}

/// The sources that can be found, in order.
pub open spec fn found_sources(
    page: HomePage,
    files: Map<Seq<char>, String>,
    targets: Seq<SourceTarget>,
) -> Seq<SourceModel>
    decreases targets.len(),
{
    if targets.len() == 0 {
        Seq::empty()
    } else {
        let rest = found_sources(page, files, targets.drop_last());
        match source_text(page, files, targets.last()) {
            Some((title, text)) => rest.push(
                SourceModel { target: targets.last(), title, text },
            ),
            None => rest,
        }
    }
}

/// A source as the prompt quotes it.
pub open spec fn quoted(n: nat, source: SourceModel) -> Seq<char> {
    "["@ + decimal_text(n) + "] "@ + source.title + "\n"@ + source.text
}

/// The sources as the prompt quotes them.
pub open spec fn quotes(sources: Seq<SourceModel>) -> Seq<Seq<char>> {
    Seq::new(sources.len(), |i: int| quoted((i + 1) as nat, sources[i]))
}

/// What the model is told at first.
pub open spec fn instructions() -> Seq<Seq<char>> {
    seq![
        "You are a knowledge assistant in FloatDea, a local-first notes app."@,
        "Answer using ONLY the read-only sources below. Cite sources as [1], [2], … in your answer."@,
        "Do not invent facts or sources. If the sources do not contain the answer, say so."@,
        "When your answer is a self-contained deliverable (a new summary or a ready-to-use note), call the core.create_output_proposal tool with a title and the full Markdown body. Never embed proposal JSON in your reply."@,
        "Never modify, append to, replace or delete any existing snippet; core.create_output_proposal only creates a brand-new Snippet proposal that the user must confirm before it is saved."@,
        Seq::<char>::empty(),
    ]
}

/// What the model is told: how to answer, and the sources.
pub open spec fn system_prompt(sources: Seq<SourceModel>) -> Seq<char> {
    let quoted = if sources.len() == 0 {
        seq!["(No sources are bound to this conversation yet.)"@]
    } else {
        quotes(sources)
    };
    joined(instructions() + quoted, "\n"@)
}

/// A message is told to the provider: all questions, and answers with a text.
pub open spec fn is_told() -> spec_fn(Message) -> bool {
    |m: Message| m.role == MessageRole::User || trimmed(m.content@).len() > 0
}

/// The last messages.
pub open spec fn recent(messages: Seq<Message>) -> Seq<Message> {
    if messages.len() > HISTORY_LENGTH {
        messages.skip(messages.len() - HISTORY_LENGTH)
    } else {
        messages
    }
}

/// The messages are told as they are.
pub open spec fn tells(told: Seq<ChatMessage>, messages: Seq<Message>) -> bool {
    &&& told.len() == messages.len()
    &&& forall|i: int|
        0 <= i < messages.len() ==> (#[trigger] told[i]).is_plain(
            match messages[i].role {
                MessageRole::User => ChatRole::User,
                MessageRole::Assistant => ChatRole::Assistant,
            },
            messages[i].content@,
        )
}

/// There is such a conversation.
pub open spec fn has_conversation(page: HomePage, ai_box: Seq<char>, conversation: Seq<char>) -> bool {
    page.ai_boxes@.contains_key(ai_box) && page.ai_boxes@[ai_box].conversations@.contains_key(
        conversation,
    )
}

/// The sources of a conversation, as a turn sees them now.
pub open spec fn turn_sources(
    page: HomePage,
    files: Map<Seq<char>, String>,
    ai_box: Seq<char>,
    conversation: Seq<char>,
) -> Seq<SourceModel> {
    if has_conversation(page, ai_box, conversation) {
        found_sources(
            page,
            files,
            page.ai_boxes@[ai_box].conversations@[conversation].sources@,
        )
    } else {
        Seq::empty()
    }
}

/// The hash of a source text.
pub open spec fn text_hash(text: Seq<char>) -> Seq<char> {
    hex_text(fnv1a(vstd::utf8::encode_utf8(text)) as int, 16)
}

/// A source was noted as it is now.
pub open spec fn is_snapshot(snapshot: SourceRef, source: SourceModel) -> bool {
    &&& snapshot.target == source.target
    &&& snapshot.title@ == source.title
    &&& snapshot.content_hash matches Some(hash)
    &&& hash@ == text_hash(source.text)
}

/// The sources were noted as they are now.
pub open spec fn are_snapshots(snapshots: Seq<SourceRef>, sources: Seq<SourceModel>) -> bool {
    &&& snapshots.len() == sources.len()
    &&& forall|i: int|
        0 <= i < sources.len() ==> is_snapshot(#[trigger] snapshots[i], sources[i])
}

/// The tools can read these sources, and no others.
pub open spec fn are_bound(bound: Seq<BoundSource>, sources: Seq<SourceModel>) -> bool {
    &&& bound.len() == sources.len()
    &&& forall|i: int|
        0 <= i < sources.len() ==> {
            &&& (#[trigger] bound[i]).index == i + 1
            &&& bound[i].target == sources[i].target
            &&& bound[i].title@ == sources[i].title
            &&& bound[i].content@ == sources[i].text
            &&& bound[i].content_hash@ == text_hash(sources[i].text)
        }
}

/// What a turn is given.
pub open spec fn is_turn_request(
    request: ChatRequest,
    page: HomePage,
    files: Map<Seq<char>, String>,
    ai_box: Seq<char>,
    conversation: Seq<char>,
) -> bool {
    let c = page.ai_boxes@[ai_box].conversations@[conversation];
    &&& request.system matches Some(system)
    &&& system@ == system_prompt(turn_sources(page, files, ai_box, conversation))
    &&& tells(request.messages@, recent(c.messages@).filter(is_told()))
    &&& if page.settings.ai_tools_enabled {
        are_builtins(request.tools@)
    } else {
        request.tools@ == Seq::<ToolDef>::empty()
    }
}

/// A source with its title and text.
pub struct FoundSource {
    pub target: SourceTarget,
    pub title: String,
    pub text: String,
}

/// What found sources stand for.
pub open spec fn source_models(found: Seq<FoundSource>) -> Seq<SourceModel> {
    found.map_values(
        |f: FoundSource| SourceModel { target: f.target, title: f.title@, text: f.text@ },
    )
}

impl HomePage {
    /// The title and text of a source. `files` holds the texts of files.
    pub fn resolve_source_text(
        &self,
        target: &SourceTarget,
        files: &IdMap<ExternalFileId, String>,
    ) -> (r: Option<(String, String)>)
        ensures
            match r {
                Some((title, text)) => source_text(*self, files@, *target) == Some(
                    (title@, text@),
                ),
                None => source_text(*self, files@, *target) is None,
            },
    {
        match target {
            SourceTarget::Snippet(id) => match self.all_snippets.get(id) {
                Some(snippet) => Some(
                    (snippet.title.clone(), take_chars(&snippet.content, MAX_SOURCE_CHARS)),
                ),
                None => None,
            },
            SourceTarget::Container(id) => match self.workspace.containers.get(id) {
                Some(container) => {
                    let parts = self.texts_of_members(container);
                    let text = take_chars(&join(&parts, "\n\n"), MAX_SOURCE_CHARS);
                    Some((join2("Folder ", &container.title), text))
                },
                None => None,
            },
            SourceTarget::ExternalFile(id) => match self.title_of_file(id) {
                Some(title) => match files.get(id) {
                    Some(text) => Some((title, take_chars(text, MAX_SOURCE_CHARS))),
                    None => None,
                },
                None => None,
            },
        }
    }

    fn texts_of_members(&self, container: &Container) -> (r: Vec<String>)
        ensures
            texts(r@) == member_texts(container.members@, self.all_snippets@),
    {
        let ghost members = container.members@;
        let mut parts: Vec<String> = Vec::new();
        let mut i: usize = 0;
        assert(texts(parts@) =~= member_texts(members.take(0), self.all_snippets@));
        while i < container.members.len()
            invariant
                i <= members.len(),
                members == container.members@,
                texts(parts@) == member_texts(members.take(i as int), self.all_snippets@),
            decreases members.len() - i,
        {
            proof {
                assert(members.take(i + 1).drop_last() =~= members.take(i as int));
                assert(members.take(i + 1).last() == members[i as int]);
            }
            let ghost before = parts@;
            match &container.members[i].target {
                ReferenceTarget::Snippet(id) => match self.all_snippets.get(id) {
                    Some(snippet) => {
                        let front = join3("- ", &snippet.title, ":\n");
                        let part = join2(&front, &snippet.content);
                        parts.push(part);
                        assert(texts(parts@) =~= texts(before).push(part@));
                    },
                    None => {},
                },
                _ => {},
            }
            i = i + 1;
        }
        assert(members.take(i as int) =~= members);
        parts
    }

    fn find_sources(&self, targets: &Vec<SourceTarget>, files: &IdMap<ExternalFileId, String>) -> (r:
        Vec<FoundSource>)
        ensures
            source_models(r@) == found_sources(*self, files@, targets@),
            r@.len() <= targets@.len(),
    {
        let mut found: Vec<FoundSource> = Vec::new();
        let mut i: usize = 0;
        assert(source_models(found@) =~= found_sources(*self, files@, targets@.take(0)));
        while i < targets.len()
            invariant
                i <= targets@.len(),
                found@.len() <= i,
                source_models(found@) == found_sources(*self, files@, targets@.take(i as int)),
            decreases targets@.len() - i,
        {
            proof {
                assert(targets@.take(i + 1).drop_last() =~= targets@.take(i as int));
                assert(targets@.take(i + 1).last() == targets@[i as int]);
            }
            let ghost before = found@;
            match self.resolve_source_text(&targets[i], files) {
                Some((title, text)) => {
                    let source = FoundSource { target: targets[i].clone(), title, text };
                    found.push(source);
                    assert(source_models(found@) =~= source_models(before).push(
                        SourceModel {
                            target: source.target,
                            title: source.title@,
                            text: source.text@,
                        },
                    ));
                },
                None => {},
            }
            i = i + 1;
        }
        assert(targets@.take(i as int) =~= targets@);
        found
    }

    fn sources_of(
        &self,
        ai_box: &ContainerId,
        conversation: &ConversationId,
        files: &IdMap<ExternalFileId, String>,
    ) -> (r: Vec<FoundSource>)
        ensures
            source_models(r@) == turn_sources(*self, files@, ai_box@, conversation@),
            has_conversation(*self, ai_box@, conversation@) ==> r@.len()
                <= self.ai_boxes@[ai_box@].conversations@[conversation@].sources@.len(),
            !has_conversation(*self, ai_box@, conversation@) ==> r@.len() == 0,
    {
        match self.ai_boxes.get(ai_box) {
            Some(data) => match data.get(conversation) {
                Some(c) => self.find_sources(&c.sources, files),
                None => {
                    let none: Vec<FoundSource> = Vec::new();
                    assert(source_models(none@) =~= Seq::<SourceModel>::empty());
                    none
                },
            },
            None => {
                let none: Vec<FoundSource> = Vec::new();
                assert(source_models(none@) =~= Seq::<SourceModel>::empty());
                none
            },
        }
    }

    /// What the model is told: how to answer, and the sources.
    pub fn build_system_prompt(
        &self,
        sources: &Vec<SourceTarget>,
        files: &IdMap<ExternalFileId, String>,
    ) -> (r: String)
        ensures
            r@ == system_prompt(found_sources(*self, files@, sources@)),
    {
        let found = self.find_sources(sources, files);
        let ghost models = source_models(found@);
        let mut parts: Vec<String> = Vec::new();
        parts.push(
            "You are a knowledge assistant in FloatDea, a local-first notes app.".to_owned(),
        );
        parts.push(
            "Answer using ONLY the read-only sources below. Cite sources as [1], [2], … in your answer.".to_owned(),
        );
        parts.push(
            "Do not invent facts or sources. If the sources do not contain the answer, say so.".to_owned(),
        );
        parts.push(
            "When your answer is a self-contained deliverable (a new summary or a ready-to-use note), call the core.create_output_proposal tool with a title and the full Markdown body. Never embed proposal JSON in your reply.".to_owned(),
        );
        parts.push(
            "Never modify, append to, replace or delete any existing snippet; core.create_output_proposal only creates a brand-new Snippet proposal that the user must confirm before it is saved.".to_owned(),
        );
        parts.push(String::new());
        assert(texts(parts@) =~= instructions());
        if found.len() == 0 {
            let ghost front = parts@;
            parts.push("(No sources are bound to this conversation yet.)".to_owned());
            assert(texts(parts@) =~= instructions() + seq![
                "(No sources are bound to this conversation yet.)"@,
            ]);
        }
        let ghost front = texts(parts@);
        let mut i: usize = 0;
        assert(texts(parts@) =~= front + quotes(models).take(0));
        while i < found.len()
            invariant
                i <= found@.len(),
                models == source_models(found@),
                texts(parts@) == front + quotes(models).take(i as int),
            decreases found@.len() - i,
        {
            let ghost before = texts(parts@);
            let source = &found[i];
            let numbered = join3("[", &decimal(i as u64 + 1), "] ");
            let titled = join3(&numbered, &source.title, "\n");
            let part = join2(&titled, &source.text);
            proof {
                assert(models[i as int].title == source.title@);
                assert(models[i as int].text == source.text@);
                assert(part@ =~= quoted((i + 1) as nat, models[i as int]));
                assert(quotes(models).take(i + 1) =~= quotes(models).take(i as int).push(part@));
            }
            let ghost all = parts@;
            parts.push(part);
            assert(texts(parts@) =~= texts(all).push(part@));
            assert(texts(parts@) =~= front + quotes(models).take(i + 1));
            i = i + 1;
        }
        proof {
            assert(quotes(models).take(i as int) =~= quotes(models));
            if models.len() == 0 {
                assert(texts(parts@) =~= front);
            } else {
                assert(texts(parts@) =~= instructions() + quotes(models));
            }
        }
        join(&parts, "\n")
    }

    /// The sources of a conversation as they are now, for the answer to keep.
    pub fn source_snapshots(
        &self,
        ai_box: &ContainerId,
        conversation: &ConversationId,
        files: &IdMap<ExternalFileId, String>,
    ) -> (r: Vec<SourceRef>)
        ensures
            are_snapshots(r@, turn_sources(*self, files@, ai_box@, conversation@)),
    {
        let found = self.sources_of(ai_box, conversation, files);
        let ghost models = source_models(found@);
        let mut snapshots: Vec<SourceRef> = Vec::new();
        let mut i: usize = 0;
        while i < found.len()
            invariant
                i <= found@.len(),
                models == source_models(found@),
                snapshots@.len() == i,
                forall|j: int| 0 <= j < i ==> is_snapshot(#[trigger] snapshots@[j], models[j]),
            decreases found@.len() - i,
        {
            let source = &found[i];
            assert(models[i as int] == (SourceModel {
                target: source.target,
                title: source.title@,
                text: source.text@,
            }));
            snapshots.push(
                SourceRef {
                    target: source.target.clone(),
                    title: source.title.clone(),
                    content_hash: Some(content_hash(&source.text)),
                },
            );
            i = i + 1;
        }
        snapshots
    }

    /// What the tools of a turn can read: the sources of its conversation.
    pub fn tool_context_for(
        &self,
        ai_box: &ContainerId,
        conversation: &ConversationId,
        files: &IdMap<ExternalFileId, String>,
    ) -> (r: ToolContext)
        requires
            has_conversation(*self, ai_box@, conversation@)
                ==> self.ai_boxes@[ai_box@].conversations@[conversation@].sources@.len() < u32::MAX,
        ensures
            are_bound(r.sources@, turn_sources(*self, files@, ai_box@, conversation@)),
    {
        let found = self.sources_of(ai_box, conversation, files);
        let ghost models = source_models(found@);
        let mut sources: Vec<BoundSource> = Vec::new();
        let mut index: u32 = 0;
        let mut i: usize = 0;
        while i < found.len()
            invariant
                i <= found@.len(),
                found@.len() < u32::MAX,
                index == i,
                models == source_models(found@),
                are_bound(sources@, models.take(i as int)),
            decreases found@.len() - i,
        {
            let source = &found[i];
            index = index + 1;
            assert(models[i as int] == (SourceModel {
                target: source.target,
                title: source.title@,
                text: source.text@,
            }));
            let ghost before = sources@;
            sources.push(
                BoundSource {
                    index,
                    target: source.target.clone(),
                    title: source.title.clone(),
                    content: source.text.clone(),
                    content_hash: content_hash(&source.text),
                },
            );
            proof {
                let next = models.take(i + 1);
                assert forall|j: int| 0 <= j < next.len() implies {
                    &&& (#[trigger] sources@[j]).index == j + 1
                    &&& sources@[j].target == next[j].target
                    &&& sources@[j].title@ == next[j].title
                    &&& sources@[j].content@ == next[j].text
                    &&& sources@[j].content_hash@ == text_hash(next[j].text)
                } by {
                    if j < i {
                        assert(sources@[j] == before[j]);
                        assert(next[j] == models.take(i as int)[j]);
                    }
                }
            }
            i = i + 1;
        }
        assert(models.take(i as int) =~= models);
        ToolContext { sources }
    }

    /// What a turn is given: the recent messages of its conversation, its sources,
    /// and the tools if they are enabled.
    pub fn build_turn_request(
        &self,
        ai_box: &ContainerId,
        conversation: &ConversationId,
        files: &IdMap<ExternalFileId, String>,
    ) -> (r: Option<ChatRequest>)
        ensures
            match r {
                Some(request) => has_conversation(*self, ai_box@, conversation@)
                    && is_turn_request(request, *self, files@, ai_box@, conversation@),
                None => !has_conversation(*self, ai_box@, conversation@),
            },
    {
        let c = match self.ai_boxes.get(ai_box) {
            Some(data) => match data.get(conversation) {
                Some(c) => c,
                None => {
                    return None;
                },
            },
            None => {
                return None;
            },
        };
        let messages = told_messages(&c.messages);
        let system = self.build_system_prompt(&c.sources, files);
        let tools: Vec<ToolDef> = if self.settings.ai_tools_enabled {
            builtin_tools()
        } else {
            Vec::new()
        };
        Some(ChatRequest::new(Some(system), messages).with_tools(tools))
    }
}

fn told_messages(messages: &Vec<Message>) -> (r: Vec<ChatMessage>)
    ensures
        tells(r@, recent(messages@).filter(is_told())),
{
    let start: usize = if messages.len() > HISTORY_LENGTH {
        messages.len() - HISTORY_LENGTH
    } else {
        0
    };
    let ghost last = recent(messages@);
    let ghost wanted = is_told();
    assert(last =~= messages@.skip(start as int));
    let mut told: Vec<ChatMessage> = Vec::new();
    let mut i: usize = start;
    proof {
        reveal(Seq::filter);
        assert(last.take(0) =~= Seq::<Message>::empty());
    }
    while i < messages.len()
        invariant
            start <= i <= messages@.len(),
            last == messages@.skip(start as int),
            wanted == is_told(),
            tells(told@, last.take(i - start).filter(wanted)),
        decreases messages@.len() - i,
    {
        let message = &messages[i];
        let ghost front = last.take(i - start);
        let ghost next = last.take(i + 1 - start);
        let ghost before = told@;
        proof {
            assert(next.drop_last() =~= front);
            assert(next.last() == *message);
            assert(next =~= front.push(*message));
            reveal(Seq::filter);
        }
        match message.role {
            MessageRole::User => {
                told.push(ChatMessage::user(&message.content));
            },
            MessageRole::Assistant => {
                if !trim(&message.content).as_str().is_empty() {
                    told.push(ChatMessage::assistant(&message.content));
                }
            },
        }
        proof {
            let kept = next.filter(wanted);
            if wanted(*message) {
                assert(kept =~= front.filter(wanted).push(*message));
                assert forall|j: int| 0 <= j < kept.len() implies (#[trigger] told@[j]).is_plain(
                    match kept[j].role {
                        MessageRole::User => ChatRole::User,
                        MessageRole::Assistant => ChatRole::Assistant,
                    },
                    kept[j].content@,
                ) by {
                    if j < before.len() {
                        assert(told@[j] == before[j]);
                    }
                }
            } else {
                assert(kept =~= front.filter(wanted));
            }
        }
        i = i + 1;
    }
    assert(last.take(i - start) =~= last);
    told
}

/// The tools of a turn see what its prompt quotes: the same sources, under the same
/// numbers, with the same texts.
pub proof fn tools_see_the_quoted_sources(
    bound: Seq<BoundSource>,
    sources: Seq<SourceModel>,
    i: int,
)
    requires
        are_bound(bound, sources),
        0 <= i < sources.len(),
    ensures
        quotes(sources)[i] == "["@ + decimal_text(bound[i].index as nat) + "] "@ + bound[i].title@
            + "\n"@ + bound[i].content@,
{
}

/// A turn sees only the sources that are bound to its conversation.
pub proof fn turns_see_bound_sources(
    page: HomePage,
    files: Map<Seq<char>, String>,
    targets: Seq<SourceTarget>,
    i: int,
)
    requires
        0 <= i < found_sources(page, files, targets).len(),
    ensures
        targets.contains(found_sources(page, files, targets)[i].target),
        source_text(page, files, found_sources(page, files, targets)[i].target) == Some(
            (
                found_sources(page, files, targets)[i].title,
                found_sources(page, files, targets)[i].text,
            ),
        ),
    decreases targets.len(),
{
    let rest = found_sources(page, files, targets.drop_last());
    if i < rest.len() {
        turns_see_bound_sources(page, files, targets.drop_last(), i);
        let target = rest[i].target;
        let k = choose|k: int| 0 <= k < targets.drop_last().len() && targets.drop_last()[k] == target;
        assert(targets[k] == target);
    } else {
        assert(targets[targets.len() - 1] == targets.last());
    }
}

/// A folder as a source holds every note of the folder: the parts of its text are
/// those of its members that are notes, all of them and in order. `at` tells which
/// member each part comes from.
pub proof fn folders_give_every_note(
    members: Seq<Reference>,
    snippets: Map<Seq<char>, Snippet>,
) -> (at: Seq<int>)
    ensures
        at.len() == member_texts(members, snippets).len(),
        forall|j: int|
            0 <= j < at.len() ==> 0 <= #[trigger] at[j] < members.len()
                && match members[at[j]].target {
                ReferenceTarget::Snippet(id) => snippets.contains_key(id@) && member_texts(
                    members,
                    snippets,
                )[j] == "- "@ + snippets[id@].title@ + ":\n"@ + snippets[id@].content@,
                _ => false,
            },
        forall|i: int, j: int| 0 <= i < j < at.len() ==> at[i] < at[j],
        forall|k: int|
            0 <= k < members.len() ==> match (#[trigger] members[k]).target {
                ReferenceTarget::Snippet(id) => snippets.contains_key(id@) ==> at.contains(k),
                _ => true,
            },
    decreases members.len(),
{
    if members.len() == 0 {
        Seq::empty()
    } else {
        let front = members.drop_last();
        let before = folders_give_every_note(front, snippets);
        let n = members.len() - 1;
        let taken = match members.last().target {
            ReferenceTarget::Snippet(id) => snippets.contains_key(id@),
            _ => false,
        };
        let at = if taken {
            before.push(n)
        } else {
            before
        };
        assert forall|j: int| 0 <= j < at.len() implies 0 <= #[trigger] at[j] < members.len()
            && match members[at[j]].target {
            ReferenceTarget::Snippet(id) => snippets.contains_key(id@) && member_texts(
                members,
                snippets,
            )[j] == "- "@ + snippets[id@].title@ + ":\n"@ + snippets[id@].content@,
            _ => false,
        } by {
            if j < before.len() {
                assert(at[j] == before[j]);
                assert(front[before[j]] == members[at[j]]);
            }
        }
        assert forall|k: int| 0 <= k < members.len() implies match (#[trigger] members[k]).target {
            ReferenceTarget::Snippet(id) => snippets.contains_key(id@) ==> at.contains(k),
            _ => true,
        } by {
            if k < n {
                assert(front[k] == members[k]);
                if before.contains(k) {
                    let j = choose|j: int| 0 <= j < before.len() && before[j] == k;
                    assert(at[j] == k);
                }
            } else if taken {
                assert(at[before.len() as int] == n);
            }
        }
        at
    }
}

/// The text of a folder is the texts of its notes, one after the other, and only a
/// long one is cut.
pub proof fn folders_are_quoted_whole(
    page: HomePage,
    files: Map<Seq<char>, String>,
    id: ContainerId,
)
    requires
        page.workspace.has_container(id@),
    ensures
        ({
            let container = page.workspace.containers@[id@];
            let whole = joined(member_texts(container.members@, page.all_snippets@), "\n\n"@);
            &&& source_text(page, files, SourceTarget::Container(id)) matches Some((title, text))
            &&& title == "Folder "@ + container.title@
            &&& whole.len() <= 4000 ==> text == whole
            &&& whole.len() > 4000 ==> text == whole.take(4000)
        }),
{
}

/// Notes and files as sources are quoted whole, and only a long one is cut.
pub proof fn notes_are_quoted_whole(
    page: HomePage,
    files: Map<Seq<char>, String>,
    target: SourceTarget,
)
    requires
        source_text(page, files, target) is Some,
    ensures
        ({
            let (title, text) = source_text(page, files, target)->0;
            match target {
                SourceTarget::Snippet(id) => {
                    let content = page.all_snippets@[id@].content@;
                    &&& page.all_snippets@.contains_key(id@)
                    &&& title == page.all_snippets@[id@].title@
                    &&& content.len() <= 4000 ==> text == content
                    &&& content.len() > 4000 ==> text == content.take(4000)
                },
                SourceTarget::ExternalFile(id) => {
                    let content = files[id@]@;
                    &&& files.contains_key(id@)
                    &&& content.len() <= 4000 ==> text == content
                    &&& content.len() > 4000 ==> text == content.take(4000)
                },
                SourceTarget::Container(id) => page.workspace.has_container(id@),
            }
        }),
{
}

/// A turn gets every source that can be found, in the order in which they are
/// bound, with its title and text. `at` tells which target each comes from.
pub proof fn turns_get_every_source(
    page: HomePage,
    files: Map<Seq<char>, String>,
    targets: Seq<SourceTarget>,
) -> (at: Seq<int>)
    ensures
        at.len() == found_sources(page, files, targets).len(),
        forall|j: int|
            0 <= j < at.len() ==> {
                let source = found_sources(page, files, targets)[j];
                &&& 0 <= #[trigger] at[j] < targets.len()
                &&& source.target == targets[at[j]]
                &&& source_text(page, files, targets[at[j]]) == Some((source.title, source.text))
            },
        forall|i: int, j: int| 0 <= i < j < at.len() ==> at[i] < at[j],
        forall|k: int|
            0 <= k < targets.len() && source_text(page, files, #[trigger] targets[k]) is Some
                ==> at.contains(k),
    decreases targets.len(),
{
    if targets.len() == 0 {
        Seq::empty()
    } else {
        let front = targets.drop_last();
        let before = turns_get_every_source(page, files, front);
        let n = targets.len() - 1;
        let taken = source_text(page, files, targets.last()) is Some;
        let at = if taken {
            before.push(n)
        } else {
            before
        };
        assert forall|j: int| 0 <= j < at.len() implies {
            let source = found_sources(page, files, targets)[j];
            &&& 0 <= #[trigger] at[j] < targets.len()
            &&& source.target == targets[at[j]]
            &&& source_text(page, files, targets[at[j]]) == Some((source.title, source.text))
        } by {
            if j < before.len() {
                assert(at[j] == before[j]);
                assert(front[before[j]] == targets[at[j]]);
            }
        }
        assert forall|k: int|
            0 <= k < targets.len() && source_text(page, files, #[trigger] targets[k]) is Some implies at.contains(
        k) by {
            if k < n {
                assert(front[k] == targets[k]);
                let j = choose|j: int| 0 <= j < before.len() && before[j] == k;
                assert(at[j] == k);
            } else {
                assert(at[before.len() as int] == n);
            }
        }
        at
    }
}

/// The prompt quotes every source under its number, with its title and text. Returns
/// what stands before and behind the quote.
pub proof fn prompts_quote_every_source(sources: Seq<SourceModel>, i: int) -> (r: (
    Seq<char>,
    Seq<char>,
))
    requires
        0 <= i < sources.len(),
    ensures
        system_prompt(sources) == r.0 + ("["@ + decimal_text((i + 1) as nat) + "] "@
            + sources[i].title + "\n"@ + sources[i].text) + r.1,
{
    let parts = instructions() + quotes(sources);
    let k = instructions().len() + i;
    assert(parts[k] == quotes(sources)[i]);
    joined_holds_each(parts, "\n"@, k)
}

/// The prompt holds every instruction. Returns what stands before and behind it.
pub proof fn prompts_hold_the_instructions(sources: Seq<SourceModel>, i: int) -> (r: (
    Seq<char>,
    Seq<char>,
))
    requires
        0 <= i < 5,
    ensures
        system_prompt(sources) == r.0 + instructions()[i] + r.1,
{
    let quoted = if sources.len() == 0 {
        seq!["(No sources are bound to this conversation yet.)"@]
    } else {
        quotes(sources)
    };
    let parts = instructions() + quoted;
    assert(instructions().len() == 6);
    assert(parts[i] == instructions()[i]);
    joined_holds_each(parts, "\n"@, i)
}

/// A turn is told of the last twenty messages: of every question, and of every answer
/// that is not blank.
pub proof fn turns_are_told_of_messages(messages: Seq<Message>, m: Message)
    ensures
        messages.len() <= 20 ==> recent(messages) == messages,
        messages.len() > 20 ==> recent(messages) == messages.subrange(
            messages.len() - 20,
            messages.len() as int,
        ),
        m.role == MessageRole::User ==> is_told()(m),
        m.role == MessageRole::Assistant ==> is_told()(m) == (trimmed(m.content@).len() > 0),
{
    if messages.len() > 20 {
        assert(recent(messages) =~= messages.subrange(
            messages.len() - 20,
            messages.len() as int,
        ));
    }
}

/// A source is found exactly if it is there: a note that exists, a folder that exists, a
/// file that has a card somewhere and that could be read.
pub proof fn existing_sources_are_found(
    page: HomePage,
    files: Map<Seq<char>, String>,
    target: SourceTarget,
)
    ensures
        source_text(page, files, target) is Some <==> match target {
            SourceTarget::Snippet(id) => page.all_snippets@.contains_key(id@),
            SourceTarget::Container(id) => page.workspace.containers@.contains_key(id@),
            SourceTarget::ExternalFile(id) => files.contains_key(id@) && exists|i: int|
                0 <= i < files_of(page.workspace.containers.order()).len() && (#[trigger] files_of(
                    page.workspace.containers.order(),
                )[i]).id@ == id@,
        },
{
    if let SourceTarget::ExternalFile(id) = target {
        titled_if_there(files_of(page.workspace.containers.order()), id@);
    }
}

proof fn titled_if_there(files: Seq<ExternalFileRef>, id: Seq<char>)
    ensures
        file_title(files, id) is Some <==> exists|i: int|
            0 <= i < files.len() && (#[trigger] files[i]).id@ == id,
    decreases files.len(),
{
    if files.len() > 0 {
        let rest = files.skip(1);
        titled_if_there(rest, id);
        if files[0].id@ != id {
            if exists|i: int| 0 <= i < files.len() && (#[trigger] files[i]).id@ == id {
                let i = choose|i: int| 0 <= i < files.len() && (#[trigger] files[i]).id@ == id;
                assert(rest[i - 1] == files[i]);
            }
            if exists|i: int| 0 <= i < rest.len() && (#[trigger] rest[i]).id@ == id {
                let i = choose|i: int| 0 <= i < rest.len() && (#[trigger] rest[i]).id@ == id;
                assert(files[i + 1] == rest[i]);
            }
        }
    }
}

proof fn all_are_told(messages: Seq<Message>)
    requires
        forall|i: int| 0 <= i < messages.len() ==> is_told()(#[trigger] messages[i]),
    ensures
        messages.filter(is_told()) == messages,
    decreases messages.len(),
{
    reveal(Seq::filter);
    if messages.len() > 0 {
        let front = messages.drop_last();
        assert forall|i: int| 0 <= i < front.len() implies is_told()(#[trigger] front[i]) by {
            assert(front[i] == messages[i]);
        }
        all_are_told(front);
        assert(is_told()(messages[messages.len() - 1]));
        assert(front.push(messages.last()) =~= messages);
    } else {
        assert(messages.filter(is_told()) =~= messages);
    }
}

/// The request of a turn tells the model the conversation as it is: each message with
/// its text and the one who said it, in order, up to the last twenty. The prompt before
/// it is made of the sources of the turn, and tools are offered exactly if they are
/// switched on.
pub proof fn requests_tell_the_conversation(
    request: ChatRequest,
    page: HomePage,
    files: Map<Seq<char>, String>,
    ai_box: Seq<char>,
    conversation: Seq<char>,
)
    requires
        is_turn_request(request, page, files, ai_box, conversation),
        ({
            let messages = page.ai_boxes@[ai_box].conversations@[conversation].messages@;
            forall|i: int|
                0 <= i < messages.len() ==> (#[trigger] messages[i]).role == MessageRole::User
                    || trimmed(messages[i].content@).len() > 0
        }),
    ensures
        ({
            let messages = page.ai_boxes@[ai_box].conversations@[conversation].messages@;
            let told = request.messages@;
            let skipped = if messages.len() > 20 {
                messages.len() - 20
            } else {
                0
            };
            &&& told.len() == messages.len() - skipped
            &&& forall|i: int|
                0 <= i < told.len() ==> {
                    &&& (#[trigger] told[i]).content@ == messages[skipped + i].content@
                    &&& told[i].role == ChatRole::User <==> messages[skipped + i].role
                        == MessageRole::User
                    &&& told[i].role == ChatRole::Assistant <==> messages[skipped + i].role
                        == MessageRole::Assistant
                }
        }),
        request.system is Some,
        request.system->0@ == system_prompt(turn_sources(page, files, ai_box, conversation)),
        request.tools@.len() > 0 ==> page.settings.ai_tools_enabled,
        page.settings.ai_tools_enabled ==> are_builtins(request.tools@),
{
    let messages = page.ai_boxes@[ai_box].conversations@[conversation].messages@;
    let last = recent(messages);
    assert forall|i: int| 0 <= i < last.len() implies is_told()(#[trigger] last[i]) by {
        assert(last[i] == messages[messages.len() - last.len() + i]);
    }
    all_are_told(last);
}

/// With an answer the sources are kept as they were: for each source, in order, what it
/// is, its title and the hash of its text.
pub proof fn snapshots_keep_the_sources(
    snapshots: Seq<SourceRef>,
    sources: Seq<SourceModel>,
    i: int,
)
    requires
        are_snapshots(snapshots, sources),
        0 <= i < sources.len(),
    ensures
        snapshots.len() == sources.len(),
        snapshots[i].target == sources[i].target,
        snapshots[i].title@ == sources[i].title,
        snapshots[i].content_hash is Some,
        snapshots[i].content_hash->0@ == hex_text(
            fnv1a(vstd::utf8::encode_utf8(sources[i].text)) as int,
            16,
        ),
{
}

/// The tools of a turn get every source of the turn: its place in the list as its number,
/// what it is, its title, its whole text and the hash of that.
pub proof fn tools_get_every_source(bound: Seq<BoundSource>, sources: Seq<SourceModel>, i: int)
    requires
        are_bound(bound, sources),
        0 <= i < sources.len(),
    ensures
        bound.len() == sources.len(),
        bound[i].index == i + 1,
        bound[i].target == sources[i].target,
        bound[i].title@ == sources[i].title,
        bound[i].content@ == sources[i].text,
        bound[i].content_hash@ == hex_text(
            fnv1a(vstd::utf8::encode_utf8(sources[i].text)) as int,
            16,
        ),
{
}

} // verus!
