//! State of AI workspaces: conversations, their messages, and the sources that
//! each answer used.
use crate::data::ai::usage::TokenUsage;
use crate::data::ids::{ContainerId, ConversationId, EntityId, ExternalFileId, TurnTaskId};
use crate::data::workspace::copy_optional_text;
use crate::idmap::IdMap;
use crate::lists::retain;
use crate::text::{hex, hex_text, join2};
use vstd::prelude::*;

verus! {

/// Version of the sidecar files that are read and written.
pub const AI_BOX_DATA_VERSION: u32 = 1;

/// A source that can be bound to a conversation, by its stable identifier.
#[derive(Debug, PartialEq, Eq)]
pub enum SourceTarget {
    Snippet(EntityId),
    Container(ContainerId),
    ExternalFile(ExternalFileId),
}

impl SourceTarget {
    /// The key by which sources are told apart.
    pub open spec fn key(&self) -> Seq<char> {
        match *self {
            SourceTarget::Snippet(id) => "s:"@ + id@,
            SourceTarget::Container(id) => "c:"@ + id@,
            SourceTarget::ExternalFile(id) => "f:"@ + id@,
        }
    }

    /// The key by which sources are told apart.
    pub fn stable_key(&self) -> (r: String)
        ensures
            r@ == self.key(),
    {
        match self {
            SourceTarget::Snippet(id) => join2("s:", id.as_str()),
            SourceTarget::Container(id) => join2("c:", id.as_str()),
            SourceTarget::ExternalFile(id) => join2("f:", id.as_str()),
        }
    }
}

impl Clone for SourceTarget {
    fn clone(&self) -> (r: Self)
        ensures
            r == *self,
    {
        match self {
            SourceTarget::Snippet(id) => SourceTarget::Snippet(id.clone()),
            SourceTarget::Container(id) => SourceTarget::Container(id.clone()),
            SourceTarget::ExternalFile(id) => SourceTarget::ExternalFile(id.clone()),
        }
    }
}

/// Sources of the same kind with the same identifier have the same key, and only
/// those.
pub proof fn keys_tell_sources_apart(a: SourceTarget, b: SourceTarget)
    ensures
        a.key() == b.key() <==> match (a, b) {
            (SourceTarget::Snippet(x), SourceTarget::Snippet(y)) => x@ == y@,
            (SourceTarget::Container(x), SourceTarget::Container(y)) => x@ == y@,
            (SourceTarget::ExternalFile(x), SourceTarget::ExternalFile(y)) => x@ == y@,
            _ => false,
        },
{
    reveal_strlit("s:");
    reveal_strlit("c:");
    reveal_strlit("f:");
    if a.key() == b.key() {
        assert(a.key()[0] == b.key()[0]);
        assert(a.key().skip(2) == b.key().skip(2));
        match (a, b) {
            (SourceTarget::Snippet(x), SourceTarget::Snippet(y)) => {
                assert(a.key().skip(2) =~= x@);
                assert(b.key().skip(2) =~= y@);
            },
            (SourceTarget::Container(x), SourceTarget::Container(y)) => {
                assert(a.key().skip(2) =~= x@);
                assert(b.key().skip(2) =~= y@);
            },
            (SourceTarget::ExternalFile(x), SourceTarget::ExternalFile(y)) => {
                assert(a.key().skip(2) =~= x@);
                assert(b.key().skip(2) =~= y@);
            },
            _ => {},
        }
    }
}

/// A source as one answer used it: title and content hash were taken when the
/// question was sent.
#[derive(Debug, PartialEq, Eq)]
pub struct SourceRef {
    pub target: SourceTarget,
    pub title: String,
    pub content_hash: Option<String>,
}

impl Clone for SourceRef {
    fn clone(&self) -> (r: Self)
        ensures
            r == *self,
    {
        SourceRef {
            target: self.target.clone(),
            title: self.title.clone(),
            content_hash: copy_optional_text(&self.content_hash),
        }
    }
}

/// Who wrote a message.
#[derive(Clone, Copy, Debug, PartialEq, Eq, Structural)]
pub enum MessageRole {
    User,
    Assistant,
}

/// How a turn ended; only meaningful for answers.
#[derive(Clone, Copy, Debug, PartialEq, Eq, Structural)]
pub enum MessageStatus {
    /// The answer is complete.
    Completed,
    /// The user stopped the turn; the answer is partial.
    Stopped,
    /// The turn failed.
    Failed,
    /// A source changed after the answer was made.
    Stale,
}

impl Default for MessageStatus {
    fn default() -> (r: Self)
        ensures
            r == MessageStatus::Completed,
    {
        MessageStatus::Completed
    }
}

/// How a tool call ended.
#[derive(Clone, Copy, Debug, PartialEq, Eq, Structural)]
pub enum ToolStatus {
    Succeeded,
    Failed,
}

impl Default for ToolStatus {
    fn default() -> (r: Self)
        ensures
            r == ToolStatus::Succeeded,
    {
        ToolStatus::Succeeded
    }
}

/// The visible receipt of one tool call.
#[derive(Debug, PartialEq, Eq)]
pub struct ToolRecord {
    pub tool_id: String,
    pub status: ToolStatus,
    /// What the call did, in a few words.
    pub summary: String,
}

impl Clone for ToolRecord {
    fn clone(&self) -> (r: Self)
        ensures
            r == *self,
    {
        ToolRecord {
            tool_id: self.tool_id.clone(),
            status: self.status,
            summary: self.summary.clone(),
        }
    }
}

/// A new note that the model proposes. The user applies or rejects it.
#[derive(Debug, PartialEq, Eq)]
pub struct SnippetProposal {
    pub title: String,
    pub content: String,
    /// The note that was made of it.
    pub created: Option<EntityId>,
    pub rejected: bool,
}

impl SnippetProposal {
    /// A proposal that is still to be decided.
    pub fn new(title: &str, content: &str) -> (r: Self)
        ensures
            r.title@ == title@,
            r.content@ == content@,
            r.created is None,
            !r.rejected,
    {
        SnippetProposal {
            title: title.to_owned(),
            content: content.to_owned(),
            created: None,
            rejected: false,
        }
    }
}

/// A question or an answer.
#[derive(Debug, PartialEq, Eq)]
pub struct Message {
    pub role: MessageRole,
    pub content: String,
    /// The sources that the turn used; none for questions.
    pub sources: Vec<SourceRef>,
    pub status: MessageStatus,
    /// The turn that made the answer.
    pub turn_task: Option<TurnTaskId>,
    /// Token counts, where the provider reported them.
    pub usage: Option<TokenUsage>,
    /// The tool calls of the turn.
    pub tools: Vec<ToolRecord>,
    /// The note that the model proposed in the turn.
    pub proposal: Option<SnippetProposal>,
}

impl Message {
    /// The message has this role, text and turn, and nothing else.
    pub open spec fn is_plain(
        &self,
        role: MessageRole,
        content: Seq<char>,
        turn_task: Option<TurnTaskId>,
    ) -> bool {
        &&& self.role == role
        &&& self.content@ == content
        &&& self.sources@ == Seq::<SourceRef>::empty()
        &&& self.status == MessageStatus::Completed
        &&& self.turn_task == turn_task
        &&& self.usage is None
        &&& self.tools@ == Seq::<ToolRecord>::empty()
        &&& self.proposal is None
    }

    /// A question.
    pub fn user(content: &str) -> (r: Self)
        ensures
            r.is_plain(MessageRole::User, content@, None),
    {
        Message {
            role: MessageRole::User,
            content: content.to_owned(),
            sources: Vec::new(),
            status: MessageStatus::Completed,
            turn_task: None,
            usage: None,
            tools: Vec::new(),
            proposal: None,
        }
    }

    /// An answer.
    pub fn assistant(content: &str, turn_task: TurnTaskId) -> (r: Self)
        ensures
            r.is_plain(MessageRole::Assistant, content@, Some(turn_task)),
    {
        Message {
            role: MessageRole::Assistant,
            content: content.to_owned(),
            sources: Vec::new(),
            status: MessageStatus::Completed,
            turn_task: Some(turn_task),
            usage: None,
            tools: Vec::new(),
            proposal: None,
        }
    }
}

/// A conversation of an AI box.
#[derive(Debug, PartialEq, Eq)]
pub struct Conversation {
    pub id: ConversationId,
    pub title: String,
    /// Marks a conversation that is not meant to be kept.
    pub temporary: bool,
    /// The sources of future turns. Answers keep what they used.
    pub sources: Vec<SourceTarget>,
    /// Questions and answers, in order.
    pub messages: Vec<Message>,
    /// Creation time in seconds since the Unix epoch.
    pub created_at: u64,
    /// Time of the last message.
    pub updated_at: u64,
    /// Model label, for display.
    pub model: Option<String>,
}

impl Conversation {
    /// A conversation without messages.
    pub fn new(
        id: ConversationId,
        title: &str,
        temporary: bool,
        sources: Vec<SourceTarget>,
        now: u64,
    ) -> (r: Self)
        ensures
            r.id == id,
            r.title@ == title@,
            r.temporary == temporary,
            r.sources == sources,
            r.messages@ == Seq::<Message>::empty(),
            r.created_at == now,
            r.updated_at == now,
            r.model is None,
    {
        Conversation {
            id,
            title: title.to_owned(),
            temporary,
            sources,
            messages: Vec::new(),
            created_at: now,
            updated_at: now,
            model: None,
        }
    }

    /// Equal but for the title.
    pub open spec fn same_but_title(self, other: Self) -> bool {
        &&& self.id == other.id
        &&& self.temporary == other.temporary
        &&& self.sources == other.sources
        &&& self.messages == other.messages
        &&& self.created_at == other.created_at
        &&& self.updated_at == other.updated_at
        &&& self.model == other.model
    }

    /// Equal but for the sources.
    pub open spec fn same_but_sources(self, other: Self) -> bool {
        &&& self.id == other.id
        &&& self.title == other.title
        &&& self.temporary == other.temporary
        &&& self.messages == other.messages
        &&& self.created_at == other.created_at
        &&& self.updated_at == other.updated_at
        &&& self.model == other.model
    }

    /// Equal but for the messages and the time of the last one.
    pub open spec fn same_but_messages(self, other: Self) -> bool {
        &&& self.id == other.id
        &&& self.title == other.title
        &&& self.temporary == other.temporary
        &&& self.sources == other.sources
        &&& self.created_at == other.created_at
        &&& self.model == other.model
    }
}

/// A source of this key is among `sources`.
pub open spec fn bound(sources: Seq<SourceTarget>, key: Seq<char>) -> bool {
    exists|i: int| 0 <= i < sources.len() && (#[trigger] sources[i]).key() == key
}

/// The sources without repetitions; the first of each key stays.
pub open spec fn deduplicated(sources: Seq<SourceTarget>) -> Seq<SourceTarget>
    decreases sources.len(),
{
    if sources.len() == 0 {
        sources
    } else if bound(sources.drop_last(), sources.last().key()) {
        deduplicated(sources.drop_last())
    } else {
        deduplicated(sources.drop_last()).push(sources.last())
    }
}

/// No two sources have the same key.
pub open spec fn distinct_sources(sources: Seq<SourceTarget>) -> bool {
    forall|i: int, j: int|
        0 <= i < j < sources.len() ==> (#[trigger] sources[i]).key() != (
        #[trigger] sources[j]).key()
}

/// Leaving out repetitions keeps every key, and no key occurs twice.
pub proof fn deduplicated_keeps_keys(sources: Seq<SourceTarget>)
    ensures
        forall|key: Seq<char>| bound(deduplicated(sources), key) <==> bound(sources, key),
        distinct_sources(deduplicated(sources)),
    decreases sources.len(),
{
    if sources.len() > 0 {
        let rest = sources.drop_last();
        let last = sources.last();
        deduplicated_keeps_keys(rest);
        let d = deduplicated(rest);
        assert forall|key: Seq<char>| bound(deduplicated(sources), key) <==> bound(
            sources,
            key,
        ) by {
            if bound(sources, key) {
                let i = choose|i: int| 0 <= i < sources.len() && (#[trigger] sources[i]).key() == key;
                if i < rest.len() {
                    assert(rest[i] == sources[i]);
                    assert(bound(rest, key));
                    assert(bound(d, key));
                    let j = choose|j: int| 0 <= j < d.len() && (#[trigger] d[j]).key() == key;
                    assert(d.push(last)[j].key() == key);
                } else if bound(rest, key) {
                    assert(bound(d, key));
                } else {
                    assert(d.push(last)[d.len() as int].key() == key);
                }
            }
            if bound(deduplicated(sources), key) {
                let e = deduplicated(sources);
                let j = choose|j: int| 0 <= j < e.len() && (#[trigger] e[j]).key() == key;
                if j < d.len() {
                    assert(d[j].key() == key);
                    assert(bound(rest, key));
                    let i = choose|i: int| 0 <= i < rest.len() && (#[trigger] rest[i]).key() == key;
                    assert(sources[i].key() == key);
                } else {
                    assert(sources[sources.len() - 1].key() == key);
                }
            }
        }
        if !bound(rest, last.key()) {
            assert(!bound(d, last.key()));
            let e = d.push(last);
            assert forall|i: int, j: int| 0 <= i < j < e.len() implies (#[trigger] e[i]).key() != (
            #[trigger] e[j]).key() by {
                assert(e[i] == d[i]);
                if j < d.len() {
                    assert(e[j] == d[j]);
                }
            }
        }
    }
}

/// Whether a source of this key is among `sources`.
fn is_bound(sources: &Vec<SourceTarget>, key: &str) -> (r: bool)
    ensures
        r == bound(sources@, key@),
{
    let mut i: usize = 0;
    while i < sources.len()
        invariant
            i <= sources@.len(),
            forall|j: int| 0 <= j < i ==> (#[trigger] sources@[j]).key() != key@,
        decreases sources@.len() - i,
    {
        if crate::text::same_text(&sources[i].stable_key(), key) {
            return true;
        }
        i = i + 1;
    }
    false
}

/// Leaves out repeated sources; the first of each key stays.
pub fn dedup_sources(sources: Vec<SourceTarget>) -> (r: Vec<SourceTarget>)
    ensures
        r@ == deduplicated(sources@),
{
    let mut kept: Vec<SourceTarget> = Vec::new();
    let mut i: usize = 0;
    assert(sources@.take(0) =~= Seq::<SourceTarget>::empty());
    while i < sources.len()
        invariant
            i <= sources@.len(),
            kept@ == deduplicated(sources@.take(i as int)),
        decreases sources@.len() - i,
    {
        proof {
            deduplicated_keeps_keys(sources@.take(i as int));
            assert(sources@.take(i + 1).drop_last() =~= sources@.take(i as int));
            assert(sources@.take(i + 1).last() == sources@[i as int]);
        }
        let key = sources[i].stable_key();
        if !is_bound(&kept, &key) {
            kept.push(sources[i].clone());
        }
        i = i + 1;
    }
    assert(sources@.take(i as int) =~= sources@);
    kept
}

/// All state of one AI box.
pub struct AiBoxData {
    pub version: u32,
    pub ai_box: ContainerId,
    pub conversations: IdMap<ConversationId, Conversation>,
}

impl AiBoxData {
    /// Version and box are as in `before`.
    pub open spec fn same_box(&self, before: Self) -> bool {
        self.version == before.version && self.ai_box == before.ai_box
    }

    /// `self` is `before` with a changed conversation.
    pub open spec fn changed(&self, before: Self, id: Seq<char>) -> bool {
        &&& self.same_box(before)
        &&& before.conversations@.contains_key(id)
        &&& self.conversations@ == before.conversations@.insert(id, self.conversations@[id])
    }

    /// The state of a box without conversations.
    pub fn empty(ai_box: ContainerId) -> (r: Self)
        ensures
            r.version == AI_BOX_DATA_VERSION,
            r.ai_box == ai_box,
            r.conversations@ == Map::<Seq<char>, Conversation>::empty(),
            r.conversations.wf(),
    {
        AiBoxData { version: AI_BOX_DATA_VERSION, ai_box, conversations: IdMap::new() }
    }

    /// A conversation.
    pub fn get(&self, id: &ConversationId) -> (r: Option<&Conversation>)
        ensures
            r is Some <==> self.conversations@.contains_key(id@),
            r is Some ==> *r->0 == self.conversations@[id@],
    {
        self.conversations.get(id)
    }

    /// A conversation, to change it in place.
    pub fn get_mut(&mut self, id: &ConversationId) -> (r: Option<&mut Conversation>)
        ensures
            r is Some <==> old(self).conversations@.contains_key(id@),
            r is None ==> *final(self) == *old(self),
            r is Some ==> {
                &&& *r->0 == old(self).conversations@[id@]
                &&& final(self).same_box(*old(self))
                &&& final(self).conversations@ == old(self).conversations@.insert(
                    id@,
                    *final(r->0),
                )
            },
            old(self).conversations.wf() ==> final(self).conversations.wf(),
    {
        self.conversations.get_mut(id)
    }

    /// Puts in a conversation without messages, unless the identifier is taken.
    /// Returns whether it did.
    pub fn create_conversation(
        &mut self,
        id: ConversationId,
        title: &str,
        temporary: bool,
        sources: Vec<SourceTarget>,
        now: u64,
    ) -> (r: bool)
        ensures
            r == !old(self).conversations@.contains_key(id@),
            !r ==> *final(self) == *old(self),
            r ==> {
                let c = final(self).conversations@[id@];
                &&& final(self).same_box(*old(self))
                &&& final(self).conversations@ == old(self).conversations@.insert(id@, c)
                &&& c.id == id
                &&& c.title@ == title@
                &&& c.temporary == temporary
                &&& c.sources@ == deduplicated(sources@)
                &&& c.messages@ == Seq::<Message>::empty()
                &&& c.created_at == now
                &&& c.updated_at == now
                &&& c.model is None
            },
            old(self).conversations.wf() ==> final(self).conversations.wf(),
    {
        if self.conversations.contains_key(&id) {
            return false;
        }
        let sources = dedup_sources(sources);
        self.conversations.insert(
            id.clone(),
            Conversation::new(id, title, temporary, sources, now),
        );
        true
    }

    /// Takes out a conversation. Returns whether it was there.
    pub fn delete_conversation(&mut self, id: &ConversationId) -> (r: bool)
        ensures
            r == old(self).conversations@.contains_key(id@),
            final(self).same_box(*old(self)),
            final(self).conversations@ == old(self).conversations@.remove(id@),
            old(self).conversations.wf() ==> final(self).conversations.wf(),
    {
        self.conversations.remove(id).is_some()
    }

    /// Renames a conversation. Returns whether there is one.
    pub fn rename_conversation(&mut self, id: &ConversationId, title: &str) -> (r: bool)
        ensures
            r == old(self).conversations@.contains_key(id@),
            !r ==> *final(self) == *old(self),
            r ==> {
                let c = final(self).conversations@[id@];
                &&& final(self).changed(*old(self), id@)
                &&& c.same_but_title(old(self).conversations@[id@])
                &&& c.title@ == title@
            },
            old(self).conversations.wf() ==> final(self).conversations.wf(),
    {
        match self.conversations.get_mut(id) {
            Some(conversation) => {
                conversation.title = title.to_owned();
                true
            },
            None => false,
        }
    }

    /// Binds a source to future turns, unless it is bound. Returns whether it did.
    pub fn bind_source(&mut self, id: &ConversationId, target: SourceTarget) -> (r: bool)
        ensures
            r == (old(self).conversations@.contains_key(id@) && !bound(
                old(self).conversations@[id@].sources@,
                target.key(),
            )),
            !r ==> final(self).same_box(*old(self)) && final(self).conversations@ == old(
                self,
            ).conversations@,
            r ==> {
                let c = final(self).conversations@[id@];
                &&& final(self).changed(*old(self), id@)
                &&& c.same_but_sources(old(self).conversations@[id@])
                &&& c.sources@ == old(self).conversations@[id@].sources@.push(target)
            },
            old(self).conversations.wf() ==> final(self).conversations.wf(),
    {
        let ghost before = self.conversations@;
        match self.conversations.get_mut(id) {
            Some(conversation) => {
                let key = target.stable_key();
                if is_bound(&conversation.sources, &key) {
                    assert(before.insert(id@, before[id@]) =~= before);
                    return false;
                }
                conversation.sources.push(target);
                true
            },
            None => false,
        }
    }

    /// Unbinds a source from future turns. Returns whether it was bound.
    pub fn unbind_source(&mut self, id: &ConversationId, target: &SourceTarget) -> (r: bool)
        ensures
            r == (old(self).conversations@.contains_key(id@) && bound(
                old(self).conversations@[id@].sources@,
                target.key(),
            )),
            !old(self).conversations@.contains_key(id@) ==> *final(self) == *old(self),
            old(self).conversations@.contains_key(id@) ==> {
                let c = final(self).conversations@[id@];
                &&& final(self).changed(*old(self), id@)
                &&& c.same_but_sources(old(self).conversations@[id@])
                &&& c.sources@ == old(self).conversations@[id@].sources@.filter(
                    |s: SourceTarget| s.key() != target.key(),
                )
            },
            old(self).conversations.wf() ==> final(self).conversations.wf(),
    {
        match self.conversations.get_mut(id) {
            Some(conversation) => {
                let key = target.stable_key();
                let ghost wanted = |s: SourceTarget| s.key() != target.key();
                let ghost all = conversation.sources@;
                let before = conversation.sources.len();
                let keep = |s: &SourceTarget| -> (b: bool)
                    ensures
                        b == (s.key() != key@),
                    { !crate::text::same_text(&s.stable_key(), &key) };
                retain(&mut conversation.sources, keep, Ghost(wanted));
                proof {
                    all.lemma_filter_len(wanted);
                    if bound(all, target.key()) {
                        crate::lists::filter_shorter(all, wanted);
                    } else {
                        crate::lists::filter_all(all, wanted);
                    }
                }
                before != conversation.sources.len()
            },
            None => false,
        }
    }

    /// Appends a message and notes the time. Returns whether there is such a
    /// conversation.
    pub fn push_message(&mut self, id: &ConversationId, message: Message, now: u64) -> (r: bool)
        ensures
            r == old(self).conversations@.contains_key(id@),
            !r ==> *final(self) == *old(self),
            r ==> {
                let c = final(self).conversations@[id@];
                &&& final(self).changed(*old(self), id@)
                &&& c.same_but_messages(old(self).conversations@[id@])
                &&& c.messages@ == old(self).conversations@[id@].messages@.push(message)
                &&& c.updated_at == now
            },
            old(self).conversations.wf() ==> final(self).conversations.wf(),
    {
        match self.conversations.get_mut(id) {
            Some(conversation) => {
                conversation.messages.push(message);
                conversation.updated_at = now;
                true
            },
            None => false,
        }
    }
}

/// The 64-bit FNV-1a hash of a sequence of bytes.
pub open spec fn fnv1a(bytes: Seq<u8>) -> u64
    decreases bytes.len(),
{
    if bytes.len() == 0 {
        0xcbf2_9ce4_8422_2325
    } else {
        fnv1a_step(fnv1a(bytes.drop_last()), bytes.last())
    }
}

/// One step of the hash: the byte is mixed in, and the result is multiplied by
/// the FNV prime modulo two to the sixty-four.
pub open spec fn fnv1a_step(hash: u64, byte: u8) -> u64 {
    (((hash ^ (byte as u64)) as int * 0x0000_0100_0000_01b3) % 0x1_0000_0000_0000_0000) as u64
}

/// A content hash, in hexadecimal: FNV-1a of the UTF-8 bytes. It tells whether
/// a source changed between turns; it is not cryptographic.
pub fn content_hash(content: &str) -> (r: String)
    ensures
        r@ == hex_text(fnv1a(vstd::utf8::encode_utf8(content@)) as int, 16),
{
    let bytes = content.as_bytes();
    let mut hash: u64 = 0xcbf2_9ce4_8422_2325;
    let mut i: usize = 0;
    assert(bytes@.take(0) =~= Seq::<u8>::empty());
    while i < bytes.len()
        invariant
            i <= bytes@.len(),
            hash == fnv1a(bytes@.take(i as int)),
        decreases bytes@.len() - i,
    {
        proof {
            assert(bytes@.take(i + 1).drop_last() =~= bytes@.take(i as int));
        }
        let mixed = hash ^ (bytes[i] as u64);
        hash = mixed.wrapping_mul(0x0000_0100_0000_01b3);
        i = i + 1;
    }
    assert(bytes@.take(i as int) =~= bytes@);
    hex(hash, 16)
}

/// The time of the clock in seconds since the Unix epoch, if it is not before that:
/// `std::time::SystemTime::now`. Nothing is claimed of it.
#[verifier::external_body]
fn clock() -> (r: Option<u64>) {
    std::time::SystemTime::now().duration_since(std::time::UNIX_EPOCH).ok().map(
        |duration| duration.as_secs(),
    )
}

/// The time that a reading of the clock stands for: zero for a clock before the
/// Unix epoch.
pub fn seconds(reading: Option<u64>) -> (r: u64)
    ensures
        r == match reading {
            Some(seconds) => seconds,
            None => 0,
        },
{
    match reading {
        Some(seconds) => seconds,
        None => 0,
    }
}

/// The time in seconds since the Unix epoch.
pub fn now_unix() -> (r: u64) {
    seconds(clock())
}

/// Of sources with the same key the first one stays, and the sources that stay keep
/// their order.
pub proof fn first_sources_stay(sources: Seq<SourceTarget>) -> (at: Seq<int>)
    ensures
        at.len() == deduplicated(sources).len(),
        forall|j: int|
            #![trigger at[j]]
            0 <= j < at.len() ==> 0 <= at[j] < sources.len() && deduplicated(sources)[j]
                == sources[at[j]],
        forall|i: int, j: int| 0 <= i < j < at.len() ==> at[i] < at[j],
        forall|k: int|
            #![trigger sources[k]]
            0 <= k < sources.len() ==> at.contains(k) == !bound(sources.take(k), sources[k].key()),
    decreases sources.len(),
{
    if sources.len() == 0 {
        Seq::empty()
    } else {
        let front = sources.drop_last();
        let n = sources.len() - 1;
        let before = first_sources_stay(front);
        let again = bound(front, sources.last().key());
        let at = if again {
            before
        } else {
            before.push(n)
        };
        assert forall|j: int| #![trigger at[j]] 0 <= j < at.len() implies 0 <= at[j]
            < sources.len() && deduplicated(sources)[j] == sources[at[j]] by {
            if j < before.len() {
                assert(at[j] == before[j]);
                assert(front[before[j]] == sources[at[j]]);
            }
        }
        assert forall|k: int| #![trigger sources[k]] 0 <= k < sources.len() implies at.contains(k)
            == !bound(sources.take(k), sources[k].key()) by {
            if k < n {
                assert(front[k] == sources[k]);
                assert(front.take(k) =~= sources.take(k));
                if before.contains(k) {
                    let j = choose|j: int| 0 <= j < before.len() && before[j] == k;
                    assert(at[j] == k);
                }
                if at.contains(k) {
                    let j = choose|j: int| 0 <= j < at.len() && at[j] == k;
                    assert(before[j] == k);
                }
            } else {
                assert(sources.take(k) =~= front);
                if again {
                    if at.contains(n) {
                        let j = choose|j: int| 0 <= j < at.len() && at[j] == n;
                        assert(before[j] == n);
                    }
                } else {
                    assert(at[before.len() as int] == n);
                }
            }
        }
        at
    }
}

/// The hash of a text goes on from the hash of its beginning, byte by byte.
pub proof fn hashes_go_on(bytes: Seq<u8>, byte: u8)
    ensures
        fnv1a(Seq::empty()) == 0xcbf2_9ce4_8422_2325u64,
        fnv1a(bytes.push(byte)) as int == ((fnv1a(bytes) ^ (byte as u64)) as int * 0x100_0000_01b3)
            % 0x1_0000_0000_0000_0000,
{
    assert(bytes.push(byte).drop_last() =~= bytes);
    assert(bytes.push(byte).last() == byte);
}

} // verus!
