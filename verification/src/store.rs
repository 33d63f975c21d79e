//! An in-memory model of the conversation store the dispatcher talks to.
//!
//! The real application keeps conversations and messages in a relational
//! database behind a serialized handle; the dispatcher only ever creates a
//! conversation, inserts a message, and asks for the most recent
//! assistant-authored message of the most recently updated conversation.
//! This module states those three operations exactly over plain values, so
//! the dispatch rules can be verified against them.

use vstd::prelude::*;

use crate::json::{JsonObject, JsonScalar, ObjVal, ScalarVal};
use crate::text::{chars_to_string, dec_seq, push_u64_dec};

verus! {

/// One conversation record.
pub struct Conversation {
    pub id: String,
    pub title: String,
    pub created_at: i64,
    pub updated_at: i64,
    pub model: String,
    pub provider: String,
    pub system_prompt: Option<String>,
    pub parent_conversation_id: Option<String>,
    pub branch_point_message_id: Option<String>,
}

/// Spec-level conversation record.
pub ghost struct ConversationV {
    pub id: Seq<char>,
    pub title: Seq<char>,
    pub created_at: int,
    pub updated_at: int,
    pub model: Seq<char>,
    pub provider: Seq<char>,
    pub system_prompt: Option<Seq<char>>,
    pub parent_conversation_id: Option<Seq<char>>,
    pub branch_point_message_id: Option<Seq<char>>,
}

/// Spec view of an optional string.
pub open spec fn opt_view(o: Option<String>) -> Option<Seq<char>> {
    match o {
        Some(s) => Some(s@),
        None => None,
    }
}

/// Spec view of an optional 64-bit integer.
pub open spec fn opt_i64_view(o: Option<i64>) -> Option<int> {
    match o {
        Some(i) => Some(i as int),
        None => None,
    }
}

impl View for Conversation {
    type V = ConversationV;

    open spec fn view(&self) -> ConversationV {
        ConversationV {
            id: self.id@,
            title: self.title@,
            created_at: self.created_at as int,
            updated_at: self.updated_at as int,
            model: self.model@,
            provider: self.provider@,
            system_prompt: opt_view(self.system_prompt),
            parent_conversation_id: opt_view(self.parent_conversation_id),
            branch_point_message_id: opt_view(self.branch_point_message_id),
        }
    }
}

/// The fields a new conversation is created from.
pub struct NewConversation {
    pub title: String,
    pub model: String,
    pub provider: String,
    pub system_prompt: Option<String>,
}

/// The fields of a conversation imported with a caller-chosen identity.
pub struct NewConversationWithId {
    pub id: String,
    pub title: String,
    pub model: String,
    pub provider: String,
    pub system_prompt: Option<String>,
    pub created_at: i64,
    pub updated_at: i64,
}

/// One message record.
pub struct Message {
    pub id: String,
    pub conversation_id: String,
    pub role: String,
    pub content: String,
    pub timestamp: i64,
    pub tokens_used: Option<i64>,
}

/// Spec-level message record.
pub ghost struct MessageV {
    pub id: Seq<char>,
    pub conversation_id: Seq<char>,
    pub role: Seq<char>,
    pub content: Seq<char>,
    pub timestamp: int,
    pub tokens_used: Option<int>,
}

impl View for Message {
    type V = MessageV;

    open spec fn view(&self) -> MessageV {
        MessageV {
            id: self.id@,
            conversation_id: self.conversation_id@,
            role: self.role@,
            content: self.content@,
            timestamp: self.timestamp as int,
            tokens_used: opt_i64_view(self.tokens_used),
        }
    }
}

/// The fields a new message is created from.
pub struct NewMessage {
    pub conversation_id: String,
    pub role: String,
    pub content: String,
    pub tokens_used: Option<i64>,
}

/// The fields of a message imported with a caller-chosen identity.
pub struct NewMessageWithId {
    pub id: String,
    pub conversation_id: String,
    pub role: String,
    pub content: String,
    pub timestamp: i64,
    pub tokens_used: Option<i64>,
}

impl Message {
    /// A field-for-field copy.
    pub fn duplicate(&self) -> (r: Message)
        ensures
            r@ == self@,
    {
        Message {
            id: self.id.clone(),
            conversation_id: self.conversation_id.clone(),
            role: self.role.clone(),
            content: self.content.clone(),
            timestamp: self.timestamp,
            tokens_used: match self.tokens_used {
                Some(t) => Some(t),
                None => None,
            },
        }
    }
}

/// The object shape a message takes on the wire.
pub open spec fn message_json(m: MessageV) -> ObjVal {
    seq![
        ("id"@, ScalarVal::Str(m.id)),
        ("conversation_id"@, ScalarVal::Str(m.conversation_id)),
        ("role"@, ScalarVal::Str(m.role)),
        ("content"@, ScalarVal::Str(m.content)),
        ("timestamp"@, ScalarVal::Int(m.timestamp)),
        (
            "tokens_used"@,
            match m.tokens_used {
                Some(t) => ScalarVal::Int(t),
                None => ScalarVal::Null,
            },
        ),
    ]
}

/// Renders a message as the object it takes on the wire.
pub fn message_to_json(m: &Message) -> (r: JsonObject)
    ensures
        r@ == message_json(m@),
{
    let mut fields: Vec<(String, JsonScalar)> = Vec::new();
    fields.push((String::from_str("id"), JsonScalar::Str(m.id.clone())));
    fields.push(
        (String::from_str("conversation_id"), JsonScalar::Str(m.conversation_id.clone())),
    );
    fields.push((String::from_str("role"), JsonScalar::Str(m.role.clone())));
    fields.push((String::from_str("content"), JsonScalar::Str(m.content.clone())));
    fields.push((String::from_str("timestamp"), JsonScalar::Int(m.timestamp)));
    fields.push(
        (
            String::from_str("tokens_used"),
            match m.tokens_used {
                Some(t) => JsonScalar::Int(t),
                None => JsonScalar::Null,
            },
        ),
    );
    let r = JsonObject { fields };
    assert(r@ =~= message_json(m@));
    r
}

/// The whole store: conversations and messages in insertion order, and the
/// counter that numbers new records.
pub struct ConversationStore {
    pub conversations: Vec<Conversation>,
    pub messages: Vec<Message>,
    pub next_id: u64,
}

/// Spec-level store contents.
pub ghost struct StoreV {
    pub conversations: Seq<ConversationV>,
    pub messages: Seq<MessageV>,
    pub next_id: nat,
}

impl View for ConversationStore {
    type V = StoreV;

    open spec fn view(&self) -> StoreV {
        StoreV {
            conversations: self.conversations@.map_values(|c: Conversation| c@),
            messages: self.messages@.map_values(|m: Message| m@),
            next_id: self.next_id as nat,
        }
    }
}

/// The identifier given to the conversation numbered `n`.
pub open spec fn conv_id_seq(n: nat) -> Seq<char> {
    seq!['c', 'o', 'n', 'v', '-'] + dec_seq(n)
}

/// The identifier given to the message numbered `n`.
pub open spec fn msg_id_seq(n: nat) -> Seq<char> {
    seq!['m', 's', 'g', '-'] + dec_seq(n)
}

/// The role that marks an assistant-authored message.
pub open spec fn role_assistant() -> Seq<char> {
    seq!['a', 's', 's', 'i', 's', 't', 'a', 'n', 't']
}

/// The conversations with `updated_at` refreshed for the one named `cid`.
pub open spec fn touch_conv(cs: Seq<ConversationV>, cid: Seq<char>, now: int) -> Seq<
    ConversationV,
> {
    cs.map_values(
        |c: ConversationV|
            if c.id == cid {
                ConversationV { updated_at: now, ..c }
            } else {
                c
            },
    )
}

/// The most recently updated conversation; of equally recent ones, the
/// later-inserted wins.
pub open spec fn latest_conversation(cs: Seq<ConversationV>) -> Option<ConversationV>
    decreases cs.len(),
{
    if cs.len() == 0 {
        None
    } else {
        match latest_conversation(cs.drop_last()) {
            None => Some(cs.last()),
            Some(b) => if cs.last().updated_at >= b.updated_at {
                Some(cs.last())
            } else {
                Some(b)
            },
        }
    }
}

/// The latest assistant-authored message of conversation `cid`; of equally
/// timed ones, the later-inserted wins.
pub open spec fn last_assistant_in(ms: Seq<MessageV>, cid: Seq<char>) -> Option<MessageV>
    decreases ms.len(),
{
    if ms.len() == 0 {
        None
    } else {
        let rest = last_assistant_in(ms.drop_last(), cid);
        if ms.last().conversation_id == cid && ms.last().role == role_assistant() {
            match rest {
                None => Some(ms.last()),
                Some(b) => if ms.last().timestamp >= b.timestamp {
                    Some(ms.last())
                } else {
                    Some(b)
                },
            }
        } else {
            rest
        }
    }
}

/// What the `last` operation answers: the latest assistant message of the
/// most recently updated conversation, if both exist.
pub open spec fn last_assistant_spec(s: StoreV) -> Option<MessageV> {
    match latest_conversation(s.conversations) {
        None => None,
        Some(c) => last_assistant_in(s.messages, c.id),
    }
}

/// The record counter after one record was numbered.
pub open spec fn bump(n: nat) -> nat {
    if n == u64::MAX as nat {
        0
    } else {
        n + 1
    }
}

/// The conversation that creating one in store `s` yields.
pub open spec fn created_conversation(
    s: StoreV,
    title: Seq<char>,
    model: Seq<char>,
    provider: Seq<char>,
    system_prompt: Option<Seq<char>>,
    now: int,
) -> ConversationV {
    ConversationV {
        id: conv_id_seq(s.next_id),
        title: title,
        created_at: now,
        updated_at: now,
        model: model,
        provider: provider,
        system_prompt: system_prompt,
        parent_conversation_id: None,
        branch_point_message_id: None,
    }
}

/// The store after a conversation was created.
pub open spec fn store_after_conversation(s: StoreV, c: ConversationV) -> StoreV {
    StoreV { conversations: s.conversations.push(c), messages: s.messages, next_id: bump(
        s.next_id,
    ) }
}

/// The message that creating one in store `s` yields.
pub open spec fn created_message(
    s: StoreV,
    conversation_id: Seq<char>,
    role: Seq<char>,
    content: Seq<char>,
    tokens_used: Option<int>,
    now: int,
) -> MessageV {
    MessageV {
        id: msg_id_seq(s.next_id),
        conversation_id: conversation_id,
        role: role,
        content: content,
        timestamp: now,
        tokens_used: tokens_used,
    }
}

/// The store after a message was inserted: the message is appended and its
/// conversation's update time refreshed.
pub open spec fn store_after_message(s: StoreV, m: MessageV, now: int) -> StoreV {
    StoreV {
        conversations: touch_conv(s.conversations, m.conversation_id, now),
        messages: s.messages.push(m),
        next_id: bump(s.next_id),
    }
}

impl ConversationStore {
    /// An empty store.
    pub fn new() -> (r: ConversationStore)
        ensures
            r@.conversations.len() == 0,
            r@.messages.len() == 0,
            r@.next_id == 0,
    {
        ConversationStore { conversations: Vec::new(), messages: Vec::new(), next_id: 0 }
    }

    /// Creates a conversation with the next numbered identifier, stamped
    /// `now` for both creation and update time.
    pub fn create_conversation(&mut self, nc: &NewConversation, now: i64) -> (r: Conversation)
        ensures
            r@ == created_conversation(
                old(self)@,
                nc.title@,
                nc.model@,
                nc.provider@,
                opt_view(nc.system_prompt),
                now as int,
            ),
            final(self)@ == store_after_conversation(old(self)@, r@),
    {
        let ghost pre = self@;
        let mut idc: Vec<char> = Vec::new();
        idc.push('c');
        idc.push('o');
        idc.push('n');
        idc.push('v');
        idc.push('-');
        push_u64_dec(&mut idc, self.next_id);
        assert(idc@ =~= conv_id_seq(self.next_id as nat));
        let id = chars_to_string(&idc);
        let c = Conversation {
            id,
            title: nc.title.clone(),
            created_at: now,
            updated_at: now,
            model: nc.model.clone(),
            provider: nc.provider.clone(),
            system_prompt: match &nc.system_prompt {
                Some(s) => Some(s.clone()),
                None => None,
            },
            parent_conversation_id: None,
            branch_point_message_id: None,
        };
        let r = Conversation {
            id: c.id.clone(),
            title: c.title.clone(),
            created_at: c.created_at,
            updated_at: c.updated_at,
            model: c.model.clone(),
            provider: c.provider.clone(),
            system_prompt: match &c.system_prompt {
                Some(s) => Some(s.clone()),
                None => None,
            },
            parent_conversation_id: None,
            branch_point_message_id: None,
        };
        self.conversations.push(c);
        self.next_id = if self.next_id == u64::MAX {
            0
        } else {
            self.next_id + 1
        };
        proof {
            assert(self@.conversations =~= pre.conversations.push(r@));
            assert(self@.messages =~= pre.messages);
            assert(self@ == store_after_conversation(pre, r@));
        }
        r
    }

    /// Inserts a message with the next numbered identifier, stamped `now`,
    /// and refreshes its conversation's update time.
    pub fn create_message(&mut self, nm: &NewMessage, now: i64) -> (r: Message)
        ensures
            r@ == created_message(
                old(self)@,
                nm.conversation_id@,
                nm.role@,
                nm.content@,
                opt_i64_view(nm.tokens_used),
                now as int,
            ),
            final(self)@ == store_after_message(old(self)@, r@, now as int),
    {
        let ghost pre = self@;
        let mut idc: Vec<char> = Vec::new();
        idc.push('m');
        idc.push('s');
        idc.push('g');
        idc.push('-');
        push_u64_dec(&mut idc, self.next_id);
        assert(idc@ =~= msg_id_seq(self.next_id as nat));
        let id = chars_to_string(&idc);
        let m = Message {
            id,
            conversation_id: nm.conversation_id.clone(),
            role: nm.role.clone(),
            content: nm.content.clone(),
            timestamp: now,
            tokens_used: match nm.tokens_used {
                Some(t) => Some(t),
                None => None,
            },
        };
        let r = m.duplicate();
        self.messages.push(m);
        self.next_id = if self.next_id == u64::MAX {
            0
        } else {
            self.next_id + 1
        };
        let n = self.conversations.len();
        let mut i: usize = 0;
        while i < n
            invariant
                n == self.conversations@.len(),
                i <= n,
                self.messages@.map_values(|mm: Message| mm@) == pre.messages.push(r@),
                self@.next_id == if pre.next_id == u64::MAX as nat {
                    0nat
                } else {
                    pre.next_id + 1
                },
                self.conversations@.len() == pre.conversations.len(),
                forall|k: int|
                    0 <= k < i ==> (#[trigger] self.conversations@[k])@ == touch_conv(
                        pre.conversations,
                        nm.conversation_id@,
                        now as int,
                    )[k],
                forall|k: int|
                    i <= k < n ==> (#[trigger] self.conversations@[k])@ == pre.conversations[k],
            decreases n - i,
        {
            let same = self.conversations[i].id == nm.conversation_id;
            if same {
                self.conversations[i].updated_at = now;
            }
            proof {
                assert(self.conversations@[i as int]@ == touch_conv(
                    pre.conversations,
                    nm.conversation_id@,
                    now as int,
                )[i as int]);
            }
            i = i + 1;
        }
        proof {
            assert(self@.conversations =~= touch_conv(
                pre.conversations,
                nm.conversation_id@,
                now as int,
            ));
            assert(self@.messages =~= pre.messages.push(r@));
            assert(self@ == store_after_message(pre, r@, now as int));
        }
        r
    }

    /// The latest assistant-authored message of the most recently updated
    /// conversation.
    pub fn last_assistant_message(&self) -> (r: Option<Message>)
        ensures
            match r {
                Some(m) => last_assistant_spec(self@) == Some(m@),
                None => last_assistant_spec(self@) == None::<MessageV>,
            },
    {
        let nc = self.conversations.len();
        if nc == 0 {
            return None;
        }
        let mut best: usize = 0;
        let mut i: usize = 1;
        proof {
            reveal_with_fuel(latest_conversation, 2);
            let pfx = self@.conversations.subrange(0, 1);
            assert(pfx.drop_last() =~= self@.conversations.subrange(0, 0));
            assert(self@.conversations.subrange(0, 0).len() == 0);
            assert(pfx.last() == self.conversations@[0]@);
            assert(latest_conversation(pfx) == Some(self.conversations@[0]@));
        }
        while i < nc
            invariant
                nc == self.conversations@.len(),
                0 < nc,
                best < i <= nc,
                latest_conversation(
                    self@.conversations.subrange(0, i as int),
                ) == Some(self.conversations@[best as int]@),
            decreases nc - i,
        {
            proof {
                let pfx = self@.conversations.subrange(0, i + 1);
                assert(pfx.drop_last() =~= self@.conversations.subrange(0, i as int));
                assert(pfx.last() == self.conversations@[i as int]@);
            }
            if self.conversations[i].updated_at >= self.conversations[best].updated_at {
                best = i;
            }
            i = i + 1;
        }
        proof {
            assert(self@.conversations.subrange(0, nc as int) =~= self@.conversations);
        }
        let cid = &self.conversations[best].id;
        let nm = self.messages.len();
        let mut found: Option<usize> = None;
        let mut j: usize = 0;
        while j < nm
            invariant
                nm == self.messages@.len(),
                nc == self.conversations@.len(),
                best < nc,
                cid == self.conversations[best as int].id,
                j <= nm,
                match found {
                    Some(k) => k < j && last_assistant_in(
                        self@.messages.subrange(0, j as int),
                        cid@,
                    ) == Some(self.messages@[k as int]@),
                    None => last_assistant_in(self@.messages.subrange(0, j as int), cid@)
                        == None::<MessageV>,
                },
            decreases nm - j,
        {
            proof {
                let pfx = self@.messages.subrange(0, j + 1);
                assert(pfx.drop_last() =~= self@.messages.subrange(0, j as int));
                assert(pfx.last() == self.messages@[j as int]@);
                reveal_strlit("assistant");
                assert("assistant"@ =~= role_assistant());
            }
            let is_assistant = {
                let ra = String::from_str("assistant");
                self.messages[j].role == ra
            };
            let in_conv = self.messages[j].conversation_id == *cid;
            if in_conv && is_assistant {
                match found {
                    Some(k) => {
                        if self.messages[j].timestamp >= self.messages[k].timestamp {
                            found = Some(j);
                        }
                    },
                    None => {
                        found = Some(j);
                    },
                }
            }
            j = j + 1;
        }
        proof {
            assert(self@.messages.subrange(0, nm as int) =~= self@.messages);
        }
        match found {
            Some(k) => Some(self.messages[k].duplicate()),
            None => None,
        }
    }
}

} // verus!
