//! Chat messages, conversations, and the parts of chat responses that
//! carry them.
use crate::engine::ordinary_tokens;
use crate::error::{ErrorType, OairsError};
use crate::table::range_eq;
use crate::tokenize::tokenize;
use crate::text::{bytes_debug, bytes_list, find_char, index_of, lemma_index_of, trim, trimmed};
use crate::bundled::{bundled_loads, bundled_model};
use crate::tokenizer::Tokenizer;
use crate::models::str_eq;
use vstd::prelude::*;
use vstd::string::{StrSliceExecFns, StringExecFns, StringSliceAdditionalSpecFns};
use vstd::utf8::encode_utf8;

verus! {

/// Who speaks in a chat message.
#[derive(Debug, Clone, Copy, PartialEq, Eq, Structural)]
pub enum Role {
    /// The model.
    Assistant,
    /// The narrator, who sets the model's behaviour.
    System,
    /// The user or developer.
    User,
}

impl Default for Role {
    fn default() -> (r: Role)
        ensures
            r == Role::System,
    {
        Role::System
    }
}

/// The role that a byte string names: a bare role name, or a role object as
/// it appears in a streamed chunk.
pub open spec fn role_of_slice(s: Seq<u8>) -> Option<Role> {
    if s == encode_utf8("{\"role\":\"assistant\"}"@) || s == encode_utf8("assistant"@) {
        Some(Role::Assistant)
    } else if s == encode_utf8("{\"role\":\"system\"}"@) || s == encode_utf8("system"@) {
        Some(Role::System)
    } else if s == encode_utf8("{\"role\":\"user\"}"@) || s == encode_utf8("user"@) {
        Some(Role::User)
    } else {
        None
    }
}

/// Whether `a` and `b` hold the same bytes.
fn bytes_eq(a: &[u8], b: &[u8]) -> (r: bool)
    ensures
        r == (a@ == b@),
{
    assert(a@.subrange(0, a@.len() as int) =~= a@);
    range_eq(a, 0, a.len(), b)
}

impl Role {
    pub open spec fn spec_str(self) -> Seq<char> {
        match self {
            Role::Assistant => "assistant"@,
            Role::System => "system"@,
            Role::User => "user"@,
        }
    }

    pub fn to_str(&self) -> (r: &'static str)
        ensures
            r@ == self.spec_str(),
    {
        match self {
            Role::Assistant => "assistant",
            Role::System => "system",
            Role::User => "user",
        }
    }

    pub fn to_string(&self) -> (r: String)
        ensures
            r@ == self.spec_str(),
    {
        self.to_str().to_owned()
    }

    /// The role that a byte string names.
    pub fn from_slice(s: &[u8]) -> (r: Result<Role, String>)
        ensures
            r matches Ok(role) ==> role_of_slice(s@) == Some(role),
            r is Err ==> role_of_slice(s@) is None,
            r matches Err(m) ==> m@ == "["@ + bytes_list(s@) + "]"@ + " is not a valid role"@,
    {
        if bytes_eq(s, "{\"role\":\"assistant\"}".as_bytes()) || bytes_eq(s, "assistant".as_bytes()) {
            Ok(Role::Assistant)
        } else if bytes_eq(s, "{\"role\":\"system\"}".as_bytes()) || bytes_eq(s, "system".as_bytes()) {
            Ok(Role::System)
        } else if bytes_eq(s, "{\"role\":\"user\"}".as_bytes()) || bytes_eq(s, "user".as_bytes()) {
            Ok(Role::User)
        } else {
            let mut message = bytes_debug(s);
            message.append(" is not a valid role");
            Err(message)
        }
    }
}

impl Role {
    /// The role named `s`.
    pub fn from_name(s: &str) -> (r: Result<Role, String>)
        ensures
            r matches Ok(role) ==> role.spec_str() == s@,
            r is Err ==> s@ != "assistant"@ && s@ != "system"@ && s@ != "user"@,
    {
        if crate::models::str_eq(s, "assistant") {
            Ok(Role::Assistant)
        } else if crate::models::str_eq(s, "system") {
            Ok(Role::System)
        } else if crate::models::str_eq(s, "user") {
            Ok(Role::User)
        } else {
            let mut message = s.to_owned();
            message.append(" is not a valid role");
            Err(message)
        }
    }
}

impl std::str::FromStr for Role {
    type Err = String;

    fn from_str(s: &str) -> Result<Role, String> {
        Role::from_name(s)
    }
}

/// The role that a role text names, bare or in quotes.
pub open spec fn role_of_text(t: Seq<char>) -> Option<Role> {
    if t == "assistant"@ || t == "\"assistant\""@ {
        Some(Role::Assistant)
    } else if t == "system"@ || t == "\"system\""@ {
        Some(Role::System)
    } else if t == "user"@ || t == "\"user\""@ {
        Some(Role::User)
    } else {
        None
    }
}

/// The role text and the content that `Msg::parse` reads from `s`. The role
/// text is what precedes the first comma, cut at its first colon and
/// trimmed. The content is what follows the comma, trimmed, cut at its first
/// colon, trimmed again, and stripped of its first character and its last
/// two (a quote, and a quote and a brace). `None` when there is no comma or
/// the content is shorter than three characters.
pub open spec fn msg_fields(s: Seq<char>) -> Option<(Seq<char>, Seq<char>)> {
    let comma = index_of(s, ',', 0);
    if comma >= s.len() {
        None
    } else {
        let role_part = s.subrange(0, comma);
        let role = trimmed(role_part.subrange(0, index_of(role_part, ':', 0)));
        let content_part = trimmed(s.subrange(comma + 1, s.len() as int));
        let content = trimmed(content_part.subrange(0, index_of(content_part, ':', 0)));
        if content.len() < 3 {
            None
        } else {
            Some((role, content.subrange(1, content.len() - 2)))
        }
    }
}

/// The part of `s` before the first occurrence of `c`.
fn before_char(s: &str, c: char) -> (r: &str)
    ensures
        r@ == s@.subrange(0, index_of(s@, c, 0)),
{
    let len = s.unicode_len();
    let k = find_char(s, len, c, 0);
    proof {
        lemma_index_of(s@, c, 0);
    }
    s.substring_char(0, k)
}

/// A chat message.
#[derive(Debug, Clone, PartialEq, Eq)]
pub enum Msg {
    Assistant(String),
    System(String),
    User(String),
    /// A message as a response carries it.
    Response { role: Role, content: String },
}

impl Msg {
    pub open spec fn spec_role(&self) -> Role {
        match self {
            Msg::Assistant(_) => Role::Assistant,
            Msg::System(_) => Role::System,
            Msg::User(_) => Role::User,
            Msg::Response { role, .. } => *role,
        }
    }

    pub open spec fn spec_content(&self) -> Seq<char> {
        match self {
            Msg::Assistant(s) => s@,
            Msg::System(s) => s@,
            Msg::User(s) => s@,
            Msg::Response { content, .. } => content@,
        }
    }

    pub fn role(&self) -> (r: Role)
        ensures
            r == self.spec_role(),
    {
        match self {
            Msg::Assistant(_) => Role::Assistant,
            Msg::System(_) => Role::System,
            Msg::User(_) => Role::User,
            Msg::Response { role, .. } => *role,
        }
    }

    pub fn role_as_str(&self) -> (r: &'static str)
        ensures
            r@ == self.spec_role().spec_str(),
    {
        match self {
            Msg::Assistant(_) => "assistant",
            Msg::System(_) => "system",
            Msg::User(_) => "user",
            Msg::Response { role, .. } => role.to_str(),
        }
    }

    pub fn content(&self) -> (r: &str)
        ensures
            r@ == self.spec_content(),
    {
        match self {
            Msg::Assistant(s) => s.as_str(),
            Msg::System(s) => s.as_str(),
            Msg::User(s) => s.as_str(),
            Msg::Response { content, .. } => content.as_str(),
        }
    }

    /// Replaces the content, keeping the kind of message and its role.
    pub fn set_content(&mut self, content: String)
        ensures
            final(self).spec_role() == old(self).spec_role(),
            final(self).spec_content() == content@,
            (*final(self) is Response) == (*old(self) is Response),
    {
        match self {
            Msg::Assistant(_) => *self = Msg::Assistant(content),
            Msg::System(_) => *self = Msg::System(content),
            Msg::User(_) => *self = Msg::User(content),
            Msg::Response { role, .. } => {
                let role = *role;
                *self = Msg::Response { role, content };
            },
        }
    }

    /// The message as text: its role, a colon and its content.
    pub open spec fn spec_text(&self) -> Seq<char> {
        self.spec_role().spec_str() + ": "@ + self.spec_content()
    }

    /// The message as text: its role, a colon and its content.
    pub fn to_string(&self) -> (r: String)
        ensures
            r@ == self.spec_text(),
    {
        let mut s = self.role_as_str().to_owned();
        s.append(": ");
        s.append(self.content());
        s
    }

    /// A message from text of the form `role, "content"}`: see `msg_fields`.
    pub fn parse(s: &str) -> (r: Result<Msg, String>)
        ensures
            msg_fields(s@) is None ==> r is Err,
            r matches Ok(m) ==> !(m is Response) && (msg_fields(s@) matches Some(f) && role_of_text(f.0)
                == Some(m.spec_role()) && m.spec_content() == f.1),
            (msg_fields(s@) matches Some(f) && role_of_text(f.0) is Some) ==> r is Ok,
    {
        let len = s.unicode_len();
        let comma = find_char(s, len, ',', 0);
        proof {
            lemma_index_of(s@, ',', 0);
        }
        if comma >= len {
            return Err("No content found".to_owned());
        }
        let role_part = s.substring_char(0, comma);
        let role = trim(before_char(role_part, ':'));
        let content_part = trim(s.substring_char(comma + 1, len));
        let content = trim(before_char(content_part, ':'));
        let clen = content.unicode_len();
        if clen < 3 {
            return Err("No content found".to_owned());
        }
        let text = content.substring_char(1, clen - 2).to_owned();
        if str_eq(role, "assistant") || str_eq(role, "\"assistant\"") {
            Ok(Msg::Assistant(text))
        } else if str_eq(role, "system") || str_eq(role, "\"system\"") {
            Ok(Msg::System(text))
        } else if str_eq(role, "user") || str_eq(role, "\"user\"") {
            Ok(Msg::User(text))
        } else {
            let mut message = role.to_owned();
            message.append(" is not a valid role");
            Err(message)
        }
    }

    /// A copy of the message.
    pub fn duplicate(&self) -> (r: Msg)
        ensures
            r == *self,
    {
        match self {
            Msg::Assistant(s) => Msg::Assistant(s.clone()),
            Msg::System(s) => Msg::System(s.clone()),
            Msg::User(s) => Msg::User(s.clone()),
            Msg::Response { role, content } => Msg::Response { role: *role, content: content.clone() },
        }
    }

    /// The ordinary cl100k_base tokens of the content.
    pub fn tokens(&self) -> (r: Result<Vec<usize>, OairsError>)
        ensures
            r is Ok <==> bundled_loads(Tokenizer::CL100KBase),
            r matches Ok(t) ==> t@ == ordinary_tokens(
                bundled_model(Tokenizer::CL100KBase),
                encode_utf8(self.spec_content()),
            ),
            r matches Err(e) ==> e.error_type@ == ErrorType::Tokenizer.spec_str(),
    {
        tokenize(self.content(), Tokenizer::CL100KBase)
    }
}

impl std::str::FromStr for Msg {
    type Err = String;

    fn from_str(s: &str) -> Result<Msg, String> {
        Msg::parse(s)
    }
}

/// Token counts of a request and its response.
#[derive(Debug, Clone, Copy, PartialEq, Eq, Structural)]
pub struct Usage {
    pub prompt_tokens: usize,
    pub completion_tokens: Option<usize>,
    pub total_tokens: usize,
}

/// One response message of a chat completion.
#[derive(Debug, Clone, PartialEq, Eq)]
pub struct ChatChoice {
    pub index: u8,
    pub message: Msg,
    pub finish_reason: Option<String>,
}

/// A chat completion.
#[derive(Debug, Clone, PartialEq, Eq)]
pub struct ChatCompletion {
    pub input: Option<String>,
    pub id: String,
    pub object: String,
    pub created: u64,
    pub model: Option<String>,
    pub choices: Vec<ChatChoice>,
    pub usage: Usage,
}

impl ChatCompletion {
    /// The first response message.
    pub fn response_message(&self) -> (r: Msg)
        requires
            self.choices@.len() > 0,
        ensures
            r == self.choices@[0].message,
    {
        self.choices[0].message.duplicate()
    }

    /// Every response message, in order.
    pub fn get_messages(&self) -> (r: Vec<Msg>)
        ensures
            r@ == self.choices@.map_values(|c: ChatChoice| c.message),
    {
        let mut out: Vec<Msg> = Vec::new();
        let mut i: usize = 0;
        while i < self.choices.len()
            invariant
                i <= self.choices@.len(),
                out@ =~= self.choices@.subrange(0, i as int).map_values(|c: ChatChoice| c.message),
            decreases self.choices@.len() - i,
        {
            out.push(self.choices[i].message.duplicate());
            i = i + 1;
            assert(out@ =~= self.choices@.subrange(0, i as int).map_values(|c: ChatChoice| c.message));
        }
        assert(self.choices@.subrange(0, self.choices@.len() as int) =~= self.choices@);
        out
    }
}

/// `t` is the ordinary cl100k_base encoding of `content`.
pub open spec fn content_tokens(t: Seq<usize>, content: Seq<char>) -> bool {
    t == ordinary_tokens(bundled_model(Tokenizer::CL100KBase), encode_utf8(content))
}

/// The numbers of ordinary cl100k_base tokens of a prompt and of a response.
pub open spec fn usage_counts(prompt: Seq<char>, response: Seq<char>) -> (nat, nat) {
    let m = bundled_model(Tokenizer::CL100KBase);
    (ordinary_tokens(m, encode_utf8(prompt)).len(), ordinary_tokens(m, encode_utf8(response)).len())
}

/// The texts of the first `k` messages, each followed by a comma and all but
/// the last message by a space.
pub open spec fn listing(msgs: Seq<Msg>, k: int) -> Seq<char>
    decreases k,
{
    if k <= 0 {
        Seq::empty()
    } else {
        listing(msgs, k - 1) + msgs[k - 1].spec_text() + (if k < msgs.len() {
            ", "@
        } else {
            ","@
        })
    }
}

/// A conversation: the messages sent so far.
#[derive(Debug, Clone, PartialEq, Eq)]
pub struct Messages {
    data: Vec<Msg>,
    save_with_tokens: bool,
    tokens: Vec<Vec<usize>>,
}

impl View for Messages {
    type V = Seq<Msg>;

    closed spec fn view(&self) -> Seq<Msg> {
        self.data@
    }
}

impl Default for Messages {
    fn default() -> (r: Messages)
        ensures
            r@ == Seq::<Msg>::empty(),
            r.spec_tokens().len() == 0,
            !r.spec_saves_tokens(),
    {
        Messages { data: Vec::new(), save_with_tokens: false, tokens: Vec::new() }
    }
}

impl Messages {
    pub fn new(msgs: Vec<Msg>) -> (r: Messages)
        ensures
            r@ == msgs@,
            r.spec_tokens().len() == 0,
            !r.spec_saves_tokens(),
    {
        let mut messages = Messages::default();
        messages.extend(msgs);
        assert(Seq::<Msg>::empty() + msgs@ =~= msgs@);
        messages
    }

    pub fn is_empty(&self) -> (r: bool)
        ensures
            r == (self@.len() == 0),
    {
        self.data.len() == 0
    }

    pub fn len(&self) -> (r: usize)
        ensures
            r == self@.len(),
    {
        self.data.len()
    }

    /// The messages, in order.
    pub fn data(&self) -> (r: &Vec<Msg>)
        ensures
            r@ == self@,
    {
        &self.data
    }

    pub fn push(&mut self, msg: Msg)
        ensures
            final(self)@ == old(self)@.push(msg),
            final(self).spec_tokens() == old(self).spec_tokens(),
            final(self).spec_saves_tokens() == old(self).spec_saves_tokens(),
    {
        self.data.push(msg);
    }

    pub fn extend(&mut self, msgs: Vec<Msg>)
        ensures
            final(self)@ == old(self)@ + msgs@,
            final(self).spec_tokens() == old(self).spec_tokens(),
            final(self).spec_saves_tokens() == old(self).spec_saves_tokens(),
    {
        let mut msgs = msgs;
        self.data.append(&mut msgs);
    }

    /// Appends every response message of a chat completion.
    pub fn push_response(&mut self, chat_response: &ChatCompletion)
        ensures
            final(self)@ == old(self)@ + chat_response.choices@.map_values(|c: ChatChoice| c.message),
            final(self).spec_tokens() == old(self).spec_tokens(),
            final(self).spec_saves_tokens() == old(self).spec_saves_tokens(),
    {
        let msgs = chat_response.get_messages();
        self.extend(msgs);
    }

    /// The messages as text, in brackets, each followed by a comma and all
    /// but the last by a space.
    pub fn to_string(&self) -> (r: String)
        ensures
            r@ == "["@ + listing(self@, self@.len() as int) + "]"@,
    {
        let mut s = "[".to_owned();
        let n = self.data.len();
        let mut i: usize = 0;
        while i < n
            invariant
                n == self@.len(),
                i <= n,
                s@ == "["@ + listing(self@, i as int),
            decreases n - i,
        {
            let text = self.data[i].to_string();
            s.append(text.as_str());
            if i + 1 < n {
                s.append(", ");
            } else {
                s.append(",");
            }
            i = i + 1;
        }
        s.append("]");
        s
    }

    /// The token lists kept beside the messages.
    pub closed spec fn spec_tokens(&self) -> Seq<Vec<usize>> {
        self.tokens@
    }

    /// Whether the token lists are saved with the messages.
    pub closed spec fn spec_saves_tokens(&self) -> bool {
        self.save_with_tokens
    }

    /// Tokenizes every message (ordinary cl100k_base tokens, in order) and
    /// keeps the token lists beside the messages, to be saved with them.
    pub fn attach_tokens(&mut self) -> (r: Result<(), OairsError>)
        ensures
            final(self)@ == old(self)@,
            r is Ok <==> old(self)@.len() == 0 || bundled_loads(Tokenizer::CL100KBase),
            r is Err ==> *final(self) == *old(self),
            r is Ok ==> final(self).spec_saves_tokens() && final(self).spec_tokens().len() == old(
                self,
            ).spec_tokens().len() + old(self)@.len(),
            r is Ok ==> forall|i: int|
                0 <= i < old(self)@.len() ==> #[trigger] content_tokens(
                    final(self).spec_tokens()[old(self).spec_tokens().len() + i]@,
                    old(self)@[i].spec_content(),
                ),
    {
        let ghost start = self.tokens@.len();
        let mut i: usize = 0;
        while i < self.data.len()
            invariant
                self.data == old(self).data,
                self.save_with_tokens == old(self).save_with_tokens,
                i == 0 ==> self.tokens == old(self).tokens,
                i > 0 ==> bundled_loads(Tokenizer::CL100KBase),
                self.tokens@.len() == start + i,
                start == old(self).tokens@.len(),
                i <= self.data@.len(),
                forall|k: int|
                    0 <= k < i ==> #[trigger] content_tokens(self.tokens@[start + k]@, self.data@[k].spec_content()),
            decreases self.data@.len() - i,
        {
            let tokens = self.data[i].tokens()?;
            let ghost before = self.tokens@;
            self.tokens.push(tokens);
            assert forall|k: int| 0 <= k < i + 1 implies #[trigger] content_tokens(self.tokens@[start + k]@, self.data@[k].spec_content()) by {
                if k < i {
                    assert(self.tokens@[start + k] == before[start + k]);
                }
            }
            i = i + 1;
        }
        self.save_with_tokens = true;
        Ok(())
    }

    /// The token lists kept beside the messages.
    pub fn tokens(&self) -> (r: &Vec<Vec<usize>>)
        ensures
            r@ == self.spec_tokens(),
    {
        &self.tokens
    }

    pub fn clear(&mut self)
        ensures
            final(self)@ == Seq::<Msg>::empty(),
            final(self).spec_tokens() == old(self).spec_tokens(),
            final(self).spec_saves_tokens() == old(self).spec_saves_tokens(),
    {
        self.data.clear();
    }
}

/// One streamed piece of a chat completion.
#[derive(Debug, Clone, PartialEq, Eq)]
pub struct ChatCompletionChunk {
    pub id: String,
    pub object: String,
    pub created: u64,
    pub model: String,
    pub choices: Vec<StreamedChoice>,
}

impl ChatCompletionChunk {
    /// The chat completion that a streamed response amounts to, given the
    /// content of the streamed message and the prompt: every choice carries
    /// the content as an assistant message, and the usage counts the ordinary
    /// cl100k_base tokens of the prompt and of the content.
    pub fn to_chat_response(self, response_message_content: String, prompt: String) -> (r: Result<
        ChatCompletion,
        OairsError,
    >)
        ensures
            r is Ok <==> bundled_loads(Tokenizer::CL100KBase) && usage_counts(prompt@, response_message_content@).0
                + usage_counts(prompt@, response_message_content@).1 <= usize::MAX,
            r matches Ok(c) ==> {
                &&& c.input == Some(prompt)
                &&& c.id == self.id
                &&& c.object == self.object
                &&& c.created == self.created
                &&& c.model == Some(self.model)
                &&& c.choices@.len() == self.choices@.len()
                &&& forall|i: int|
                    0 <= i < c.choices@.len() ==> {
                        &&& (#[trigger] c.choices@[i]).index == self.choices@[i].index
                        &&& c.choices@[i].message == Msg::Assistant(response_message_content)
                        &&& c.choices@[i].finish_reason == self.choices@[i].finish_reason
                    }
                &&& c.usage.prompt_tokens == usage_counts(prompt@, response_message_content@).0
                &&& c.usage.completion_tokens == Some(usage_counts(prompt@, response_message_content@).1 as usize)
                &&& c.usage.total_tokens == usage_counts(prompt@, response_message_content@).0 + usage_counts(
                    prompt@,
                    response_message_content@,
                ).1
            },
    {
        let prompt_tokens = tokenize(prompt.as_str(), Tokenizer::CL100KBase)?;
        let response_tokens = tokenize(response_message_content.as_str(), Tokenizer::CL100KBase)?;
        let prompt_count = prompt_tokens.len();
        let response_count = response_tokens.len();
        let total = match prompt_count.checked_add(response_count) {
            Some(t) => t,
            None => {
                return Err(
                    OairsError::new(
                        "Token count does not fit".to_owned(),
                        ErrorType::Tokenizer,
                        None,
                        None,
                    ),
                );
            },
        };
        let usage = Usage { prompt_tokens: prompt_count, completion_tokens: Some(response_count), total_tokens: total };
        let mut choices: Vec<ChatChoice> = Vec::new();
        let mut i: usize = 0;
        while i < self.choices.len()
            invariant
                i <= self.choices@.len(),
                choices@.len() == i,
                forall|k: int|
                    0 <= k < i ==> {
                        &&& (#[trigger] choices@[k]).index == self.choices@[k].index
                        &&& choices@[k].message == Msg::Assistant(response_message_content)
                        &&& choices@[k].finish_reason == self.choices@[k].finish_reason
                    },
            decreases self.choices@.len() - i,
        {
            let finish_reason = match &self.choices[i].finish_reason {
                Some(f) => Some(f.clone()),
                None => None,
            };
            choices.push(
                ChatChoice {
                    index: self.choices[i].index,
                    message: Msg::Assistant(response_message_content.clone()),
                    finish_reason,
                },
            );
            i = i + 1;
        }
        Ok(
            ChatCompletion {
                input: Some(prompt),
                id: self.id,
                object: self.object,
                created: self.created,
                model: Some(self.model),
                choices,
                usage,
            },
        )
    }
}

/// The streamed pieces of one chat completion.
#[derive(Debug, Clone, PartialEq, Eq)]
pub struct ChatCompletionChunks {
    pub data: Vec<ChatCompletionChunk>,
}

impl ChatCompletionChunks {
    pub fn new() -> (r: ChatCompletionChunks)
        ensures
            r.data@.len() == 0,
    {
        ChatCompletionChunks { data: Vec::new() }
    }

    pub fn push(&mut self, part: ChatCompletionChunk)
        ensures
            final(self).data@ == old(self).data@.push(part),
    {
        self.data.push(part);
    }

    pub fn extend(&mut self, parts: Vec<ChatCompletionChunk>)
        ensures
            final(self).data@ == old(self).data@ + parts@,
    {
        let mut parts = parts;
        self.data.append(&mut parts);
    }

    pub fn is_empty(&self) -> (r: bool)
        ensures
            r == (self.data@.len() == 0),
    {
        self.data.len() == 0
    }
}

/// One choice of a streamed chunk.
#[derive(Debug, Clone, PartialEq, Eq)]
pub struct StreamedChoice {
    pub delta: MessagePart,
    pub index: u8,
    pub finish_reason: Option<String>,
}

/// The role or the content that a streamed chunk adds.
#[derive(Debug, Clone, PartialEq, Eq)]
pub struct MessagePart {
    pub msg: Option<String>,
}

/// How many log probabilities a completion returns.
#[derive(Debug, Clone, Copy, PartialEq, Eq, Structural)]
pub enum LogProbs {
    Zero,
    One,
    Two,
    Three,
    Four,
    Five,
}

impl LogProbs {
    pub open spec fn spec_int(self) -> u8 {
        match self {
            LogProbs::Zero => 0,
            LogProbs::One => 1,
            LogProbs::Two => 2,
            LogProbs::Three => 3,
            LogProbs::Four => 4,
            LogProbs::Five => 5,
        }
    }

    pub fn to_int(&self) -> (r: u8)
        ensures
            r == self.spec_int(),
    {
        match self {
            LogProbs::Zero => 0,
            LogProbs::One => 1,
            LogProbs::Two => 2,
            LogProbs::Three => 3,
            LogProbs::Four => 4,
            LogProbs::Five => 5,
        }
    }
}

/// A bias for one token.
#[derive(Debug, Clone, Copy, PartialEq, Eq, Structural)]
pub struct LogitBias {
    pub token: u32,
    pub value: i32,
}

impl LogitBias {
    /// A bias, which must lie between -100 and 100.
    pub fn new(token: u32, value: i32) -> (r: LogitBias)
        requires
            -100 <= value <= 100,
        ensures
            r.token == token,
            r.value == value,
    {
        LogitBias { token, value }
    }
}

} // verus!
