//! Files, fine-tuning data, and the plain response records of the service.
use crate::chat::Usage;
use crate::error::{ErrorType, OairsError};
use vstd::prelude::*;
use vstd::string::StrSliceExecFns;

verus! {

/// What an uploaded file is for.
#[non_exhaustive]
#[derive(Debug, Clone, Copy, PartialEq, Eq, Structural)]
pub enum Purpose {
    FineTune,
}

impl Default for Purpose {
    fn default() -> (r: Purpose)
        ensures
            r == Purpose::FineTune,
    {
        Purpose::FineTune
    }
}

impl Purpose {
    pub open spec fn spec_str(self) -> Seq<char> {
        match self {
            Purpose::FineTune => "fine-tune"@,
        }
    }

    pub fn to_str(&self) -> (r: &'static str)
        ensures
            r@ == self.spec_str(),
    {
        match self {
            Purpose::FineTune => "fine-tune",
        }
    }
}

/// The answer to a deletion.
#[derive(Debug, Clone, PartialEq, Eq)]
pub struct DeleteResponse {
    pub id: String,
    pub object: String,
    pub deleted: bool,
}

/// The files of the account.
#[derive(Debug, Clone, PartialEq, Eq)]
pub struct FileList {
    pub data: Vec<FileInfo>,
    pub object: String,
}

/// An uploaded file.
#[derive(Debug, Clone, PartialEq, Eq)]
pub struct FileInfo {
    pub object: String,
    pub id: String,
    pub purpose: String,
    pub filename: String,
    pub bytes: u64,
    pub created_at: u64,
    pub status: String,
    pub status_destails: Option<String>,
}

impl FileInfo {
    pub fn id(&self) -> (r: &str)
        ensures
            r@ == self.id@,
    {
        self.id.as_str()
    }
}

/// One training example: a prompt and its completion.
#[derive(Debug, Clone, PartialEq, Eq)]
pub struct PromptCompletion {
    pub prompt: String,
    pub completion: String,
}

/// The end of the line that starts at `i`: the first newline from `i` on,
/// or the end of the text.
pub open spec fn line_end(s: Seq<char>, i: int) -> int
    decreases s.len() - i,
{
    if i < 0 || i >= s.len() {
        s.len() as int
    } else if s[i] == '\n' {
        i
    } else {
        line_end(s, i + 1)
    }
}

/// The line `s[start..end]`, without the carriage return of a `\r\n`
/// ending.
pub open spec fn line_at(s: Seq<char>, start: int, end: int) -> Seq<char> {
    if end < s.len() && start < end && s[end - 1] == '\r' {
        s.subrange(start, end - 1)
    } else {
        s.subrange(start, end)
    }
}

/// The first two lines of `s`, as `str::lines` splits it: `Err(0)` when it
/// has no line, `Err(1)` when it has one.
pub open spec fn first_two_lines(s: Seq<char>) -> Result<(Seq<char>, Seq<char>), u8> {
    if s.len() == 0 {
        Err(0u8)
    } else {
        let e1 = line_end(s, 0);
        if e1 + 1 >= s.len() {
            Err(1u8)
        } else {
            let e2 = line_end(s, e1 + 1);
            Ok((line_at(s, 0, e1), line_at(s, e1 + 1, e2)))
        }
    }
}

proof fn lemma_line_end(s: Seq<char>, i: int)
    requires
        0 <= i <= s.len(),
    ensures
        i <= line_end(s, i) <= s.len(),
    decreases s.len() - i,
{
    if i < s.len() && s[i] != '\n' {
        lemma_line_end(s, i + 1);
    }
}

/// Where the line that starts at `i` ends.
fn find_line_end(s: &str, len: usize, i: usize) -> (r: usize)
    requires
        len == s@.len(),
        i <= len,
    ensures
        r as int == line_end(s@, i as int),
{
    let mut k = i;
    while k < len
        invariant
            len == s@.len(),
            i <= k <= len,
            line_end(s@, i as int) == line_end(s@, k as int),
        decreases len - k,
    {
        if s.get_char(k) == '\n' {
            return k;
        }
        k = k + 1;
    }
    k
}

/// The line `s[start..end]`, without the carriage return of a `\r\n`
/// ending.
fn take_line(s: &str, len: usize, start: usize, end: usize) -> (r: String)
    requires
        len == s@.len(),
        start <= end <= len,
    ensures
        r@ == line_at(s@, start as int, end as int),
{
    if end < len && start < end && s.get_char(end - 1) == '\r' {
        s.substring_char(start, end - 1).to_owned()
    } else {
        s.substring_char(start, end).to_owned()
    }
}

impl PromptCompletion {
    /// A training example from a text whose first line is the prompt and
    /// whose second line is the completion.
    pub fn parse(s: &str) -> (r: Result<PromptCompletion, OairsError>)
        ensures
            r matches Ok(pc) ==> first_two_lines(s@) == Ok::<(Seq<char>, Seq<char>), u8>((pc.prompt@, pc.completion@)),
            r is Err ==> first_two_lines(s@) is Err,
            r matches Err(e) ==> e.error_type@ == ErrorType::ParseError.spec_str(),
    {
        let len = s.unicode_len();
        if len == 0 {
            return Err(OairsError::new("Unable to parse prompt from file content.".to_owned(), ErrorType::ParseError, None, None));
        }
        let e1 = find_line_end(s, len, 0);
        proof {
            lemma_line_end(s@, 0);
        }
        if e1 >= len - 1 {
            return Err(OairsError::new("Unable to parse completion from file content.".to_owned(), ErrorType::ParseError, None, None));
        }
        let e2 = find_line_end(s, len, e1 + 1);
        proof {
            lemma_line_end(s@, e1 + 1);
        }
        let prompt = take_line(s, len, 0, e1);
        let completion = take_line(s, len, e1 + 1, e2);
        Ok(PromptCompletion { prompt, completion })
    }
}

impl std::str::FromStr for PromptCompletion {
    type Err = OairsError;

    fn from_str(s: &str) -> Result<PromptCompletion, OairsError> {
        PromptCompletion::parse(s)
    }
}

/// The content of a fine-tuning file: its training examples.
#[derive(Debug, Clone, PartialEq, Eq)]
pub struct FineTuneFC {
    pub data: Vec<PromptCompletion>,
}

impl Default for FineTuneFC {
    fn default() -> (r: FineTuneFC)
        ensures
            r.data@.len() == 0,
    {
        FineTuneFC::new()
    }
}

impl FineTuneFC {
    pub fn new() -> (r: FineTuneFC)
        ensures
            r.data@.len() == 0,
    {
        FineTuneFC { data: Vec::new() }
    }
}

/// An event of a fine-tuning job.
#[derive(Debug, Clone, PartialEq, Eq)]
pub struct Event {
    pub object: String,
    pub created_at: u64,
    pub level: String,
    pub message: String,
}

/// The events of a fine-tuning job.
#[derive(Debug, Clone, PartialEq, Eq)]
pub struct EventList {
    pub object: String,
    pub data: Vec<Event>,
}

/// The models available to the account.
#[derive(Debug, Clone, PartialEq, Eq)]
pub struct ModelsList {
    pub data: Vec<ModelObject>,
    pub object: String,
}

/// A model.
#[derive(Debug, Clone, PartialEq, Eq)]
pub struct ModelObject {
    pub id: String,
    pub object: String,
    pub created: u64,
    pub owned_by: String,
    pub permission: Vec<ModelPermissions>,
    pub root: String,
    pub parent: Option<String>,
}

/// What the account may do with a model.
#[derive(Debug, Clone, PartialEq, Eq)]
pub struct ModelPermissions {
    pub id: String,
    pub object: String,
    pub created: u64,
    pub allow_create_engine: bool,
    pub allow_sampling: bool,
    pub allow_logprobs: bool,
    pub allow_search_indices: bool,
    pub allow_view: bool,
    pub allow_fine_tuning: bool,
    pub organization: String,
    pub group: Option<String>,
    pub is_blocking: bool,
}

/// The categories a moderation flags.
#[derive(Debug, Clone, Copy, PartialEq, Eq, Structural)]
pub struct ModerationCategories {
    pub hate: bool,
    pub hate_threatening: bool,
    pub self_harm: bool,
    pub sexual: bool,
    pub sexual_minors: bool,
    pub violence: bool,
    pub violence_graphic: bool,
}

/// An edit of a text.
#[derive(Debug, Clone, PartialEq, Eq)]
pub struct Edit {
    pub object: String,
    pub created: u64,
    pub choices: Vec<EditChoice>,
    pub usage: Usage,
}

/// One edited text.
#[derive(Debug, Clone, PartialEq, Eq)]
pub struct EditChoice {
    pub index: u8,
    pub text: String,
    pub finish_reason: Option<String>,
}

/// Generated images.
#[derive(Debug, Clone, PartialEq, Eq)]
pub struct Image {
    pub created: u64,
    pub data: Vec<FormattedImage>,
}

/// One generated image, as a URL or as base64 data.
#[derive(Debug, Clone, PartialEq, Eq)]
pub struct FormattedImage {
    pub frmt: String,
}

} // verus!
