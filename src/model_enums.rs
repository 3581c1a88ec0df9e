//! The models of the service and their identifiers.
use crate::error::{ErrorType, OairsError};
use crate::models::str_eq;
use vstd::prelude::*;
use vstd::string::StringExecFns;

verus! {

/// A model that can be retrieved by its identifier.
pub trait RetrievableModel {
    /// The identifier the service uses for the model.
    spec fn spec_id(&self) -> Seq<char>;

    /// The identifier the service uses for the model.
    fn to_str(&self) -> (r: &'static str)
        ensures
            r@ == self.spec_id();
}

/// The speech-to-text models.
#[non_exhaustive]
#[derive(Debug, Clone, Copy, PartialEq, Eq, Structural)]
pub enum AudioModel {
    Whisper1,
}

impl AudioModel {
    pub open spec fn spec_str(self) -> Seq<char> {
        match self {
            AudioModel::Whisper1 => "whisper-1"@,
        }
    }

    /// The identifier the service uses for the model.
    pub fn to_str(&self) -> (r: &'static str)
        ensures
            r@ == self.spec_str(),
    {
        match self {
            AudioModel::Whisper1 => "whisper-1",
        }
    }

    /// Every variant, in declaration order.
    pub open spec fn spec_all() -> Seq<AudioModel> {
        seq![AudioModel::Whisper1, ]
    }

    /// Every variant, in declaration order.
    pub fn all() -> (r: Vec<AudioModel>)
        ensures
            r@ == Self::spec_all(),
    {
        vec![AudioModel::Whisper1, ]
    }

    /// The model whose identifier is `s`.
    pub fn from_name(s: &str) -> (r: Result<AudioModel, OairsError>)
        ensures
            r matches Ok(m) ==> m.spec_str() == s@,
            r is Err ==> forall|i: int| 0 <= i < Self::spec_all().len() ==> (#[trigger] Self::spec_all()[i]).spec_str() != s@,
            r matches Err(e) ==> e.error_type@ == ErrorType::DeserializationError.spec_str(),
    {
        let all = Self::all();
        let mut i: usize = 0;
        while i < all.len()
            invariant
                all@ == Self::spec_all(),
                i <= all@.len(),
                forall|k: int| 0 <= k < i ==> (#[trigger] Self::spec_all()[k]).spec_str() != s@,
            decreases all@.len() - i,
        {
            if str_eq(all[i].to_str(), s) {
                return Ok(all[i]);
            }
            i = i + 1;
        }
        let mut message = "No AudioModel variant: ".to_owned();
        message.append(s);
        Err(OairsError::new(message, ErrorType::DeserializationError, Some(s.to_owned()), None))
    }
}

impl std::str::FromStr for AudioModel {
    type Err = OairsError;

    fn from_str(s: &str) -> Result<AudioModel, OairsError> {
        AudioModel::from_name(s)
    }
}

impl RetrievableModel for AudioModel {
    open spec fn spec_id(&self) -> Seq<char> {
        self.spec_str()
    }

    fn to_str(&self) -> (r: &'static str) {
        AudioModel::to_str(self)
    }
}

/// The edit models.
#[non_exhaustive]
#[derive(Debug, Clone, Copy, PartialEq, Eq, Structural)]
pub enum EditModel {
    CodeDavinci002,
    TextDavinciEdit001,
    CodeCushman001,
}

impl EditModel {
    pub open spec fn spec_str(self) -> Seq<char> {
        match self {
            EditModel::CodeDavinci002 => "code-davinci-002"@,
            EditModel::TextDavinciEdit001 => "text-davinci-edit-001"@,
            EditModel::CodeCushman001 => "code-cushman-001"@,
        }
    }

    /// The identifier the service uses for the model.
    pub fn to_str(&self) -> (r: &'static str)
        ensures
            r@ == self.spec_str(),
    {
        match self {
            EditModel::CodeDavinci002 => "code-davinci-002",
            EditModel::TextDavinciEdit001 => "text-davinci-edit-001",
            EditModel::CodeCushman001 => "code-cushman-001",
        }
    }

    /// Every variant, in declaration order.
    pub open spec fn spec_all() -> Seq<EditModel> {
        seq![EditModel::CodeDavinci002, EditModel::TextDavinciEdit001, EditModel::CodeCushman001, ]
    }

    /// Every variant, in declaration order.
    pub fn all() -> (r: Vec<EditModel>)
        ensures
            r@ == Self::spec_all(),
    {
        vec![EditModel::CodeDavinci002, EditModel::TextDavinciEdit001, EditModel::CodeCushman001, ]
    }

    /// The model whose identifier is `s`.
    pub fn from_name(s: &str) -> (r: Result<EditModel, OairsError>)
        ensures
            r matches Ok(m) ==> m.spec_str() == s@,
            r is Err ==> forall|i: int| 0 <= i < Self::spec_all().len() ==> (#[trigger] Self::spec_all()[i]).spec_str() != s@,
            r matches Err(e) ==> e.error_type@ == ErrorType::DeserializationError.spec_str(),
    {
        let all = Self::all();
        let mut i: usize = 0;
        while i < all.len()
            invariant
                all@ == Self::spec_all(),
                i <= all@.len(),
                forall|k: int| 0 <= k < i ==> (#[trigger] Self::spec_all()[k]).spec_str() != s@,
            decreases all@.len() - i,
        {
            if str_eq(all[i].to_str(), s) {
                return Ok(all[i]);
            }
            i = i + 1;
        }
        let mut message = "No EditModel variant: ".to_owned();
        message.append(s);
        Err(OairsError::new(message, ErrorType::DeserializationError, Some(s.to_owned()), None))
    }
}

impl std::str::FromStr for EditModel {
    type Err = OairsError;

    fn from_str(s: &str) -> Result<EditModel, OairsError> {
        EditModel::from_name(s)
    }
}

impl RetrievableModel for EditModel {
    open spec fn spec_id(&self) -> Seq<char> {
        self.spec_str()
    }

    fn to_str(&self) -> (r: &'static str) {
        EditModel::to_str(self)
    }
}

/// The chat models.
#[non_exhaustive]
#[derive(Debug, Clone, Copy, PartialEq, Eq, Structural)]
pub enum ChatModel {
    GptTurbo,
    GptTurbo0301,
    Gpt4,
    Gpt40314,
}

impl Default for ChatModel {
    fn default() -> (r: ChatModel)
        ensures
            r == ChatModel::GptTurbo,
    {
        ChatModel::GptTurbo
    }
}

impl ChatModel {
    pub open spec fn spec_str(self) -> Seq<char> {
        match self {
            ChatModel::GptTurbo => "gpt-3.5-turbo"@,
            ChatModel::GptTurbo0301 => "gpt-3.5-turbo-0301"@,
            ChatModel::Gpt4 => "gpt-4"@,
            ChatModel::Gpt40314 => "gpt-4-0314"@,
        }
    }

    /// The identifier the service uses for the model.
    pub fn to_str(&self) -> (r: &'static str)
        ensures
            r@ == self.spec_str(),
    {
        match self {
            ChatModel::GptTurbo => "gpt-3.5-turbo",
            ChatModel::GptTurbo0301 => "gpt-3.5-turbo-0301",
            ChatModel::Gpt4 => "gpt-4",
            ChatModel::Gpt40314 => "gpt-4-0314",
        }
    }

    /// Every variant, in declaration order.
    pub open spec fn spec_all() -> Seq<ChatModel> {
        seq![ChatModel::GptTurbo, ChatModel::GptTurbo0301, ChatModel::Gpt4, ChatModel::Gpt40314, ]
    }

    /// Every variant, in declaration order.
    pub fn all() -> (r: Vec<ChatModel>)
        ensures
            r@ == Self::spec_all(),
    {
        vec![ChatModel::GptTurbo, ChatModel::GptTurbo0301, ChatModel::Gpt4, ChatModel::Gpt40314, ]
    }

    /// The model whose identifier is `s`.
    pub fn from_name(s: &str) -> (r: Result<ChatModel, OairsError>)
        ensures
            r matches Ok(m) ==> m.spec_str() == s@,
            r is Err ==> forall|i: int| 0 <= i < Self::spec_all().len() ==> (#[trigger] Self::spec_all()[i]).spec_str() != s@,
            r matches Err(e) ==> e.error_type@ == ErrorType::DeserializationError.spec_str(),
    {
        let all = Self::all();
        let mut i: usize = 0;
        while i < all.len()
            invariant
                all@ == Self::spec_all(),
                i <= all@.len(),
                forall|k: int| 0 <= k < i ==> (#[trigger] Self::spec_all()[k]).spec_str() != s@,
            decreases all@.len() - i,
        {
            if str_eq(all[i].to_str(), s) {
                return Ok(all[i]);
            }
            i = i + 1;
        }
        let mut message = "No ChatModel variant: ".to_owned();
        message.append(s);
        Err(OairsError::new(message, ErrorType::DeserializationError, Some(s.to_owned()), None))
    }
}

impl std::str::FromStr for ChatModel {
    type Err = OairsError;

    fn from_str(s: &str) -> Result<ChatModel, OairsError> {
        ChatModel::from_name(s)
    }
}

impl RetrievableModel for ChatModel {
    open spec fn spec_id(&self) -> Seq<char> {
        self.spec_str()
    }

    fn to_str(&self) -> (r: &'static str) {
        ChatModel::to_str(self)
    }
}

/// The completion models.
#[non_exhaustive]
#[derive(Debug, Clone, Copy, PartialEq, Eq, Structural)]
pub enum CompletionModel {
    TextDavinci003,
    TextDavinci002,
    TextCurie001,
    TextBabbage001,
    TextAda001,
    Davinci,
    Curie,
    Babbage,
    Ada,
}

impl Default for CompletionModel {
    fn default() -> (r: CompletionModel)
        ensures
            r == CompletionModel::TextDavinci003,
    {
        CompletionModel::TextDavinci003
    }
}

impl CompletionModel {
    pub open spec fn spec_str(self) -> Seq<char> {
        match self {
            CompletionModel::TextDavinci003 => "text-davinci-003"@,
            CompletionModel::TextDavinci002 => "text-davinci-002"@,
            CompletionModel::TextCurie001 => "text-curie-001"@,
            CompletionModel::TextBabbage001 => "text-babbage-001"@,
            CompletionModel::TextAda001 => "text-ada-001"@,
            CompletionModel::Davinci => "davinci"@,
            CompletionModel::Curie => "curie"@,
            CompletionModel::Babbage => "babbage"@,
            CompletionModel::Ada => "ada"@,
        }
    }

    /// The identifier the service uses for the model.
    pub fn to_str(&self) -> (r: &'static str)
        ensures
            r@ == self.spec_str(),
    {
        match self {
            CompletionModel::TextDavinci003 => "text-davinci-003",
            CompletionModel::TextDavinci002 => "text-davinci-002",
            CompletionModel::TextCurie001 => "text-curie-001",
            CompletionModel::TextBabbage001 => "text-babbage-001",
            CompletionModel::TextAda001 => "text-ada-001",
            CompletionModel::Davinci => "davinci",
            CompletionModel::Curie => "curie",
            CompletionModel::Babbage => "babbage",
            CompletionModel::Ada => "ada",
        }
    }

    /// Every variant, in declaration order.
    pub open spec fn spec_all() -> Seq<CompletionModel> {
        seq![CompletionModel::TextDavinci003, CompletionModel::TextDavinci002, CompletionModel::TextCurie001, CompletionModel::TextBabbage001, CompletionModel::TextAda001, CompletionModel::Davinci, CompletionModel::Curie, CompletionModel::Babbage, CompletionModel::Ada, ]
    }

    /// Every variant, in declaration order.
    pub fn all() -> (r: Vec<CompletionModel>)
        ensures
            r@ == Self::spec_all(),
    {
        vec![CompletionModel::TextDavinci003, CompletionModel::TextDavinci002, CompletionModel::TextCurie001, CompletionModel::TextBabbage001, CompletionModel::TextAda001, CompletionModel::Davinci, CompletionModel::Curie, CompletionModel::Babbage, CompletionModel::Ada, ]
    }

    /// The model whose identifier is `s`.
    pub fn from_name(s: &str) -> (r: Result<CompletionModel, OairsError>)
        ensures
            r matches Ok(m) ==> m.spec_str() == s@,
            r is Err ==> forall|i: int| 0 <= i < Self::spec_all().len() ==> (#[trigger] Self::spec_all()[i]).spec_str() != s@,
            r matches Err(e) ==> e.error_type@ == ErrorType::DeserializationError.spec_str(),
    {
        let all = Self::all();
        let mut i: usize = 0;
        while i < all.len()
            invariant
                all@ == Self::spec_all(),
                i <= all@.len(),
                forall|k: int| 0 <= k < i ==> (#[trigger] Self::spec_all()[k]).spec_str() != s@,
            decreases all@.len() - i,
        {
            if str_eq(all[i].to_str(), s) {
                return Ok(all[i]);
            }
            i = i + 1;
        }
        let mut message = "No CompletionModel variant: ".to_owned();
        message.append(s);
        Err(OairsError::new(message, ErrorType::DeserializationError, Some(s.to_owned()), None))
    }
}

impl std::str::FromStr for CompletionModel {
    type Err = OairsError;

    fn from_str(s: &str) -> Result<CompletionModel, OairsError> {
        CompletionModel::from_name(s)
    }
}

impl RetrievableModel for CompletionModel {
    open spec fn spec_id(&self) -> Seq<char> {
        self.spec_str()
    }

    fn to_str(&self) -> (r: &'static str) {
        CompletionModel::to_str(self)
    }
}

/// The moderation models.
#[non_exhaustive]
#[derive(Debug, Clone, Copy, PartialEq, Eq, Structural)]
pub enum ModerationModel {
    TextModerationLatest,
    TextModerationStable,
}

impl Default for ModerationModel {
    fn default() -> (r: ModerationModel)
        ensures
            r == ModerationModel::TextModerationLatest,
    {
        ModerationModel::TextModerationLatest
    }
}

impl ModerationModel {
    pub open spec fn spec_str(self) -> Seq<char> {
        match self {
            ModerationModel::TextModerationLatest => "text-moderation-latest"@,
            ModerationModel::TextModerationStable => "text-moderation-stable"@,
        }
    }

    /// The identifier the service uses for the model.
    pub fn to_str(&self) -> (r: &'static str)
        ensures
            r@ == self.spec_str(),
    {
        match self {
            ModerationModel::TextModerationLatest => "text-moderation-latest",
            ModerationModel::TextModerationStable => "text-moderation-stable",
        }
    }

    /// Every variant, in declaration order.
    pub open spec fn spec_all() -> Seq<ModerationModel> {
        seq![ModerationModel::TextModerationLatest, ModerationModel::TextModerationStable, ]
    }

    /// Every variant, in declaration order.
    pub fn all() -> (r: Vec<ModerationModel>)
        ensures
            r@ == Self::spec_all(),
    {
        vec![ModerationModel::TextModerationLatest, ModerationModel::TextModerationStable, ]
    }

    /// The model whose identifier is `s`.
    pub fn from_name(s: &str) -> (r: Result<ModerationModel, OairsError>)
        ensures
            r matches Ok(m) ==> m.spec_str() == s@,
            r is Err ==> forall|i: int| 0 <= i < Self::spec_all().len() ==> (#[trigger] Self::spec_all()[i]).spec_str() != s@,
            r matches Err(e) ==> e.error_type@ == ErrorType::DeserializationError.spec_str(),
    {
        let all = Self::all();
        let mut i: usize = 0;
        while i < all.len()
            invariant
                all@ == Self::spec_all(),
                i <= all@.len(),
                forall|k: int| 0 <= k < i ==> (#[trigger] Self::spec_all()[k]).spec_str() != s@,
            decreases all@.len() - i,
        {
            if str_eq(all[i].to_str(), s) {
                return Ok(all[i]);
            }
            i = i + 1;
        }
        let mut message = "No ModerationModel variant: ".to_owned();
        message.append(s);
        Err(OairsError::new(message, ErrorType::DeserializationError, Some(s.to_owned()), None))
    }
}

impl std::str::FromStr for ModerationModel {
    type Err = OairsError;

    fn from_str(s: &str) -> Result<ModerationModel, OairsError> {
        ModerationModel::from_name(s)
    }
}

/// The embedding models.
#[non_exhaustive]
#[derive(Debug, Clone, Copy, PartialEq, Eq, Structural)]
pub enum EmbeddingModel {
    TextEmbeddingAda002,
    TextSearchAdaDoc001,
    TextDavinciEmbedding001,
    TextCurieEmbedding001,
    TextBabbageEmbedding001,
    TextAdaEmbedding001,
}

impl Default for EmbeddingModel {
    fn default() -> (r: EmbeddingModel)
        ensures
            r == EmbeddingModel::TextEmbeddingAda002,
    {
        EmbeddingModel::TextEmbeddingAda002
    }
}

impl EmbeddingModel {
    pub open spec fn spec_str(self) -> Seq<char> {
        match self {
            EmbeddingModel::TextEmbeddingAda002 => "text-embedding-ada-002"@,
            EmbeddingModel::TextSearchAdaDoc001 => "text-search-ada-doc-001"@,
            EmbeddingModel::TextDavinciEmbedding001 => "text-davinci-embedding-001"@,
            EmbeddingModel::TextCurieEmbedding001 => "text-curie-embedding-001"@,
            EmbeddingModel::TextBabbageEmbedding001 => "text-babbage-embedding-001"@,
            EmbeddingModel::TextAdaEmbedding001 => "text-ada-embedding-001"@,
        }
    }

    /// The identifier the service uses for the model.
    pub fn to_str(&self) -> (r: &'static str)
        ensures
            r@ == self.spec_str(),
    {
        match self {
            EmbeddingModel::TextEmbeddingAda002 => "text-embedding-ada-002",
            EmbeddingModel::TextSearchAdaDoc001 => "text-search-ada-doc-001",
            EmbeddingModel::TextDavinciEmbedding001 => "text-davinci-embedding-001",
            EmbeddingModel::TextCurieEmbedding001 => "text-curie-embedding-001",
            EmbeddingModel::TextBabbageEmbedding001 => "text-babbage-embedding-001",
            EmbeddingModel::TextAdaEmbedding001 => "text-ada-embedding-001",
        }
    }

    /// Every variant, in declaration order.
    pub open spec fn spec_all() -> Seq<EmbeddingModel> {
        seq![EmbeddingModel::TextEmbeddingAda002, EmbeddingModel::TextSearchAdaDoc001, EmbeddingModel::TextDavinciEmbedding001, EmbeddingModel::TextCurieEmbedding001, EmbeddingModel::TextBabbageEmbedding001, EmbeddingModel::TextAdaEmbedding001, ]
    }

    /// Every variant, in declaration order.
    pub fn all() -> (r: Vec<EmbeddingModel>)
        ensures
            r@ == Self::spec_all(),
    {
        vec![EmbeddingModel::TextEmbeddingAda002, EmbeddingModel::TextSearchAdaDoc001, EmbeddingModel::TextDavinciEmbedding001, EmbeddingModel::TextCurieEmbedding001, EmbeddingModel::TextBabbageEmbedding001, EmbeddingModel::TextAdaEmbedding001, ]
    }

    /// The model whose identifier is `s`.
    pub fn from_name(s: &str) -> (r: Result<EmbeddingModel, OairsError>)
        ensures
            r matches Ok(m) ==> m.spec_str() == s@,
            r is Err ==> forall|i: int| 0 <= i < Self::spec_all().len() ==> (#[trigger] Self::spec_all()[i]).spec_str() != s@,
            r matches Err(e) ==> e.error_type@ == ErrorType::DeserializationError.spec_str(),
    {
        let all = Self::all();
        let mut i: usize = 0;
        while i < all.len()
            invariant
                all@ == Self::spec_all(),
                i <= all@.len(),
                forall|k: int| 0 <= k < i ==> (#[trigger] Self::spec_all()[k]).spec_str() != s@,
            decreases all@.len() - i,
        {
            if str_eq(all[i].to_str(), s) {
                return Ok(all[i]);
            }
            i = i + 1;
        }
        let mut message = "No EmbeddingModel variant: ".to_owned();
        message.append(s);
        Err(OairsError::new(message, ErrorType::DeserializationError, Some(s.to_owned()), None))
    }
}

impl std::str::FromStr for EmbeddingModel {
    type Err = OairsError;

    fn from_str(s: &str) -> Result<EmbeddingModel, OairsError> {
        EmbeddingModel::from_name(s)
    }
}

impl RetrievableModel for EmbeddingModel {
    open spec fn spec_id(&self) -> Seq<char> {
        self.spec_str()
    }

    fn to_str(&self) -> (r: &'static str) {
        EmbeddingModel::to_str(self)
    }
}

/// The base models that can be fine-tuned.
#[non_exhaustive]
#[derive(Debug, Clone, Copy, PartialEq, Eq, Structural)]
pub enum FineTuneModel {
    Ada,
    Babbage,
    Curie,
    Davinci,
}

impl Default for FineTuneModel {
    fn default() -> (r: FineTuneModel)
        ensures
            r == FineTuneModel::Davinci,
    {
        FineTuneModel::Davinci
    }
}

impl FineTuneModel {
    pub open spec fn spec_str(self) -> Seq<char> {
        match self {
            FineTuneModel::Ada => "ada"@,
            FineTuneModel::Babbage => "babbage"@,
            FineTuneModel::Curie => "curie"@,
            FineTuneModel::Davinci => "davinci"@,
        }
    }

    /// The identifier the service uses for the model.
    pub fn to_str(&self) -> (r: &'static str)
        ensures
            r@ == self.spec_str(),
    {
        match self {
            FineTuneModel::Ada => "ada",
            FineTuneModel::Babbage => "babbage",
            FineTuneModel::Curie => "curie",
            FineTuneModel::Davinci => "davinci",
        }
    }

    /// Every variant, in declaration order.
    pub open spec fn spec_all() -> Seq<FineTuneModel> {
        seq![FineTuneModel::Ada, FineTuneModel::Babbage, FineTuneModel::Curie, FineTuneModel::Davinci, ]
    }

    /// Every variant, in declaration order.
    pub fn all() -> (r: Vec<FineTuneModel>)
        ensures
            r@ == Self::spec_all(),
    {
        vec![FineTuneModel::Ada, FineTuneModel::Babbage, FineTuneModel::Curie, FineTuneModel::Davinci, ]
    }

    /// The model whose identifier is `s`.
    pub fn from_name(s: &str) -> (r: Result<FineTuneModel, OairsError>)
        ensures
            r matches Ok(m) ==> m.spec_str() == s@,
            r is Err ==> forall|i: int| 0 <= i < Self::spec_all().len() ==> (#[trigger] Self::spec_all()[i]).spec_str() != s@,
            r matches Err(e) ==> e.error_type@ == ErrorType::DeserializationError.spec_str(),
    {
        let all = Self::all();
        let mut i: usize = 0;
        while i < all.len()
            invariant
                all@ == Self::spec_all(),
                i <= all@.len(),
                forall|k: int| 0 <= k < i ==> (#[trigger] Self::spec_all()[k]).spec_str() != s@,
            decreases all@.len() - i,
        {
            if str_eq(all[i].to_str(), s) {
                return Ok(all[i]);
            }
            i = i + 1;
        }
        let mut message = "No FineTuneModel variant: ".to_owned();
        message.append(s);
        Err(OairsError::new(message, ErrorType::DeserializationError, Some(s.to_owned()), None))
    }
}

impl std::str::FromStr for FineTuneModel {
    type Err = OairsError;

    fn from_str(s: &str) -> Result<FineTuneModel, OairsError> {
        FineTuneModel::from_name(s)
    }
}

impl RetrievableModel for FineTuneModel {
    open spec fn spec_id(&self) -> Seq<char> {
        self.spec_str()
    }

    fn to_str(&self) -> (r: &'static str) {
        FineTuneModel::to_str(self)
    }
}

} // verus!
