//! The endpoints of the service and the URLs built from them.
use vstd::prelude::*;
use vstd::string::StringExecFns;

verus! {

/// The endpoint groups of the service.
#[non_exhaustive]
#[derive(Debug, Clone, Copy, PartialEq, Eq, Hash, Structural)]
pub enum Uri {
    Audio,
    ChatCompletion,
    Completions,
    Edits,
    Embeddings,
    Files,
    FineTunes,
    Images,
    Models,
    Moderations,
}

impl Uri {
    pub open spec fn spec_url(self) -> Seq<char> {
        match self {
            Uri::Audio => "https://api.openai.com/v1/audio"@,
            Uri::ChatCompletion => "https://api.openai.com/v1/chat/completions"@,
            Uri::Completions => "https://api.openai.com/v1/completions"@,
            Uri::Edits => "https://api.openai.com/v1/edits"@,
            Uri::Embeddings => "https://api.openai.com/v1/embeddings"@,
            Uri::Files => "https://api.openai.com/v1/files"@,
            Uri::FineTunes => "https://api.openai.com/v1/fine-tunes"@,
            Uri::Images => "https://api.openai.com/v1/images"@,
            Uri::Models => "https://api.openai.com/v1/models"@,
            Uri::Moderations => "https://api.openai.com/v1/moderations"@,
        }
    }

    /// The base URL of the endpoint group.
    pub fn get(&self) -> (r: &'static str)
        ensures
            r@ == self.spec_url(),
    {
        match self {
            Uri::Audio => "https://api.openai.com/v1/audio",
            Uri::ChatCompletion => "https://api.openai.com/v1/chat/completions",
            Uri::Completions => "https://api.openai.com/v1/completions",
            Uri::Edits => "https://api.openai.com/v1/edits",
            Uri::Embeddings => "https://api.openai.com/v1/embeddings",
            Uri::Files => "https://api.openai.com/v1/files",
            Uri::FineTunes => "https://api.openai.com/v1/fine-tunes",
            Uri::Images => "https://api.openai.com/v1/images",
            Uri::Models => "https://api.openai.com/v1/models",
            Uri::Moderations => "https://api.openai.com/v1/moderations",
        }
    }
}

/// `base`, a slash and `id`.
fn join(base: &str, id: &str) -> (r: String)
    ensures
        r@ == base@ + "/"@ + id@,
{
    let mut s = base.to_owned();
    s.append("/");
    s.append(id);
    s
}

/// `base` followed by `suffix`.
fn with_suffix(base: String, suffix: &str) -> (r: String)
    ensures
        r@ == base@ + suffix@,
{
    let mut s = base;
    s.append(suffix);
    s
}

/// `.../fine-tunes/{ft_id}/cancel`
pub fn cancel_ft_url(ft_id: &str) -> (r: String)
    ensures
        r@ == Uri::FineTunes.spec_url() + "/"@ + ft_id@ + "/cancel"@,
{
    with_suffix(join(create_ft_url(), ft_id), "/cancel")
}

pub fn chat_completion_url() -> (r: &'static str)
    ensures
        r@ == Uri::ChatCompletion.spec_url(),
{
    Uri::ChatCompletion.get()
}

pub fn completion_url() -> (r: &'static str)
    ensures
        r@ == Uri::Completions.spec_url(),
{
    Uri::Completions.get()
}

pub fn create_ft_url() -> (r: &'static str)
    ensures
        r@ == Uri::FineTunes.spec_url(),
{
    Uri::FineTunes.get()
}

/// `.../files/{file_id}`
pub fn delete_file_url(file_id: &str) -> (r: String)
    ensures
        r@ == Uri::Files.spec_url() + "/"@ + file_id@,
{
    retrieve_file_url(file_id)
}

/// `.../models/{model}`
pub fn delete_ft_model_url(model: &str) -> (r: String)
    ensures
        r@ == Uri::Models.spec_url() + "/"@ + model@,
{
    join(Uri::Models.get(), model)
}

/// `.../images/generations`
pub fn img_create_url() -> (r: String)
    ensures
        r@ == Uri::Images.spec_url() + "/generations"@,
{
    with_suffix(Uri::Images.get().to_owned(), "/generations")
}

/// `.../images/edits`
pub fn img_edit_url() -> (r: String)
    ensures
        r@ == Uri::Images.spec_url() + "/edits"@,
{
    with_suffix(Uri::Images.get().to_owned(), "/edits")
}

/// `.../images/variations`
pub fn img_variation_url() -> (r: String)
    ensures
        r@ == Uri::Images.spec_url() + "/variations"@,
{
    with_suffix(Uri::Images.get().to_owned(), "/variations")
}

pub fn list_files_url() -> (r: &'static str)
    ensures
        r@ == Uri::Files.spec_url(),
{
    Uri::Files.get()
}

pub fn list_fine_tunes_url() -> (r: &'static str)
    ensures
        r@ == Uri::FineTunes.spec_url(),
{
    Uri::FineTunes.get()
}

pub fn list_models_url() -> (r: &'static str)
    ensures
        r@ == Uri::Models.spec_url(),
{
    Uri::Models.get()
}

/// `.../fine-tunes/{ft_id}/events`
pub fn list_ft_events_url(ft_id: &str) -> (r: String)
    ensures
        r@ == Uri::FineTunes.spec_url() + "/"@ + ft_id@ + "/events"@,
{
    with_suffix(join(create_ft_url(), ft_id), "/events")
}

/// `.../files/{file_id}`
pub fn retrieve_file_url(file_id: &str) -> (r: String)
    ensures
        r@ == Uri::Files.spec_url() + "/"@ + file_id@,
{
    join(Uri::Files.get(), file_id)
}

/// `.../files/{file_id}/content`
pub fn retrieve_file_content_url(file_id: &str) -> (r: String)
    ensures
        r@ == Uri::Files.spec_url() + "/"@ + file_id@ + "/content"@,
{
    with_suffix(retrieve_file_url(file_id), "/content")
}

/// `.../fine-tunes/{ft_id}`
pub fn retrieve_ft_info_url(ft_id: &str) -> (r: String)
    ensures
        r@ == Uri::FineTunes.spec_url() + "/"@ + ft_id@,
{
    join(create_ft_url(), ft_id)
}

/// `.../models/{model}`
pub fn retrieve_model_url(model: &str) -> (r: String)
    ensures
        r@ == Uri::Models.spec_url() + "/"@ + model@,
{
    join(Uri::Models.get(), model)
}

pub fn upload_file_url() -> (r: &'static str)
    ensures
        r@ == Uri::Files.spec_url(),
{
    Uri::Files.get()
}

} // verus!
