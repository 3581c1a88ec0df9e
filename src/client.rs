//! The client: the entry point for the endpoints of the service.
use crate::builders::{EmbeddingBuilder, ListEventsBuilder, ModerationBuilder};
use crate::files::Purpose;
use crate::images::{ImageBuilder, ImageEdit, ImageGen, ImageVariation};
use crate::model_enums::{EmbeddingModel, ModerationModel, RetrievableModel};
use crate::urls::{
    cancel_ft_url, delete_file_url, delete_ft_model_url, list_files_url, list_fine_tunes_url,
    list_models_url, retrieve_file_content_url, retrieve_file_url, retrieve_ft_info_url,
    retrieve_model_url, upload_file_url, Uri,
};
use std::marker::PhantomData;
use vstd::prelude::*;
use vstd::string::StringExecFns;

verus! {

/// A client without a key.
#[derive(Debug, Clone, Copy, PartialEq, Eq, Structural)]
pub struct Unkeyed;

/// A client or builder with a key.
#[derive(Debug, Clone, Copy, PartialEq, Eq, Structural)]
pub struct Keyed;

/// A request sent with `GET`.
#[derive(Debug, Clone, Copy, PartialEq, Eq, Structural)]
pub struct Gettable;

/// A request ready to be sent.
#[derive(Debug, Clone, Copy, PartialEq, Eq, Structural)]
pub struct Sendable;

/// A builder that still needs its required parameters.
#[derive(Debug, Clone, Copy, PartialEq, Eq, Structural)]
pub struct Buildable;

/// A cancellation request.
#[derive(Debug, Clone, Copy, PartialEq, Eq, Structural)]
pub struct Cancel;

/// A deletion request, of a file or of a fine-tuned model.
#[derive(Debug, Clone, Copy, PartialEq, Eq, Structural)]
pub struct Delete;

/// The entry point for the endpoints of the service. Endpoints without a
/// body give a client for one request; endpoints with a body give a builder.
#[derive(Debug)]
pub struct Client<State = Unkeyed> {
    key: String,
    url: Option<String>,
    upload_filename: Option<String>,
    file_purpose: Option<Purpose>,
    state: PhantomData<State>,
}

impl<State> Client<State> {
    /// The authorization header value.
    pub closed spec fn spec_key(&self) -> Seq<char> {
        self.key@
    }

    /// The URL of the request, once there is one.
    pub closed spec fn spec_url(&self) -> Option<Seq<char>> {
        match self.url {
            Some(u) => Some(u@),
            None => None,
        }
    }

    /// The file to upload, for an upload request.
    pub closed spec fn spec_upload_file(&self) -> Option<Seq<char>> {
        match self.upload_filename {
            Some(f) => Some(f@),
            None => None,
        }
    }

    /// The purpose of the file to upload, for an upload request.
    pub closed spec fn spec_purpose(&self) -> Option<Purpose> {
        self.file_purpose
    }

    /// The authorization header value.
    pub fn key(&self) -> (r: &str)
        ensures
            r@ == self.spec_key(),
    {
        self.key.as_str()
    }

    /// The URL of the request, once there is one.
    pub fn url(&self) -> (r: Option<&str>)
        ensures
            r matches Some(u) ==> self.spec_url() == Some(u@),
            r is None ==> self.spec_url() is None,
    {
        match &self.url {
            Some(u) => Some(u.as_str()),
            None => None,
        }
    }

    /// The file to upload and its purpose, for an upload request.
    pub fn upload(&self) -> (r: Option<(&str, Purpose)>)
        ensures
            r matches Some(u) ==> self.spec_upload_file() == Some(u.0@) && self.spec_purpose() == Some(u.1),
            r is None ==> self.spec_upload_file() is None || self.spec_purpose() is None,
    {
        match (&self.upload_filename, self.file_purpose) {
            (Some(f), Some(p)) => Some((f.as_str(), p)),
            _ => None,
        }
    }
}

/// A client for one request to `url` with the key of `key`.
fn request<State>(key: String, url: String) -> (r: Client<State>)
    ensures
        r.spec_key() == key@,
        r.spec_url() == Some(url@),
        r.spec_upload_file() is None,
        r.spec_purpose() is None,
{
    Client { key, url: Some(url), upload_filename: None, file_purpose: None, state: PhantomData }
}

impl Client<Unkeyed> {
    /// A client that authorizes its requests with the API key `key`.
    pub fn new(key: &str) -> (r: Client<Keyed>)
        ensures
            r.spec_key() == "Bearer "@ + key@,
            r.spec_url() is None,
            r.spec_upload_file() is None,
        r.spec_purpose() is None,
    {
        let mut bearer = "Bearer ".to_owned();
        bearer.append(key);
        Client { key: bearer, url: None, upload_filename: None, file_purpose: None, state: PhantomData }
    }
}

impl Client<Keyed> {
    /// Cancels a fine-tune job at once.
    pub fn cancel_fine_tune(self, fine_tune_id: &str) -> (r: Client<Cancel>)
        ensures
            r.spec_key() == self.spec_key(),
            r.spec_url() == Some(Uri::FineTunes.spec_url() + "/"@ + fine_tune_id@ + "/cancel"@),
            r.spec_upload_file() is None,
            r.spec_purpose() is None,
    {
        request(self.key, cancel_ft_url(fine_tune_id))
    }

    /// Embeddings of `inputs` by `model`.
    pub fn create_embeddings(&self, model: EmbeddingModel, inputs: &[String]) -> (r: EmbeddingBuilder<Sendable>)
        ensures
            r.spec_key()@ == self.spec_key(),
            r.spec_model() == model,
            r.spec_input()@.len() == inputs@.len(),
    {
        EmbeddingBuilder::new(self.key.as_str(), model, inputs)
    }

    /// Moderation of one input.
    pub fn create_moderation(&self, input: String) -> (r: ModerationBuilder<Sendable>)
        ensures
            r.spec_key()@ == self.spec_key(),
            r.spec_url()@ == Uri::Moderations.spec_url(),
            r.spec_model() == ModerationModel::TextModerationLatest,
            r.spec_input()@ == seq![input],
    {
        ModerationBuilder::create(self.key.as_str(), vec![input])
    }

    /// Moderation of several inputs.
    pub fn create_moderations(&self, inputs: Vec<String>) -> (r: ModerationBuilder<Sendable>)
        ensures
            r.spec_key()@ == self.spec_key(),
            r.spec_url()@ == Uri::Moderations.spec_url(),
            r.spec_model() == ModerationModel::TextModerationLatest,
            r.spec_input() == inputs,
    {
        ModerationBuilder::create(self.key.as_str(), inputs)
    }

    /// Images generated from a prompt.
    pub fn create_image(&self, prompt: String) -> (r: ImageBuilder<ImageGen>)
        ensures
            r.spec_key()@ == self.spec_key(),
            r.spec_prompt() == Some(prompt),
    {
        ImageBuilder::create_image(self.key.as_str(), prompt)
    }

    /// An edit of the image at `image_path`, following `prompt`.
    pub fn create_image_edit(&self, image_path: String, prompt: String) -> (r: ImageBuilder<ImageEdit>)
        ensures
            r.spec_key()@ == self.spec_key(),
    {
        ImageBuilder::create_edit(self.key.as_str(), image_path, prompt)
    }

    /// Variations of the image at `image_path`.
    pub fn create_image_variation(&self, image_path: String) -> (r: ImageBuilder<ImageVariation>)
        ensures
            r.spec_key()@ == self.spec_key(),
    {
        ImageBuilder::create_variation(self.key.as_str(), image_path)
    }

    /// Deletes a file.
    pub fn delete_file(self, file_id: &str) -> (r: Client<Delete>)
        ensures
            r.spec_key() == self.spec_key(),
            r.spec_url() == Some(Uri::Files.spec_url() + "/"@ + file_id@),
            r.spec_upload_file() is None,
            r.spec_purpose() is None,
    {
        request(self.key, delete_file_url(file_id))
    }

    /// Deletes a fine-tuned model.
    pub fn delete_fine_tune_model(self, model: &str) -> (r: Client<Delete>)
        ensures
            r.spec_key() == self.spec_key(),
            r.spec_url() == Some(Uri::Models.spec_url() + "/"@ + model@),
            r.spec_upload_file() is None,
            r.spec_purpose() is None,
    {
        request(self.key, delete_ft_model_url(model))
    }

    /// Lists the files of the account.
    pub fn list_files(&self) -> (r: Client<Gettable>)
        ensures
            r.spec_key() == self.spec_key(),
            r.spec_url() == Some(Uri::Files.spec_url()),
            r.spec_upload_file() is None,
            r.spec_purpose() is None,
    {
        request(self.key.clone(), list_files_url().to_owned())
    }

    /// Lists the fine-tune jobs of the account.
    pub fn list_fine_tunes(&self) -> (r: Client<Gettable>)
        ensures
            r.spec_key() == self.spec_key(),
            r.spec_url() == Some(Uri::FineTunes.spec_url()),
            r.spec_upload_file() is None,
            r.spec_purpose() is None,
    {
        request(self.key.clone(), list_fine_tunes_url().to_owned())
    }

    /// Lists the events of a fine-tune job.
    pub fn list_fine_tune_events(&self, fine_tune_id: &str) -> (r: ListEventsBuilder<Sendable>)
        ensures
            r.spec_key()@ == self.spec_key(),
            r.spec_url()@ == Uri::FineTunes.spec_url() + "/"@ + fine_tune_id@ + "/events"@,
    {
        ListEventsBuilder::new(self.key.as_str(), fine_tune_id)
    }

    /// Lists the models.
    pub fn list_models(&self) -> (r: Client<Gettable>)
        ensures
            r.spec_key() == self.spec_key(),
            r.spec_url() == Some(Uri::Models.spec_url()),
            r.spec_upload_file() is None,
            r.spec_purpose() is None,
    {
        request(self.key.clone(), list_models_url().to_owned())
    }

    /// Retrieves what is known of a file.
    pub fn retrieve_file(&self, file_id: &str) -> (r: Client<Gettable>)
        ensures
            r.spec_key() == self.spec_key(),
            r.spec_url() == Some(Uri::Files.spec_url() + "/"@ + file_id@),
            r.spec_upload_file() is None,
            r.spec_purpose() is None,
    {
        request(self.key.clone(), retrieve_file_url(file_id))
    }

    /// Retrieves the content of a file.
    pub fn retrieve_file_content(&self, file_id: &str) -> (r: Client<Gettable>)
        ensures
            r.spec_key() == self.spec_key(),
            r.spec_url() == Some(Uri::Files.spec_url() + "/"@ + file_id@ + "/content"@),
            r.spec_upload_file() is None,
            r.spec_purpose() is None,
    {
        request(self.key.clone(), retrieve_file_content_url(file_id))
    }

    /// Retrieves what is known of a fine-tune job.
    pub fn retrieve_fine_tune_info(&self, fine_tune_id: &str) -> (r: Client<Gettable>)
        ensures
            r.spec_key() == self.spec_key(),
            r.spec_url() == Some(Uri::FineTunes.spec_url() + "/"@ + fine_tune_id@),
            r.spec_upload_file() is None,
            r.spec_purpose() is None,
    {
        request(self.key.clone(), retrieve_ft_info_url(fine_tune_id))
    }

    /// Retrieves what is known of a model.
    pub fn retrieve_model<R: RetrievableModel>(&self, model: &R) -> (r: Client<Gettable>)
        ensures
            r.spec_key() == self.spec_key(),
            r.spec_url() == Some(Uri::Models.spec_url() + "/"@ + model.spec_id()),
            r.spec_upload_file() is None,
            r.spec_purpose() is None,
    {
        request(self.key.clone(), retrieve_model_url(model.to_str()))
    }

    /// Uploads a file for a purpose.
    pub fn upload_file(&self, file: String, purpose: Purpose) -> (r: Client<Sendable>)
        ensures
            r.spec_key() == self.spec_key(),
            r.spec_url() == Some(Uri::Files.spec_url()),
            r.spec_upload_file() == Some(file@),
            r.spec_purpose() == Some(purpose),
    {
        Client {
            key: self.key.clone(),
            url: Some(upload_file_url().to_owned()),
            upload_filename: Some(file),
            file_purpose: Some(purpose),
            state: PhantomData,
        }
    }
}

} // verus!
