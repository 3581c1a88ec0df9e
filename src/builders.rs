//! Request builders for embeddings, moderations and fine-tune events.
use crate::model_enums::{EmbeddingModel, ModerationModel};
use crate::urls::{list_ft_events_url, Uri};
use crate::client::{Buildable, Sendable};
use std::marker::PhantomData;
use vstd::prelude::*;

verus! {

/// Builds a request for embeddings of some inputs.
#[derive(Debug)]
pub struct EmbeddingBuilder<State> {
    key: String,
    url: &'static str,
    model: EmbeddingModel,
    input: Vec<String>,
    user: Option<String>,
    state: PhantomData<State>,
}

impl EmbeddingBuilder<Sendable> {
    pub fn new(key: &str, model: EmbeddingModel, inputs: &[String]) -> (r: EmbeddingBuilder<Sendable>)
        ensures
            r.spec_key()@ == key@,
            r.spec_url()@ == Uri::Embeddings.spec_url(),
            r.spec_model() == model,
            r.spec_input()@.len() == inputs@.len(),
            forall|i: int| 0 <= i < inputs@.len() ==> (#[trigger] r.spec_input()@[i])@ == inputs@[i]@,
            r.spec_user() is None,
    {
        let mut input: Vec<String> = Vec::new();
        let mut i: usize = 0;
        while i < inputs.len()
            invariant
                i <= inputs@.len(),
                input@.len() == i,
                forall|k: int| 0 <= k < i ==> (#[trigger] input@[k])@ == inputs@[k]@,
            decreases inputs@.len() - i,
        {
            input.push(inputs[i].clone());
            i = i + 1;
        }
        EmbeddingBuilder {
            key: key.to_owned(),
            url: Uri::Embeddings.get(),
            model,
            input,
            user: None,
            state: PhantomData,
        }
    }

    /// Sets the user the request is made for.
    pub fn user(&mut self, user: String) -> (r: &mut Self)
        ensures
            r.spec_user() == Some(user),
            r.spec_input() == old(self).spec_input(),
            r.spec_model() == old(self).spec_model(),
    {
        self.user = Some(user);
        self
    }
}

impl<State> EmbeddingBuilder<State> {
    pub closed spec fn spec_key(&self) -> String {
        self.key
    }

    pub closed spec fn spec_url(&self) -> &'static str {
        self.url
    }

    pub closed spec fn spec_model(&self) -> EmbeddingModel {
        self.model
    }

    pub closed spec fn spec_input(&self) -> Vec<String> {
        self.input
    }

    pub closed spec fn spec_user(&self) -> Option<String> {
        self.user
    }
}

/// Builds a moderation request.
#[derive(Debug)]
pub struct ModerationBuilder<State> {
    key: String,
    url: &'static str,
    model: ModerationModel,
    input: Vec<String>,
    state: PhantomData<State>,
}

impl ModerationBuilder<Buildable> {
    /// A moderation request for `inputs`, with the default model.
    pub fn create(key: &str, inputs: Vec<String>) -> (r: ModerationBuilder<Sendable>)
        ensures
            r.spec_key()@ == key@,
            r.spec_url()@ == Uri::Moderations.spec_url(),
            r.spec_model() == ModerationModel::TextModerationLatest,
            r.spec_input() == inputs,
    {
        ModerationBuilder {
            key: key.to_owned(),
            url: Uri::Moderations.get(),
            model: ModerationModel::TextModerationLatest,
            input: inputs,
            state: PhantomData,
        }
    }
}

impl ModerationBuilder<Sendable> {
    /// Sets the model.
    pub fn model(&mut self, model: ModerationModel) -> (r: &mut Self)
        ensures
            r.spec_model() == model,
            r.spec_input() == old(self).spec_input(),
            r.spec_key() == old(self).spec_key(),
    {
        self.model = model;
        self
    }
}

impl<State> ModerationBuilder<State> {
    pub closed spec fn spec_key(&self) -> String {
        self.key
    }

    pub closed spec fn spec_url(&self) -> &'static str {
        self.url
    }

    pub closed spec fn spec_model(&self) -> ModerationModel {
        self.model
    }

    pub closed spec fn spec_input(&self) -> Vec<String> {
        self.input
    }
}

/// Builds a request for the events of a fine-tune job.
#[derive(Debug)]
pub struct ListEventsBuilder<State> {
    key: String,
    url: String,
    stream: bool,
    state: PhantomData<State>,
}

impl ListEventsBuilder<Buildable> {
    /// A request for the events of fine-tune job `ft_id`, not streamed.
    pub fn new(key: &str, ft_id: &str) -> (r: ListEventsBuilder<Sendable>)
        ensures
            r.spec_key()@ == key@,
            r.spec_url()@ == Uri::FineTunes.spec_url() + "/"@ + ft_id@ + "/events"@,
            !r.spec_stream(),
    {
        ListEventsBuilder { key: key.to_owned(), url: list_ft_events_url(ft_id), stream: false, state: PhantomData }
    }
}

impl ListEventsBuilder<Sendable> {
    /// Whether the events are streamed.
    pub fn stream(&mut self, stream: bool) -> (r: &mut Self)
        ensures
            r.spec_stream() == stream,
            r.spec_url() == old(self).spec_url(),
            r.spec_key() == old(self).spec_key(),
    {
        self.stream = stream;
        self
    }
}

impl<State> ListEventsBuilder<State> {
    pub closed spec fn spec_key(&self) -> String {
        self.key
    }

    pub closed spec fn spec_url(&self) -> String {
        self.url
    }

    pub closed spec fn spec_stream(&self) -> bool {
        self.stream
    }
}

} // verus!
