//! Image generation, edit and variation requests.
use crate::urls::{img_create_url, img_edit_url, img_variation_url, Uri};
use vstd::prelude::*;

verus! {

/// The size of generated images.
#[derive(Debug, Clone, Copy, PartialEq, Eq, Structural)]
pub enum ImageSize {
    Small,
    Medium,
    Large,
}

impl Default for ImageSize {
    fn default() -> (r: ImageSize)
        ensures
            r == ImageSize::Large,
    {
        ImageSize::Large
    }
}

impl ImageSize {
    pub open spec fn spec_str(self) -> Seq<char> {
        match self {
            ImageSize::Small => "256x256"@,
            ImageSize::Medium => "512x512"@,
            ImageSize::Large => "1024x1024"@,
        }
    }

    pub fn to_str(&self) -> (r: &'static str)
        ensures
            r@ == self.spec_str(),
    {
        match self {
            ImageSize::Small => "256x256",
            ImageSize::Medium => "512x512",
            ImageSize::Large => "1024x1024",
        }
    }
}

/// How generated images are returned.
#[derive(Debug, Clone, Copy, PartialEq, Eq, Structural)]
pub enum ResponseFormat {
    Url,
    Base64,
}

impl Default for ResponseFormat {
    fn default() -> (r: ResponseFormat)
        ensures
            r == ResponseFormat::Url,
    {
        ResponseFormat::Url
    }
}

impl ResponseFormat {
    pub open spec fn spec_str(self) -> Seq<char> {
        match self {
            ResponseFormat::Url => "url"@,
            ResponseFormat::Base64 => "b64_json"@,
        }
    }

    pub fn to_str(&self) -> (r: &'static str)
        ensures
            r@ == self.spec_str(),
    {
        match self {
            ResponseFormat::Url => "url",
            ResponseFormat::Base64 => "b64_json",
        }
    }
}

/// The options that every image request shares.
#[derive(Debug, Clone, PartialEq, Eq)]
pub struct ImageRequest {
    pub prompt: Option<String>,
    pub n: Option<usize>,
    pub size: Option<ImageSize>,
    pub response_format: Option<ResponseFormat>,
    pub user: Option<String>,
}

/// A generation request.
#[derive(Debug, Clone, PartialEq, Eq)]
pub struct ImageGen {}

/// An edit request: the image, the prompt and an optional mask.
#[derive(Debug, Clone, PartialEq, Eq)]
pub struct ImageEdit {
    pub image: String,
    pub prompt: String,
    pub mask: Option<String>,
}

/// A variation request: the image.
#[derive(Debug, Clone, PartialEq, Eq)]
pub struct ImageVariation {
    pub image: String,
}

/// An image builder with a key and no request yet.
#[derive(Debug, Clone, Copy, PartialEq, Eq, Structural)]
pub struct Keyed;

/// The kinds of image request.
pub trait BuildableImage {
}

impl BuildableImage for Keyed {
}

impl BuildableImage for ImageGen {
}

impl BuildableImage for ImageEdit {
}

impl BuildableImage for ImageVariation {
}

/// Builds an image request of kind `S`.
#[derive(Debug)]
pub struct ImageBuilder<S> {
    key: String,
    url: String,
    state: ImageRequest,
    state_data: S,
}

fn empty_request(prompt: Option<String>) -> (r: ImageRequest)
    ensures
        r.prompt == prompt,
        r.n is None && r.size is None && r.response_format is None && r.user is None,
{
    ImageRequest { prompt, n: None, size: None, response_format: None, user: None }
}

impl<S> ImageBuilder<S> {
    pub closed spec fn spec_key(&self) -> String {
        self.key
    }

    pub closed spec fn spec_url(&self) -> Seq<char> {
        self.url@
    }

    pub closed spec fn spec_request(&self) -> ImageRequest {
        self.state
    }

    pub closed spec fn spec_prompt(&self) -> Option<String> {
        self.state.prompt
    }

    pub closed spec fn spec_data(&self) -> S {
        self.state_data
    }

    /// How many images to make, from 1 to 10.
    pub fn n(&mut self, n: usize) -> (r: &mut Self)
        requires
            1 <= n <= 10,
        ensures
            r.spec_request() == (ImageRequest { n: Some(n), ..old(self).spec_request() }),
            r.spec_url() == old(self).spec_url(),
    {
        self.state.n = Some(n);
        self
    }

    pub fn size(&mut self, size: ImageSize) -> (r: &mut Self)
        ensures
            r.spec_request() == (ImageRequest { size: Some(size), ..old(self).spec_request() }),
            r.spec_url() == old(self).spec_url(),
    {
        self.state.size = Some(size);
        self
    }

    pub fn response_format(&mut self, format: ResponseFormat) -> (r: &mut Self)
        ensures
            r.spec_request() == (ImageRequest { response_format: Some(format), ..old(self).spec_request() }),
            r.spec_url() == old(self).spec_url(),
    {
        self.state.response_format = Some(format);
        self
    }

    pub fn user(&mut self, user: String) -> (r: &mut Self)
        ensures
            r.spec_request() == (ImageRequest { user: Some(user), ..old(self).spec_request() }),
            r.spec_url() == old(self).spec_url(),
    {
        self.state.user = Some(user);
        self
    }

    /// The authorization header value.
    pub fn key(&self) -> (r: &str)
        ensures
            r@ == self.spec_key()@,
    {
        self.key.as_str()
    }

    /// The URL of the request.
    pub fn url(&self) -> (r: &str)
        ensures
            r@ == self.spec_url(),
    {
        self.url.as_str()
    }

    /// The shared options of the request.
    pub fn request(&self) -> (r: &ImageRequest)
        ensures
            *r == self.spec_request(),
    {
        &self.state
    }

    /// What the kind of request adds.
    pub fn data(&self) -> (r: &S)
        ensures
            *r == self.spec_data(),
    {
        &self.state_data
    }
}

impl ImageBuilder<Keyed> {
    /// A request to generate images from `prompt`.
    pub fn create_image(key: &str, prompt: String) -> (r: ImageBuilder<ImageGen>)
        ensures
            r.spec_key()@ == key@,
            r.spec_url() == Uri::Images.spec_url() + "/generations"@,
            r.spec_prompt() == Some(prompt),
    {
        ImageBuilder { key: key.to_owned(), url: img_create_url(), state: empty_request(Some(prompt)), state_data: ImageGen {} }
    }

    /// A request to edit the image at `image` following `prompt`.
    pub fn create_edit(key: &str, image: String, prompt: String) -> (r: ImageBuilder<ImageEdit>)
        ensures
            r.spec_key()@ == key@,
            r.spec_url() == Uri::Images.spec_url() + "/edits"@,
            r.spec_data() == (ImageEdit { image, prompt, mask: None }),
    {
        ImageBuilder {
            key: key.to_owned(),
            url: img_edit_url(),
            state: empty_request(None),
            state_data: ImageEdit { image, prompt, mask: None },
        }
    }

    /// A request for variations of the image at `image`.
    pub fn create_variation(key: &str, image: String) -> (r: ImageBuilder<ImageVariation>)
        ensures
            r.spec_key()@ == key@,
            r.spec_url() == Uri::Images.spec_url() + "/variations"@,
            r.spec_data() == (ImageVariation { image }),
    {
        ImageBuilder {
            key: key.to_owned(),
            url: img_variation_url(),
            state: empty_request(None),
            state_data: ImageVariation { image },
        }
    }
}

} // verus!
