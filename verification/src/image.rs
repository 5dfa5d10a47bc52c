//! Generating images.

use vstd::prelude::*;
use crate::openai::error::OpenAIError;
use crate::text::{decimal, decimal_of, to_string};

verus! {

/// The size of a generated picture.
#[derive(Clone, Copy, Debug, PartialEq, Eq, PartialOrd, Ord, Structural)]
#[allow(non_camel_case_types)]
pub enum PictureSize {
    x256,
    x512,
    x1024,
}

impl Default for PictureSize {
    fn default() -> (r: PictureSize)
        ensures
            r == PictureSize::x512,
    {
        PictureSize::x512
    }
}

/// The form in which a picture is returned.
#[derive(Clone, Copy, Debug, PartialEq, Eq, PartialOrd, Ord, Structural)]
pub enum PictureFormat {
    Url,
    Binary,
}

impl Default for PictureFormat {
    fn default() -> (r: PictureFormat)
        ensures
            r == PictureFormat::Url,
    {
        PictureFormat::Url
    }
}

/// A request for pictures.
#[derive(Clone, Debug, PartialEq, Eq)]
pub struct ImageCommand {
    /// What the picture shows.
    pub prompt: String,
    /// The number of pictures.
    pub count: usize,
    pub size: PictureSize,
    pub format: PictureFormat,
    /// The directory that the pictures are written to.
    pub out: Option<String>,
}

impl Default for ImageCommand {
    fn default() -> (r: ImageCommand)
        ensures
            r.prompt@ == Seq::<char>::empty(),
            r.count == 1,
            r.size == PictureSize::x512,
            r.format == PictureFormat::Url,
            r.out is None,
    {
        ImageCommand {
            prompt: String::new(),
            count: 1,
            size: PictureSize::x512,
            format: PictureFormat::Url,
            out: None,
        }
    }
}

/// Why no picture was generated.
#[derive(Clone, Debug, PartialEq, Eq)]
pub enum ImageError {
    OpenAIError(OpenAIError),
    DeserializeError(String),
    Unauthorized,
}

/// The pictures of a request.
pub type ImageResult = Result<Vec<ImageData>, ImageError>;

/// The body of a response with pictures.
#[derive(Clone, Debug, PartialEq, Eq)]
pub struct OpenAIImageResponse {
    pub created: usize,
    pub data: Vec<ImageData>,
}

/// One picture: where it can be fetched, or what it holds.
#[derive(Clone, Debug, PartialEq, Eq)]
pub enum ImageData {
    Url(ImageUrl),
    Binary(ImageBinary),
}

#[derive(Clone, Debug, PartialEq, Eq)]
pub struct ImageUrl {
    pub url: String,
}

/// A picture in base 64.
#[derive(Clone, Debug, PartialEq, Eq)]
pub struct ImageBinary {
    pub b64_json: String,
}

impl PictureSize {
    /// The size as the provider writes it.
    pub open spec fn dimensions(self) -> Seq<char> {
        match self {
            PictureSize::x256 => "256x256"@,
            PictureSize::x512 => "512x512"@,
            PictureSize::x1024 => "1024x1024"@,
        }
    }

    /// The size as the provider writes it.
    pub fn to_string(&self) -> (r: &'static str)
        ensures
            r@ == self.dimensions(),
    {
        match self {
            PictureSize::x256 => "256x256",
            PictureSize::x512 => "512x512",
            PictureSize::x1024 => "1024x1024",
        }
    }
}

impl ImageCommand {
    /// The form to ask the provider for: pictures that are written to a
    /// directory are always asked for in base 64.
    pub fn response_format(&self) -> (r: &'static str)
        ensures
            r@ == if self.out is None && self.format == PictureFormat::Url {
                "url"@
            } else {
                "b64_json"@
            },
    {
        match &self.out {
            Some(_) => "b64_json",
            None => match self.format {
                PictureFormat::Url => "url",
                PictureFormat::Binary => "b64_json",
            },
        }
    }

    /// Whether the pictures of a response are shown as they came: only
    /// where they are not written to a directory and were asked for by
    /// their address.
    pub fn shows_result(&self) -> (r: bool)
        ensures
            r == (self.out is None && self.format == PictureFormat::Url),
    {
        match (&self.out, self.format) {
            (None, PictureFormat::Url) => true,
            _ => false,
        }
    }
}

/// The name of the file that picture `index` of a response is written to.
pub open spec fn picture_file(index: nat) -> Seq<char> {
    decimal(index) + seq!['.', 'p', 'n', 'g']
}

/// The name of the file for picture `index`.
pub fn picture_file_name(index: usize) -> (r: String)
    ensures
        r@ == picture_file(index as nat),
{
    let mut name = decimal_of(index);
    name.push('.');
    name.push('p');
    name.push('n');
    name.push('g');
    assert(name@ =~= picture_file(index as nat));
    to_string(&name)
}

/// `rustc_serialize::base64::FromBase64Error`, why a text is not base 64.
#[verifier::external_type_specification]
#[verifier::external_body]
pub struct ExFromBase64Error(rustc_serialize::base64::FromBase64Error);

/// The bytes that a text in base 64 stands for, where it is well formed.
pub uninterp spec fn base64_bytes(text: Seq<char>) -> Option<Seq<u8>>;

/// Decodes a text in base 64.
///
/// Stands for `rustc_serialize::base64::FromBase64::from_base64` on a
/// string. Claimed: the outcome depends on the text alone.
#[verifier::external_body]
pub(crate) fn from_base64(text: &str) -> (r: Result<
    Vec<u8>,
    rustc_serialize::base64::FromBase64Error,
>)
    ensures
        match r {
            Ok(bytes) => base64_bytes(text@) == Some(bytes@),
            Err(_) => base64_bytes(text@) is None,
        },
{
    rustc_serialize::base64::FromBase64::from_base64(text)
}

impl ImageData {
    /// What the picture holds, for a picture that came in base 64 and is
    /// well formed.
    pub fn bytes(&self) -> (r: Option<Vec<u8>>)
        ensures
            match r {
                Some(b) => self matches ImageData::Binary(data) && base64_bytes(data.b64_json@)
                    == Some(b@),
                None => !(self matches ImageData::Binary(data) && base64_bytes(data.b64_json@)
                    is Some),
            },
    {
        match self {
            ImageData::Url(_) => None,
            ImageData::Binary(data) => match from_base64(data.b64_json.as_str()) {
                Ok(bytes) => Some(bytes),
                Err(_) => None,
            },
        }
    }
}

} // verus!
