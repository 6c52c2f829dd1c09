//! Probing one file: decoding it and classifying what came out.

use image::GenericImageView;
use vstd::prelude::*;

use crate::orientation::{orientation_of, Dimensions};

verus! {

/// Why a file gave no dimensions.
#[derive(Clone, Debug, PartialEq, Eq)]
pub struct DecodeError {
    /// Path of the file.
    pub path: String,
    /// What the decoder, or the attempt to read the file, reported.
    pub message: String,
}

/// A [`DecodeError`] as a mathematical value.
pub struct DecodeErrorView {
    pub path: Seq<char>,
    pub message: Seq<char>,
}

impl View for DecodeError {
    type V = DecodeErrorView;

    open spec fn view(&self) -> DecodeErrorView {
        DecodeErrorView { path: self.path@, message: self.message@ }
    }
}

/// The sentence that reports a failed file.
pub open spec fn failure_text(path: Seq<char>, message: Seq<char>) -> Seq<char> {
    "Error processing image "@ + path + ": "@ + message
}

impl DecodeError {
    /// The error as a sentence that names the file.
    pub fn describe(&self) -> (text: String)
        ensures
            text@ == failure_text(self@.path, self@.message),
    {
        let mut text = String::from_str("Error processing image ");
        text.append(self.path.as_str());
        text.append(": ");
        text.append(self.message.as_str());
        text
    }
}

/// What decoding `bytes` as a JPEG image gives: the width and height of the
/// image, or the decoder's message where the bytes are no such image.
pub uninterp spec fn jpeg_decoding(bytes: Seq<u8>) -> Result<(u32, u32), Seq<char>>;

/// A decoder's answer as a mathematical value.
pub open spec fn decoded_view(decoded: Result<(u32, u32), String>) -> Result<
    (u32, u32),
    Seq<char>,
> {
    match decoded {
        Ok(size) => Ok(size),
        Err(message) => Err(message@),
    }
}

/// The result of a probe as a mathematical value.
pub open spec fn probe_view(probed: Result<Dimensions, DecodeError>) -> Result<
    Dimensions,
    DecodeErrorView,
> {
    match probed {
        Ok(dimensions) => Ok(dimensions),
        Err(error) => Err(error@),
    }
}

/// What a probe of the file at `path` comes to, given the decoder's answer.
pub open spec fn probe_result(path: Seq<char>, decoded: Result<(u32, u32), Seq<char>>) -> Result<
    Dimensions,
    DecodeErrorView,
> {
    match decoded {
        Ok(size) => Ok(
            Dimensions {
                width: size.0,
                height: size.1,
                orientation: orientation_of(size.0 as int, size.1 as int),
            },
        ),
        Err(message) => Err(DecodeErrorView { path, message }),
    }
}

/// Decodes a JPEG image held in memory with
/// `image::load_from_memory_with_format` and hands back its width and height,
/// or the text of the decoder's error.
///
/// Trusted: that the answer depends on the bytes alone, which is what
/// `jpeg_decoding` names. Nothing is claimed of which bytes decode.
#[verifier::external_body]
fn decode_jpeg(bytes: &[u8]) -> (decoded: Result<(u32, u32), String>)
    ensures
        decoded_view(decoded) == jpeg_decoding(bytes@),
{
    match image::load_from_memory_with_format(bytes, image::ImageFormat::Jpeg) {
        Ok(img) => Ok(img.dimensions()),
        Err(e) => Err(e.to_string()),
    }
}

/// Turns a decoder's answer for the file at `img_path` into the result of the
/// probe: dimensions with their orientation, or an error that carries the
/// path.
pub fn probe_decoded(img_path: &str, decoded: Result<(u32, u32), String>) -> (probed: Result<
    Dimensions,
    DecodeError,
>)
    ensures
        probe_view(probed) == probe_result(img_path@, decoded_view(decoded)),
        probed is Ok <==> decoded is Ok,
        probed matches Ok(dimensions) ==> dimensions.well_formed(),
{
    match decoded {
        Ok((width, height)) => Ok(Dimensions::new(width, height)),
        Err(message) => Err(DecodeError { path: String::from_str(img_path), message }),
    }
}

/// Probes the image whose file at `img_path` holds `content`.
///
/// Gives the dimensions where the content decodes as a JPEG image, and
/// otherwise an error with the path and the decoder's message.
pub fn img_orient(img_path: &str, content: &[u8]) -> (probed: Result<Dimensions, DecodeError>)
    ensures
        probe_view(probed) == probe_result(img_path@, jpeg_decoding(content@)),
        probed is Ok <==> jpeg_decoding(content@) is Ok,
        probed matches Ok(dimensions) ==> dimensions.well_formed(),
{
    probe_decoded(img_path, decode_jpeg(content))
}

} // verus!
