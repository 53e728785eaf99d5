//! The image formats the external recognition tool accepts, with their
//! lowercase names.

use vstd::prelude::*;
use crate::text::str_eq_chars;

verus! {

/// An accepted image format.
#[derive(Clone, Copy, Debug, PartialEq, Eq, Structural)]
pub enum ImageFormat {
    JPEG,
    PNG,
}

/// The lowercase name of an image format.
pub open spec fn image_format_name(f: ImageFormat) -> Seq<char> {
    match f {
        ImageFormat::JPEG => "jpeg"@,
        ImageFormat::PNG => "png"@,
    }
}

impl Default for ImageFormat {
    fn default() -> (r: Self)
        ensures
            r == ImageFormat::PNG,
    {
        ImageFormat::PNG
    }
}

impl ImageFormat {
    /// The lowercase name of the format.
    pub fn to_name(&self) -> (r: String)
        ensures
            r@ == image_format_name(*self),
    {
        match self {
            ImageFormat::JPEG => String::from_str("jpeg"),
            ImageFormat::PNG => String::from_str("png"),
        }
    }

    /// Reads a format from its lowercase name; any other string is
    /// rejected with a message.
    pub fn from_name(value: &str) -> (r: Result<ImageFormat, String>)
        ensures
            value@ == "jpeg"@ ==> (r matches Ok(f) && f is JPEG),
            value@ == "png"@ ==> (r matches Ok(f) && f is PNG),
            value@ != "jpeg"@ && value@ != "png"@ ==> (r matches Err(m) && m@
                == "The format of image is not supposed"@),
    {
        proof {
            reveal_strlit("jpeg");
            reveal_strlit("png");
            assert("jpeg"@.len() == 4);
            assert("png"@.len() == 3);
            assert("jpeg"@ != "png"@);
        }
        if str_eq_chars(value, "jpeg") {
            Ok(ImageFormat::JPEG)
        } else if str_eq_chars(value, "png") {
            Ok(ImageFormat::PNG)
        } else {
            Err(String::from_str("The format of image is not supposed"))
        }
    }
}

} // verus!
