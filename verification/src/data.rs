//! The identity-verification configuration: what image to read, in which
//! format, where the recognition tool should write, and which engine
//! options to pass. `get_data_from_img` validates the configuration and
//! produces the full invocation plan; spawning the external process from
//! that plan is the caller's concern and stays outside the library.

use vstd::prelude::*;
use crate::command::{
    OutputFormat, Tesseract, TesseractCommand, output_format_arg, raw_args_spec, trim_spec,
};
use crate::format::ImageFormat;

verus! {

/// The recognition engine together with an optional explicit option set.
#[derive(Debug)]
pub enum InformationTessract {
    Data { command: Option<TesseractCommand>, engine: Tesseract },
}

impl InformationTessract {
    /// The explicit option set, if one was given.
    pub open spec fn spec_command(self) -> Option<TesseractCommand> {
        match self {
            InformationTessract::Data { command, engine } => command,
        }
    }

    /// The engine.
    pub open spec fn spec_engine(self) -> Tesseract {
        match self {
            InformationTessract::Data { command, engine } => engine,
        }
    }

    /// Borrows both parts.
    pub fn extract_data(&self) -> (r: (&Option<TesseractCommand>, &Tesseract))
        ensures
            *r.0 == self.spec_command(),
            *r.1 == self.spec_engine(),
    {
        match self {
            InformationTessract::Data { command, engine } => (command, engine),
        }
    }
}

impl Default for InformationTessract {
    fn default() -> (r: Self)
        ensures
            r.spec_command() is None,
            r.spec_engine().data.language is None,
            r.spec_engine().data.psm is None,
            r.spec_engine().data.oem is None,
            r.spec_engine().data.output_format is None,
            r.spec_engine().data.config_file is None,
            r.spec_engine().data.user_patterns is None,
            r.spec_engine().data.user_words is None,
            r.spec_engine().data.lang_path is None,
    {
        InformationTessract::Data { command: None, engine: Tesseract::default() }
    }
}

/// A fully prepared invocation of the recognition tool: the image path, the
/// output-mode word, and the remaining argument string.
#[derive(Debug)]
pub struct TesseractInvocation {
    pub image_path: String,
    pub output_selector: String,
    pub extra_args: String,
}

/// An identity-verification configuration.
pub struct IdVerif {
    pub image_format: ImageFormat,
    pub path: String,
    pub output_format: OutputFormat,
    pub information_tesseract: InformationTessract,
}

impl Default for IdVerif {
    fn default() -> (r: Self)
        ensures
            r.image_format == ImageFormat::PNG,
            r.path@ == Seq::<char>::empty(),
            r.output_format == OutputFormat::StdOut,
            r.information_tesseract.spec_command() is None,
    {
        IdVerif {
            image_format: ImageFormat::PNG,
            path: String::new(),
            output_format: OutputFormat::StdOut,
            information_tesseract: InformationTessract::default(),
        }
    }
}

impl IdVerif {
    pub fn new(data: IdVerif) -> (r: Self)
        ensures
            r.image_format == data.image_format,
            r.path == data.path,
            r.output_format == data.output_format,
            r.information_tesseract == data.information_tesseract,
    {
        Self {
            image_format: data.image_format,
            path: data.path,
            output_format: data.output_format,
            information_tesseract: data.information_tesseract,
        }
    }

    /// Validates the configuration and prepares the invocation: an empty
    /// image path is rejected before anything else; otherwise the plan
    /// carries the path, the output-mode word and the engine's argument
    /// string.
    pub fn get_data_from_img(&self) -> (r: Result<TesseractInvocation, String>)
        ensures
            self.path@.len() == 0 ==> (r matches Err(m) && m@
                == "this must be initialized with valid picture path image"@),
            self.path@.len() != 0 ==> (r matches Ok(inv) && inv.image_path@ == self.path@
                && inv.output_selector@ == output_format_arg(self.output_format)
                && inv.extra_args@ == trim_spec(
                raw_args_spec(self.information_tesseract.spec_engine().data),
            )),
    {
        if self.path.as_str().is_empty() {
            return Err(String::from_str("this must be initialized with valid picture path image"));
        }
        let (_command, tess) = self.information_tesseract.extract_data();
        let args = tess.data.to_command_args();
        Ok(
            TesseractInvocation {
                image_path: self.path.clone(),
                output_selector: self.output_format.to_arg(),
                extra_args: args,
            },
        )
    }
}

/// Prepares the invocation for a configuration; see `get_data_from_img`.
pub fn image_to_string(verif: IdVerif) -> (r: Result<TesseractInvocation, String>)
    ensures
        verif.path@.len() == 0 ==> (r matches Err(m) && m@
            == "this must be initialized with valid picture path image"@),
        verif.path@.len() != 0 ==> (r matches Ok(inv) && inv.image_path@ == verif.path@
            && inv.output_selector@ == output_format_arg(verif.output_format)
            && inv.extra_args@ == trim_spec(
            raw_args_spec(verif.information_tesseract.spec_engine().data),
        )),
{
    verif.get_data_from_img()
}

} // verus!
