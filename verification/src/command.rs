//! Value types describing an invocation of the external recognition tool:
//! its output mode and its command-line options. Only the argument strings
//! are built here; spawning the tool is the caller's concern and stays
//! outside the library.

use vstd::prelude::*;
use crate::patterns::space_run_end;
use crate::text::{is_space, digit_char, space_check, str_chars};

verus! {

/// Where the recognition tool should put its output.
#[derive(Clone, Copy, Debug, PartialEq, Eq, Structural)]
pub enum OutputFormat {
    StdOut,
    Output,
    Pdf,
}

/// The command-line word for an output mode.
pub open spec fn output_format_arg(f: OutputFormat) -> Seq<char> {
    match f {
        OutputFormat::StdOut => "stdout"@,
        OutputFormat::Output => "output"@,
        OutputFormat::Pdf => "pdf"@,
    }
}

impl OutputFormat {
    /// The command-line word for this output mode.
    pub fn to_arg(&self) -> (r: String)
        ensures
            r@ == output_format_arg(*self),
    {
        match self {
            OutputFormat::StdOut => String::from_str("stdout"),
            OutputFormat::Output => String::from_str("output"),
            OutputFormat::Pdf => String::from_str("pdf"),
        }
    }
}

/// The decimal digits of a value below one thousand, without leading zeros.
pub open spec fn dec_digits(n: int) -> Seq<char> {
    if n < 10 {
        seq![digit_char(n)]
    } else if n < 100 {
        seq![digit_char(n / 10), digit_char(n % 10)]
    } else {
        seq![digit_char(n / 100), digit_char((n / 10) % 10), digit_char(n % 10)]
    }
}

fn digit_str(d: u32) -> (r: &'static str)
    requires
        d <= 9,
    ensures
        r@ == seq![digit_char(d as int)],
{
    if d == 0 {
        proof {
            reveal_strlit("0");
            assert("0"@ =~= seq![digit_char(0)]);
        }
        "0"
    } else if d == 1 {
        proof {
            reveal_strlit("1");
            assert("1"@ =~= seq![digit_char(1)]);
        }
        "1"
    } else if d == 2 {
        proof {
            reveal_strlit("2");
            assert("2"@ =~= seq![digit_char(2)]);
        }
        "2"
    } else if d == 3 {
        proof {
            reveal_strlit("3");
            assert("3"@ =~= seq![digit_char(3)]);
        }
        "3"
    } else if d == 4 {
        proof {
            reveal_strlit("4");
            assert("4"@ =~= seq![digit_char(4)]);
        }
        "4"
    } else if d == 5 {
        proof {
            reveal_strlit("5");
            assert("5"@ =~= seq![digit_char(5)]);
        }
        "5"
    } else if d == 6 {
        proof {
            reveal_strlit("6");
            assert("6"@ =~= seq![digit_char(6)]);
        }
        "6"
    } else if d == 7 {
        proof {
            reveal_strlit("7");
            assert("7"@ =~= seq![digit_char(7)]);
        }
        "7"
    } else if d == 8 {
        proof {
            reveal_strlit("8");
            assert("8"@ =~= seq![digit_char(8)]);
        }
        "8"
    } else {
        proof {
            reveal_strlit("9");
            assert("9"@ =~= seq![digit_char(9)]);
        }
        "9"
    }
}

/// The decimal representation of an eight-bit option value.
fn u8_to_dec(n: u8) -> (r: String)
    ensures
        r@ == dec_digits(n as int),
{
    let v = n as u32;
    let mut out = String::new();
    if v >= 100 {
        out.append(digit_str(v / 100));
        out.append(digit_str((v / 10) % 10));
        out.append(digit_str(v % 10));
        proof {
            assert(out@ =~= dec_digits(n as int));
        }
    } else if v >= 10 {
        out.append(digit_str(v / 10));
        out.append(digit_str(v % 10));
        proof {
            assert(out@ =~= dec_digits(n as int));
        }
    } else {
        out.append(digit_str(v));
        proof {
            assert(out@ =~= dec_digits(n as int));
        }
    }
    out
}

/// The index where the trailing whitespace of `s` begins, scanning down
/// from `j`.
pub open spec fn trail_space_start(s: Seq<char>, j: int) -> int
    decreases j,
{
    if 0 < j && j <= s.len() && is_space(s[j - 1]) {
        trail_space_start(s, j - 1)
    } else {
        j
    }
}

/// `s` without leading and trailing whitespace.
pub open spec fn trim_spec(s: Seq<char>) -> Seq<char> {
    let a = space_run_end(s, 0);
    let b = trail_space_start(s, s.len() as int);
    if a <= b {
        s.subrange(a, b)
    } else {
        Seq::empty()
    }
}

/// Removes leading and trailing whitespace.
fn trim_exec(s: &str) -> (r: String)
    ensures
        r@ == trim_spec(s@),
{
    let chars = str_chars(s);
    let n = chars.len();
    let mut a: usize = 0;
    while a < n && space_check(chars[a])
        invariant
            a <= n,
            n == chars@.len(),
            chars@ == s@,
            space_run_end(chars@, 0) == space_run_end(chars@, a as int),
        decreases n - a,
    {
        a = a + 1;
    }
    let mut b: usize = n;
    while b > 0 && space_check(chars[b - 1])
        invariant
            b <= n,
            n == chars@.len(),
            chars@ == s@,
            trail_space_start(chars@, n as int) == trail_space_start(chars@, b as int),
        decreases b,
    {
        b = b - 1;
    }
    if a > b {
        String::new()
    } else {
        String::from_str(s.substring_char(a, b))
    }
}

/// The command-line options of the recognition tool. Each option is emitted
/// only when set; `lang_path` is carried for callers but takes no part in
/// the argument string.
#[derive(Debug)]
pub struct TesseractCommand {
    pub language: Option<String>,
    pub psm: Option<u8>,
    pub oem: Option<u8>,
    pub output_format: Option<String>,
    pub config_file: Option<String>,
    pub user_patterns: Option<String>,
    pub user_words: Option<String>,
    pub lang_path: Option<String>,
}

/// The piece a set language option contributes.
pub open spec fn language_piece(c: TesseractCommand) -> Seq<char> {
    match c.language {
        Some(l) => " -l "@ + l@,
        None => Seq::empty(),
    }
}

/// The piece a set page-segmentation-mode option contributes.
pub open spec fn psm_piece(c: TesseractCommand) -> Seq<char> {
    match c.psm {
        Some(p) => " --psm "@ + dec_digits(p as int),
        None => Seq::empty(),
    }
}

/// The piece a set engine-mode option contributes.
pub open spec fn oem_piece(c: TesseractCommand) -> Seq<char> {
    match c.oem {
        Some(o) => " --oem "@ + dec_digits(o as int),
        None => Seq::empty(),
    }
}

/// The piece a set output-format option contributes.
pub open spec fn output_piece(c: TesseractCommand) -> Seq<char> {
    match c.output_format {
        Some(f) => " -c tessedit_create_"@ + f@,
        None => Seq::empty(),
    }
}

/// The piece a set configuration file contributes.
pub open spec fn config_piece(c: TesseractCommand) -> Seq<char> {
    match c.config_file {
        Some(f) => " "@ + f@,
        None => Seq::empty(),
    }
}

/// The piece a set user-patterns file contributes.
pub open spec fn patterns_piece(c: TesseractCommand) -> Seq<char> {
    match c.user_patterns {
        Some(p) => " -c user_patterns_file="@ + p@,
        None => Seq::empty(),
    }
}

/// The piece a set user-words file contributes.
pub open spec fn words_piece(c: TesseractCommand) -> Seq<char> {
    match c.user_words {
        Some(w) => " -c user_words_file="@ + w@,
        None => Seq::empty(),
    }
}

/// The argument string before trimming: one piece per set option, each
/// piece starting with a space.
pub open spec fn raw_args_spec(c: TesseractCommand) -> Seq<char> {
    language_piece(c) + psm_piece(c) + oem_piece(c) + output_piece(c) + config_piece(c)
        + patterns_piece(c) + words_piece(c)
}

impl Default for TesseractCommand {
    fn default() -> (r: Self)
        ensures
            r.language is None,
            r.psm is None,
            r.oem is None,
            r.output_format is None,
            r.config_file is None,
            r.user_patterns is None,
            r.user_words is None,
            r.lang_path is None,
    {
        TesseractCommand {
            language: None,
            psm: None,
            oem: None,
            output_format: None,
            config_file: None,
            user_patterns: None,
            user_words: None,
            lang_path: None,
        }
    }
}

impl TesseractCommand {
    pub fn new(
        language: Option<String>,
        psm: Option<u8>,
        oem: Option<u8>,
        output_format: Option<String>,
        config_file: Option<String>,
        user_patterns: Option<String>,
        user_words: Option<String>,
        lang_path: Option<String>,
    ) -> (r: Self)
        ensures
            r.language == language,
            r.psm == psm,
            r.oem == oem,
            r.output_format == output_format,
            r.config_file == config_file,
            r.user_patterns == user_patterns,
            r.user_words == user_words,
            r.lang_path == lang_path,
    {
        TesseractCommand {
            language,
            psm,
            oem,
            output_format,
            config_file,
            user_patterns,
            user_words,
            lang_path,
        }
    }

    /// Builds the untrimmed argument string, one piece per set option.
    #[verifier::rlimit(50)]
    fn raw_args(&self) -> (r: String)
        ensures
            r@ == raw_args_spec(*self),
    {
        let ghost p1 = language_piece(*self);
        let ghost p2 = psm_piece(*self);
        let ghost p3 = oem_piece(*self);
        let ghost p4 = output_piece(*self);
        let ghost p5 = config_piece(*self);
        let ghost p6 = patterns_piece(*self);
        let ghost p7 = words_piece(*self);
        let mut out = String::new();
        if let Some(lang) = &self.language {
            out.append(" -l ");
            out.append(lang.as_str());
        }
        proof {
            assert(out@ =~= p1);
        }
        if let Some(psm) = &self.psm {
            out.append(" --psm ");
            let digits = u8_to_dec(*psm);
            out.append(digits.as_str());
        }
        proof {
            assert(out@ =~= p1 + p2);
        }
        if let Some(oem) = &self.oem {
            out.append(" --oem ");
            let digits = u8_to_dec(*oem);
            out.append(digits.as_str());
        }
        proof {
            assert(out@ =~= p1 + p2 + p3);
        }
        if let Some(f) = &self.output_format {
            out.append(" -c tessedit_create_");
            out.append(f.as_str());
        }
        proof {
            assert(out@ =~= p1 + p2 + p3 + p4);
        }
        if let Some(config) = &self.config_file {
            out.append(" ");
            out.append(config.as_str());
        }
        proof {
            assert(out@ =~= p1 + p2 + p3 + p4 + p5);
        }
        if let Some(patterns) = &self.user_patterns {
            out.append(" -c user_patterns_file=");
            out.append(patterns.as_str());
        }
        proof {
            assert(out@ =~= p1 + p2 + p3 + p4 + p5 + p6);
        }
        if let Some(words) = &self.user_words {
            out.append(" -c user_words_file=");
            out.append(words.as_str());
        }
        proof {
            assert(out@ =~= p1 + p2 + p3 + p4 + p5 + p6 + p7);
            assert(raw_args_spec(*self) == p1 + p2 + p3 + p4 + p5 + p6 + p7);
        }
        out
    }

    /// Builds the argument string from the options that are set: each set
    /// option contributes its flag and value, and the result carries no
    /// leading or trailing whitespace of its own.
    pub fn to_command_args(&self) -> (r: String)
        ensures
            r@ == trim_spec(raw_args_spec(*self)),
    {
        let raw = self.raw_args();
        trim_exec(raw.as_str())
    }
}

/// The recognition engine: a carrier for the command-line options.
#[derive(Debug)]
pub struct Tesseract {
    pub data: TesseractCommand,
}

impl Default for Tesseract {
    fn default() -> (r: Self)
        ensures
            r.data.language is None,
            r.data.psm is None,
            r.data.oem is None,
            r.data.output_format is None,
            r.data.config_file is None,
            r.data.user_patterns is None,
            r.data.user_words is None,
            r.data.lang_path is None,
    {
        Tesseract { data: TesseractCommand::default() }
    }
}

} // verus!
