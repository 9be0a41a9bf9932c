//! Paste as Plain Text and Text Extractor: what each does with the text it
//! reads, the reading and writing being the caller's.

use vstd::prelude::*;

use crate::text::{chars_of, owned, string_of, trim, trim_range, views};

verus! {

/// The Paste as Plain Text module.
#[derive(Debug)]
pub struct PastePlain {
    running: bool,
}

impl PastePlain {
    /// A stopped module.
    pub fn new() -> (p: PastePlain)
        ensures
            !p.is_running_spec(),
    {
        PastePlain { running: false }
    }

    /// Whether the module runs.
    pub closed spec fn is_running_spec(&self) -> bool {
        self.running
    }

    /// What pasting as plain text does with the clipboard's text: nothing
    /// when it is empty, else that text is written back as plain text and
    /// pasted.
    pub fn paste_as_plain(&self, clipboard_text: &str) -> (r: Option<String>)
        ensures
            clipboard_text@.len() == 0 ==> r is None,
            clipboard_text@.len() > 0 ==> r is Some && r->0@ == clipboard_text@,
    {
        if clipboard_text.is_empty() {
            None
        } else {
            Some(owned(clipboard_text))
        }
    }

    /// Starts the module.
    pub fn start(&mut self)
        ensures
            final(self).is_running_spec(),
    {
        self.running = true;
    }

    /// Stops the module.
    pub fn stop(&mut self)
        ensures
            !final(self).is_running_spec(),
    {
        self.running = false;
    }

    /// Whether the module runs.
    pub fn is_running(&self) -> (b: bool)
        ensures
            b == self.is_running_spec(),
    {
        self.running
    }
}

/// The Text Extractor settings: the Tesseract language, such as `eng`,
/// `fra` or `eng+fra`.
#[derive(Debug)]
pub struct TextExtractorConfig {
    pub language: String,
}

/// The default OCR language: English.
pub fn default_lang() -> (s: String)
    ensures
        s@ == "eng"@,
{
    owned("eng")
}

impl TextExtractorConfig {
    /// The default settings: English.
    pub fn default_config() -> (c: TextExtractorConfig)
        ensures
            c.language@ == "eng"@,
    {
        TextExtractorConfig { language: default_lang() }
    }
}

/// The Text Extractor module: whether it runs, and its settings.
#[derive(Debug)]
pub struct TextExtractor {
    running: bool,
    config: TextExtractorConfig,
}

impl TextExtractor {
    /// A stopped module with the given settings.
    pub fn new(config: TextExtractorConfig) -> (t: TextExtractor)
        ensures
            !t.is_running_spec(),
            t.config_spec() == config,
    {
        TextExtractor { running: false, config }
    }

    /// Whether the module runs.
    pub closed spec fn is_running_spec(&self) -> bool {
        self.running
    }

    /// The module's settings.
    pub closed spec fn config_spec(&self) -> TextExtractorConfig {
        self.config
    }

    /// The arguments Tesseract is run with: the image, the output base and
    /// the language.
    pub fn tesseract_args(&self, image: &str, output_base: &str) -> (a: Vec<String>)
        ensures
            views(a@) == seq![image@, output_base@, "-l"@, self.config_spec().language@],
    {
        let a = vec![owned(image), owned(output_base), owned("-l"), owned(self.config.language.as_str())];
        assert(views(a@) =~= seq![image@, output_base@, "-l"@, self.config.language@]);
        a
    }

    /// What is copied to the clipboard of the text Tesseract read: the text
    /// trimmed, nothing when that is empty.
    pub fn on_hotkey(&self, ocr_output: &str) -> (r: Option<String>)
        ensures
            trim(ocr_output@).len() == 0 ==> r is None,
            trim(ocr_output@).len() > 0 ==> r is Some && r->0@ == trim(ocr_output@),
    {
        let v = chars_of(ocr_output);
        let (a, b) = trim_range(&v, 0, v.len());
        assert(v@.subrange(0, v.len() as int) =~= ocr_output@);
        if a == b {
            None
        } else {
            Some(string_of(&v, a, b))
        }
    }

    /// Starts the module.
    pub fn start(&mut self)
        ensures
            final(self).is_running_spec(),
            final(self).config_spec() == old(self).config_spec(),
    {
        self.running = true;
    }

    /// Stops the module.
    pub fn stop(&mut self)
        ensures
            !final(self).is_running_spec(),
            final(self).config_spec() == old(self).config_spec(),
    {
        self.running = false;
    }

    /// Whether the module runs.
    pub fn is_running(&self) -> (b: bool)
        ensures
            b == self.is_running_spec(),
    {
        self.running
    }
}

} // verus!
