//! Text of external files, as far as models get to see it.
use crate::data::ai::pdf::{document_contents, pdf_text};
use crate::data::paths::{extension, extension_text};
use crate::text::{chars_of, first_chars, same_text, take_chars};
use pdf_extract::Document;
use vstd::prelude::*;
use vstd::utf8::{decode_utf8, valid_utf8};

verus! {

/// The largest number of characters that is taken from one file.
pub const MAX_EXTRACT_CHARS: usize = 102_400;

/// The extension is one of text files.
pub open spec fn is_text_extension(ext: Seq<char>) -> bool {
    ||| ext == "md"@
    ||| ext == "txt"@
    ||| ext == "json"@
    ||| ext == "csv"@
    ||| ext == "toml"@
    ||| ext == "yaml"@
    ||| ext == "yml"@
    ||| ext == "xml"@
    ||| ext == "html"@
    ||| ext == "htm"@
    ||| ext == "css"@
    ||| ext == "js"@
    ||| ext == "ts"@
    ||| ext == "rs"@
    ||| ext == "py"@
    ||| ext == "rb"@
    ||| ext == "sh"@
    ||| ext == "bash"@
    ||| ext == "zsh"@
    ||| ext == "fish"@
    ||| ext == "ini"@
    ||| ext == "cfg"@
    ||| ext == "conf"@
    ||| ext == "log"@
    ||| ext == "sql"@
    ||| ext == "r"@
    ||| ext == "java"@
    ||| ext == "cpp"@
    ||| ext == "c"@
    ||| ext == "h"@
    ||| ext == "hpp"@
    ||| ext == "go"@
    ||| ext == "php"@
    ||| ext == "pl"@
    ||| ext == "lua"@
    ||| ext == "tex"@
    ||| ext == "bib"@
    ||| ext == "org"@
    ||| ext == "rst"@
}

fn text_extension(ext: &str) -> (r: bool)
    ensures
        r == is_text_extension(ext@),
{
    same_text(ext, "md") || same_text(ext, "txt") || same_text(ext, "json") || same_text(ext, "csv")
        || same_text(ext, "toml") || same_text(ext, "yaml") || same_text(ext, "yml") || same_text(
        ext,
        "xml",
    ) || same_text(ext, "html") || same_text(ext, "htm") || same_text(ext, "css") || same_text(
        ext,
        "js",
    ) || same_text(ext, "ts") || same_text(ext, "rs") || same_text(ext, "py") || same_text(
        ext,
        "rb",
    ) || same_text(ext, "sh") || same_text(ext, "bash") || same_text(ext, "zsh") || same_text(
        ext,
        "fish",
    ) || same_text(ext, "ini") || same_text(ext, "cfg") || same_text(ext, "conf") || same_text(
        ext,
        "log",
    ) || same_text(ext, "sql") || same_text(ext, "r") || same_text(ext, "java") || same_text(
        ext,
        "cpp",
    ) || same_text(ext, "c") || same_text(ext, "h") || same_text(ext, "hpp") || same_text(ext, "go")
        || same_text(ext, "php") || same_text(ext, "pl") || same_text(ext, "lua") || same_text(
        ext,
        "tex",
    ) || same_text(ext, "bib") || same_text(ext, "org") || same_text(ext, "rst")
}

/// The extension is `pdf`, in any case.
pub open spec fn is_pdf_extension(ext: Seq<char>) -> bool {
    &&& ext.len() == 3
    &&& ext[0] == 'p' || ext[0] == 'P'
    &&& ext[1] == 'd' || ext[1] == 'D'
    &&& ext[2] == 'f' || ext[2] == 'F'
}

/// The path leads to a text file, by its extension.
pub fn is_text_file(path: &str) -> (r: bool)
    ensures
        r == (extension_text(path@) is Some && is_text_extension(extension_text(path@)->0)),
{
    match extension(path) {
        Some(ext) => text_extension(&ext),
        None => false,
    }
}

/// The path leads to a PDF document, by its extension.
pub fn is_pdf(path: &str) -> (r: bool)
    ensures
        r == (extension_text(path@) is Some && is_pdf_extension(extension_text(path@)->0)),
{
    match extension(path) {
        Some(ext) => {
            let c = chars_of(&ext);
            c.len() == 3 && (c[0] == 'p' || c[0] == 'P') && (c[1] == 'd' || c[1] == 'D') && (c[2]
                == 'f' || c[2] == 'F')
        },
        None => false,
    }
}

/// How a file is read.
#[derive(Clone, Copy, Debug, PartialEq, Eq, Structural)]
pub enum ExtractPlan {
    /// As text.
    Text,
    /// As a PDF document.
    Pdf,
}

/// The file at `path` is read as a PDF document.
pub open spec fn reads_as_pdf(path: Seq<char>) -> bool {
    extension_text(path) matches Some(ext) && is_pdf_extension(ext) && !is_text_extension(ext)
}

/// How the file at `path` is read. Files of an unknown kind are read as text.
pub fn extract_plan(path: &str) -> (r: ExtractPlan)
    ensures
        r == ExtractPlan::Pdf <==> reads_as_pdf(path@),
{
    if is_text_file(path) {
        ExtractPlan::Text
    } else if is_pdf(path) {
        ExtractPlan::Pdf
    } else {
        ExtractPlan::Text
    }
}

/// The first characters of a text, as many as are taken from one file.
pub fn truncate(s: &str) -> (r: String)
    ensures
        r@ == first_chars(s@, MAX_EXTRACT_CHARS as int),
{
    take_chars(s, MAX_EXTRACT_CHARS)
}

/// The text that is taken from a file, where `read` is what reading it gave.
pub fn extracted(read: Option<String>) -> (r: Option<String>)
    ensures
        match read {
            Some(text) => r matches Some(t) && t@ == first_chars(text@, MAX_EXTRACT_CHARS as int),
            None => r is None,
        },
{
    match read {
        Some(text) => Some(truncate(&text)),
        None => None,
    }
}

/// The text is all that is found in a document, or the beginning of it if that is too
/// long.
pub open spec fn is_taken(text: Seq<char>) -> bool {
    exists|document: Document|
        {
            let found = (#[trigger] document_contents(document)).1;
            &&& found.len() <= 102_400 ==> text == found
            &&& found.len() > 102_400 ==> text == found.subrange(0, 102_400)
        }
}

/// The text that is taken from a PDF document. A document that cannot be read, or
/// in which reading would not come to an end, has none.
pub fn extract_pdf_text(bytes: &[u8]) -> (r: Option<String>)
    ensures
        r matches Some(text) ==> text@.len() <= MAX_EXTRACT_CHARS && is_taken(text@),
        exists|read: Option<String>| #[trigger]
            call_ensures(pdf_text, (bytes,), read) && match read {
                Some(text) => r matches Some(t) && t@ == first_chars(
                    text@,
                    MAX_EXTRACT_CHARS as int,
                ),
                None => r is None,
            },
{
    extracted(pdf_text(bytes))
}

/// The text that bytes encode: `String::from_utf8`, which gives it exactly if the
/// bytes are valid UTF-8.
#[verifier::external_body]
fn utf8_text(bytes: Vec<u8>) -> (r: Option<String>)
    ensures
        r is Some == valid_utf8(bytes@),
        r matches Some(text) ==> text@ == decode_utf8(bytes@),
{
    String::from_utf8(bytes).ok()
}

/// The text that is taken from the file at `path`. `content` is what the file
/// holds; a file that cannot be read holds nothing.
pub fn extract_text_from_file(path: &str, content: Option<Vec<u8>>) -> (r: Option<String>)
    ensures
        match content {
            None => r is None,
            Some(bytes) => if reads_as_pdf(path@) {
                &&& r matches Some(text) ==> text@.len() <= MAX_EXTRACT_CHARS && is_taken(text@)
                &&& exists|s: &[u8]| s@ == bytes@ && #[trigger] call_ensures(
                    extract_pdf_text,
                    (s,),
                    r,
                )
            } else if valid_utf8(bytes@) {
                r matches Some(text) && text@ == first_chars(
                    decode_utf8(bytes@),
                    MAX_EXTRACT_CHARS as int,
                )
            } else {
                r is None
            },
        },
{
    match content {
        None => None,
        Some(bytes) => match extract_plan(path) {
            ExtractPlan::Text => extracted(utf8_text(bytes)),
            ExtractPlan::Pdf => extract_pdf_text(bytes.as_slice()),
        },
    }
}

/// A text file is taken whole if it has at most 102 400 characters, and otherwise the
/// first of them are.
pub proof fn texts_are_taken_whole(text: Seq<char>)
    ensures
        text.len() <= 102_400 ==> first_chars(text, MAX_EXTRACT_CHARS as int) == text,
        text.len() > 102_400 ==> first_chars(text, MAX_EXTRACT_CHARS as int) == text.subrange(
            0,
            102_400,
        ),
{
}

/// Files with these extensions are read as text.
pub proof fn text_files_are_known()
    ensures
        is_text_extension("md"@),
        is_text_extension("txt"@),
        is_text_extension("json"@),
        is_text_extension("csv"@),
        is_text_extension("toml"@),
        is_text_extension("yaml"@),
        is_text_extension("yml"@),
        is_text_extension("xml"@),
        is_text_extension("html"@),
        is_text_extension("htm"@),
        is_text_extension("css"@),
        is_text_extension("js"@),
        is_text_extension("ts"@),
        is_text_extension("rs"@),
        is_text_extension("py"@),
        is_text_extension("rb"@),
        is_text_extension("sh"@),
        is_text_extension("bash"@),
        is_text_extension("zsh"@),
        is_text_extension("fish"@),
        is_text_extension("ini"@),
        is_text_extension("cfg"@),
        is_text_extension("conf"@),
        is_text_extension("log"@),
        is_text_extension("sql"@),
        is_text_extension("r"@),
        is_text_extension("java"@),
        is_text_extension("cpp"@),
        is_text_extension("c"@),
        is_text_extension("h"@),
        is_text_extension("hpp"@),
        is_text_extension("go"@),
        is_text_extension("php"@),
        is_text_extension("pl"@),
        is_text_extension("lua"@),
        is_text_extension("tex"@),
        is_text_extension("bib"@),
        is_text_extension("org"@),
        is_text_extension("rst"@),
{
}

/// A file with the extension of a PDF document is read as one, in whatever case the
/// extension is written. A file with any other extension, or with none, is read as text.
pub proof fn pdf_files_are_read_as_such(path: Seq<char>)
    ensures
        reads_as_pdf(path) <==> {
            &&& extension_text(path) is Some
            &&& extension_text(path)->0.len() == 3
            &&& extension_text(path)->0[0] == 'p' || extension_text(path)->0[0] == 'P'
            &&& extension_text(path)->0[1] == 'd' || extension_text(path)->0[1] == 'D'
            &&& extension_text(path)->0[2] == 'f' || extension_text(path)->0[2] == 'F'
        },
{
    if let Some(ext) = extension_text(path) {
        if is_pdf_extension(ext) {
            reveal_strlit("md");
            reveal_strlit("txt");
            reveal_strlit("json");
            reveal_strlit("csv");
            reveal_strlit("toml");
            reveal_strlit("yaml");
            reveal_strlit("yml");
            reveal_strlit("xml");
            reveal_strlit("html");
            reveal_strlit("htm");
            reveal_strlit("css");
            reveal_strlit("js");
            reveal_strlit("ts");
            reveal_strlit("rs");
            reveal_strlit("py");
            reveal_strlit("rb");
            reveal_strlit("sh");
            reveal_strlit("bash");
            reveal_strlit("zsh");
            reveal_strlit("fish");
            reveal_strlit("ini");
            reveal_strlit("cfg");
            reveal_strlit("conf");
            reveal_strlit("log");
            reveal_strlit("sql");
            reveal_strlit("r");
            reveal_strlit("java");
            reveal_strlit("cpp");
            reveal_strlit("c");
            reveal_strlit("h");
            reveal_strlit("hpp");
            reveal_strlit("go");
            reveal_strlit("php");
            reveal_strlit("pl");
            reveal_strlit("lua");
            reveal_strlit("tex");
            reveal_strlit("bib");
            reveal_strlit("org");
            reveal_strlit("rst");
            assert(!is_text_extension(ext));
        }
    }
}

} // verus!
