//! Text documents, and the latest document that the editor opened.

use vstd::prelude::*;
use vstd::string::StringExecFns;
use crate::text::{chars_of, range_equals, string_from};

verus! {

broadcast use vstd::string::group_string_axioms;

/// A text document as the editor describes it.
pub struct TextDocument {
    /// The document's URI.
    pub uri: String,
    /// The document's language identifier.
    pub language_id: String,
    /// The document's version number.
    pub version: i32,
    /// The document's content.
    pub text: String,
}

/// The latest document that the editor opened, kept to give the model
/// context when the workspace offers none.
pub struct DocumentCache {
    /// The latest document opened, with its content as last read.
    pub latest: Option<TextDocument>,
}

impl DocumentCache {
    /// No document opened yet.
    pub fn new() -> (r: DocumentCache)
        ensures
            r.latest is None,
    {
        DocumentCache { latest: None }
    }

    /// The editor opened `doc`: it becomes the latest document.
    pub fn open(&mut self, doc: TextDocument)
        ensures
            final(self).latest == Some(doc),
    {
        self.latest = Some(doc);
    }

    /// Whether the latest document is the one at `url`.
    pub fn is_latest(&self, url: &str) -> (r: bool)
        ensures
            r == (self.latest matches Some(d) && d.uri@ == url@),
    {
        match &self.latest {
            Some(doc) => {
                let a = chars_of(doc.uri.as_str());
                let b = chars_of(url);
                let r = range_equals(&a, 0, a.len(), &b);
                assert(a@.subrange(0, a@.len() as int) =~= a@);
                r
            },
            None => false,
        }
    }

    /// The document at `url` was read again with content `text`: when it is
    /// the latest document, its content becomes `text`; otherwise nothing
    /// changes.
    pub fn update_latest_document(&mut self, url: &str, text: String)
        ensures
            match old(self).latest {
                Some(d) if d.uri@ == url@ => final(self).latest == Some(
                    TextDocument { text, ..d },
                ),
                _ => final(self).latest == old(self).latest,
            },
    {
        if self.is_latest(url) {
            match self.latest.take() {
                Some(doc) => {
                    self.latest = Some(TextDocument { text, ..doc });
                },
                None => {},
            }
        }
    }
}

/// The prefix of a URI that names a local file.
pub open spec fn file_scheme() -> Seq<char> {
    seq!['f', 'i', 'l', 'e', ':', '/', '/']
}

/// The file system path of `url`: `url` without its `file://` prefix, or
/// `url` itself when it has none.
pub open spec fn file_path(url: Seq<char>) -> Seq<char> {
    if url.len() >= 7 && url.subrange(0, 7) == file_scheme() {
        url.subrange(7, url.len() as int)
    } else {
        url
    }
}

/// The file system path of the file URI `url`.
pub fn file_path_of(url: &str) -> (r: String)
    ensures
        r@ == file_path(url@),
{
    let chars = chars_of(url);
    let scheme = vec!['f', 'i', 'l', 'e', ':', '/', '/'];
    assert(scheme@ == file_scheme());
    if chars.len() >= 7 && range_equals(&chars, 0, 7, &scheme) {
        string_from(&chars, 7, chars.len())
    } else {
        string_from(&chars, 0, chars.len())
    }
}

/// The name given to a workspace file whose path is not valid Unicode: its
/// folder's and its own position.
pub open spec fn placeholder_file_name(folder_index: nat, file_index: nat) -> Seq<char> {
    crate::decimal::decimal(folder_index) + seq!['-'] + crate::decimal::decimal(file_index) + seq![
        '.',
        'p',
        'u',
        'm',
        'l',
    ]
}

/// The document for a file found in a workspace folder: its URI is the file
/// path behind `file://` (a placeholder name built from the folder's and the
/// file's position when the path is not valid Unicode), its version 1.
pub fn workspace_document(
    language_id: &str,
    file_path: Option<&str>,
    folder_index: usize,
    file_index: usize,
    content: String,
) -> (r: TextDocument)
    ensures
        r.uri@ == file_scheme() + match file_path {
            Some(p) => p@,
            None => placeholder_file_name(folder_index as nat, file_index as nat),
        },
        r.language_id@ == language_id@,
        r.version == 1,
        r.text == content,
{
    let mut uri = String::from_str("file://");
    proof {
        reveal_strlit("file://");
    }
    assert(uri@ =~= file_scheme());
    match file_path {
        Some(p) => {
            uri.append(p);
        },
        None => {
            crate::decimal::push_decimal(&mut uri, folder_index as u128);
            crate::text::push_char(&mut uri, '-');
            crate::decimal::push_decimal(&mut uri, file_index as u128);
            let ext = String::from_str(".puml");
            proof {
                reveal_strlit(".puml");
            }
            uri.append(ext.as_str());
            assert(uri@ =~= file_scheme() + placeholder_file_name(folder_index as nat, file_index as nat));
        },
    }
    TextDocument { uri, language_id: String::from_str(language_id), version: 1, text: content }
}

/// A workspace document leads back to its file: the path of the URI given to
/// a workspace file found at `path` is `path` itself.
pub proof fn lemma_workspace_uri_path(path: Seq<char>)
    ensures
        file_path(file_scheme() + path) == path,
{
    let u = file_scheme() + path;
    assert(u.subrange(0, 7) =~= file_scheme());
    assert(u.subrange(7, u.len() as int) =~= path);
}

} // verus!
