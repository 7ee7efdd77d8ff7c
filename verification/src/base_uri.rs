//! The base that relative links and images in a preview resolve against.
//!
//! A saved document resolves against the directory that holds it; an unsaved one against the
//! working directory. Either way the base ends in a path separator, so that a relative
//! reference is joined below the directory and not beside it.

use crate::text::{to_chars, Text};
use vstd::prelude::*;
use vstd::string::StringExecFns;

verus! {

/// Scheme and authority of a URI made from a directory path.
pub const FILE_URI_PREFIX: &'static str = "file://";

/// The path separator that a base ends in.
pub const SEPARATOR: char = '/';

/// Where a document is stored, as far as the preview needs it: the URI of the directory that
/// holds the document. A location without a parent directory has none.
pub struct DocumentIdentity {
    pub parent_uri: Option<String>,
}

impl DocumentIdentity {
    /// The URI of the parent directory, as plain text.
    pub open spec fn parent(&self) -> Option<Text> {
        match self.parent_uri {
            Some(uri) => Some(uri@),
            None => None,
        }
    }
}

/// `uri`, with a separator after it unless it ends in one.
pub open spec fn with_trailing_separator(uri: Text) -> Text {
    if uri.len() > 0 && uri.last() == SEPARATOR {
        uri
    } else {
        uri.push(SEPARATOR)
    }
}

/// The URI of a working directory: prefix, path, separator.
pub open spec fn working_directory_uri(path: Text) -> Text {
    FILE_URI_PREFIX@ + path + seq![SEPARATOR]
}

/// The base of a preview: that of the parent directory where the document has one, else that
/// of the working directory, else none.
pub open spec fn base_uri_of(parent: Option<Text>, working_directory: Option<Text>) -> Option<Text> {
    match parent {
        Some(uri) => Some(with_trailing_separator(uri)),
        None => match working_directory {
            Some(path) => Some(working_directory_uri(path)),
            None => None,
        },
    }
}

/// The parent URI that counts for a document: none for an unsaved document, and none for a
/// saved one without a parent directory.
pub open spec fn parent_of(identity: Option<DocumentIdentity>) -> Option<Text> {
    match identity {
        Some(id) => id.parent(),
        None => None,
    }
}

/// `uri`, with a separator after it unless it ends in one.
pub fn ensure_trailing_separator(uri: &str) -> (base: String)
    ensures
        base@ == with_trailing_separator(uri@),
{
    let chars = to_chars(uri);
    let mut base = String::from_str(uri);
    let ends_in_separator = chars.len() > 0 && chars[chars.len() - 1] == SEPARATOR;
    if !ends_in_separator {
        base.push(SEPARATOR);
    }
    base
}

/// The base that the preview of a document resolves against.
///
/// `identity` is `None` for an unsaved document. `working_directory` is the canonical path of
/// the working directory, or `None` where it cannot be had. The result is `None` only where
/// the document gives no parent directory and there is no working directory either.
pub fn base_uri_for_preview(
    identity: Option<&DocumentIdentity>,
    working_directory: Option<&str>,
) -> (base: Option<String>)
    ensures
        match base {
            Some(uri) => base_uri_of(
                match identity {
                    Some(id) => id.parent(),
                    None => None,
                },
                match working_directory {
                    Some(path) => Some(path@),
                    None => None,
                },
            ) == Some(uri@),
            None => base_uri_of(
                match identity {
                    Some(id) => id.parent(),
                    None => None,
                },
                match working_directory {
                    Some(path) => Some(path@),
                    None => None,
                },
            ) is None,
        },
        base is None <==> (match identity {
            Some(id) => id.parent() is None,
            None => true,
        }) && working_directory is None,
{
    if let Some(id) = identity {
        if let Some(uri) = &id.parent_uri {
            return Some(ensure_trailing_separator(uri.as_str()));
        }
    }
    match working_directory {
        Some(path) => {
            let mut uri = String::from_str(FILE_URI_PREFIX);
            uri.append(path);
            uri.push(SEPARATOR);
            Some(uri)
        },
        None => None,
    }
}

/// Every base ends in a separator.
pub proof fn lemma_base_ends_in_separator(parent: Option<Text>, working_directory: Option<Text>)
    ensures
        match base_uri_of(parent, working_directory) {
            Some(base) => base.len() > 0 && base.last() == SEPARATOR,
            None => true,
        },
{
}

/// The base of a saved document begins with the URI of its directory and adds at most the
/// separator; the working directory plays no part in it.
pub proof fn lemma_base_of_saved_document(uri: Text, working_directory: Option<Text>)
    ensures
        base_uri_of(Some(uri), working_directory) == Some(with_trailing_separator(uri)),
        uri.is_prefix_of(with_trailing_separator(uri)),
        with_trailing_separator(uri).len() <= uri.len() + 1,
{
    assert(with_trailing_separator(uri).subrange(0, uri.len() as int) =~= uri);
}

/// The base of an unsaved document is a file URI that ends in the path of the working
/// directory and a separator.
pub proof fn lemma_base_of_unsaved_document(path: Text)
    ensures
        base_uri_of(None, Some(path)) == Some(working_directory_uri(path)),
        FILE_URI_PREFIX@.is_prefix_of(working_directory_uri(path)),
        (path + seq![SEPARATOR]).is_suffix_of(working_directory_uri(path)),
{
    let uri = working_directory_uri(path);
    let tail = path + seq![SEPARATOR];
    assert(uri =~= FILE_URI_PREFIX@ + tail);
    assert(uri.subrange(0, FILE_URI_PREFIX@.len() as int) =~= FILE_URI_PREFIX@);
    assert(uri.subrange(uri.len() - tail.len(), uri.len() as int) =~= tail);
}

/// Adding the separator a second time changes nothing.
pub proof fn lemma_trailing_separator_is_idempotent(uri: Text)
    ensures
        with_trailing_separator(with_trailing_separator(uri)) == with_trailing_separator(uri),
{
}

} // verus!
