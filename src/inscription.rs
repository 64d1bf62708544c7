//! The inscription data model and the content classifier.
use vstd::prelude::*;
use vstd::utf8::{decode_utf8, encode_utf8, valid_utf8};

verus! {

/// The content of an inscription, by kind.
#[derive(Debug, PartialEq, Eq)]
pub enum InscriptionType {
    /// Plain text, declared as `text/plain;charset=utf-8`.
    Text(String),
    /// An image, with its declared MIME type and raw data.
    Image { mime_type: String, data: Vec<u8> },
    /// Any other declared type; only the raw content is kept.
    Unknown(Vec<u8>),
}

/// The mathematical value of an `InscriptionType`.
pub enum ContentView {
    Text(Seq<char>),
    Image { mime_type: Seq<char>, data: Seq<u8> },
    Unknown(Seq<u8>),
}

impl View for InscriptionType {
    type V = ContentView;

    open spec fn view(&self) -> ContentView {
        match self {
            InscriptionType::Text(s) => ContentView::Text(s@),
            InscriptionType::Image { mime_type, data } => ContentView::Image {
                mime_type: mime_type@,
                data: data@,
            },
            InscriptionType::Unknown(data) => ContentView::Unknown(data@),
        }
    }
}

/// An inscription found in a transaction.
#[derive(Debug, PartialEq, Eq)]
pub struct Inscription {
    /// Identifier of the transaction that carries it.
    pub txid: String,
    pub content: InscriptionType,
}

pub struct InscriptionView {
    pub txid: Seq<char>,
    pub content: ContentView,
}

impl View for Inscription {
    type V = InscriptionView;

    open spec fn view(&self) -> InscriptionView {
        InscriptionView { txid: self.txid@, content: self.content@ }
    }
}

pub open spec fn content_view(c: Option<InscriptionType>) -> Option<ContentView> {
    match c {
        Some(t) => Some(t@),
        None => None,
    }
}

/// The one content type that is read as text.
pub open spec fn text_mime() -> Seq<u8> {
    encode_utf8("text/plain;charset=utf-8"@)
}

/// The prefix of every image content type.
pub open spec fn image_prefix() -> Seq<u8> {
    encode_utf8("image/"@)
}

pub open spec fn has_prefix(s: Seq<u8>, p: Seq<u8>) -> bool {
    p.len() <= s.len() && s.take(p.len() as int) == p
}

/// What the classifier makes of a content type and a content, both raw bytes.
pub open spec fn classify_content(content_type: Seq<u8>, content: Seq<u8>) -> Option<ContentView> {
    if !valid_utf8(content_type) {
        None
    } else if content_type == text_mime() {
        if valid_utf8(content) {
            Some(ContentView::Text(decode_utf8(content)))
        } else {
            None
        }
    } else if has_prefix(content_type, image_prefix()) {
        Some(ContentView::Image { mime_type: decode_utf8(content_type), data: content })
    } else {
        Some(ContentView::Unknown(content))
    }
}

/// Relies on `String::from_utf8`: it succeeds exactly on valid UTF-8, and the
/// string then holds the characters that the bytes encode.
#[verifier::external_body]
pub(crate) fn string_from_utf8(bytes: Vec<u8>) -> (r: Option<String>)
    ensures
        r.is_some() == valid_utf8(bytes@),
        r.is_some() ==> r.unwrap()@ == decode_utf8(bytes@),
{
    String::from_utf8(bytes).ok()
}

/// Whether `s` begins with `p`.
pub fn starts_with_bytes(s: &[u8], p: &[u8]) -> (r: bool)
    ensures
        r == has_prefix(s@, p@),
{
    if p.len() > s.len() {
        return false;
    }
    let mut i: usize = 0;
    while i < p.len()
        invariant
            p@.len() <= s@.len(),
            i <= p@.len(),
            forall|j: int| 0 <= j < i ==> s@[j] == p@[j],
        decreases p@.len() - i,
    {
        if s[i] != p[i] {
            assert(s@.take(p@.len() as int)[i as int] != p@[i as int]);
            return false;
        }
        i = i + 1;
    }
    assert(s@.take(p@.len() as int) =~= p@);
    true
}

/// Whether `s` and `t` hold the same bytes.
pub fn equal_bytes(s: &[u8], t: &[u8]) -> (r: bool)
    ensures
        r == (s@ == t@),
{
    if s.len() != t.len() {
        return false;
    }
    let r = starts_with_bytes(s, t);
    assert(s@.take(t@.len() as int) =~= s@);
    r
}

} // verus!
