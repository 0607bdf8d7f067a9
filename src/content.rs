//! Classification of a declared media type: an allow-listed textual kind,
//! any other declared type, or unknown when the type is missing or not text.
use crate::text::{ascii_chars, ascii_string, has_prefix, starts_with};
use vstd::prelude::*;

verus! {

/// The textual kinds that are worth searching for links.
#[derive(Debug, Clone, Copy, PartialEq, Eq)]
pub enum TextType {
    Plain,
    Html,
    Css,
    Javascript,
    Xml,
    Markdown,
    Csv,
    Richtext,
    TabSeparatedValues,
}

/// What a declared media type says about a resource.
#[derive(Debug, PartialEq, Eq)]
pub enum ContentType {
    /// One of the allow-listed textual kinds.
    Text(TextType),
    /// Any other declared type, kept as it was declared.
    Other(String),
    /// The type is missing or is not valid text.
    Unknown,
}

/// The allow-listed kind whose `text/...` name `media_type` begins with, in
/// the order of the allow-list.
pub open spec fn text_type_of(media_type: Seq<char>) -> Option<TextType> {
    if starts_with(media_type, "text/plain"@) {
        Some(TextType::Plain)
    } else if starts_with(media_type, "text/html"@) {
        Some(TextType::Html)
    } else if starts_with(media_type, "text/css"@) {
        Some(TextType::Css)
    } else if starts_with(media_type, "text/javascript"@) {
        Some(TextType::Javascript)
    } else if starts_with(media_type, "text/xml"@) {
        Some(TextType::Xml)
    } else if starts_with(media_type, "text/markdown"@) {
        Some(TextType::Markdown)
    } else if starts_with(media_type, "text/csv"@) {
        Some(TextType::Csv)
    } else if starts_with(media_type, "text/richtext"@) {
        Some(TextType::Richtext)
    } else if starts_with(media_type, "text/tab-separated-values"@) {
        Some(TextType::TabSeparatedValues)
    } else {
        None
    }
}

/// `r` is the classification of the declared type `declared`.
pub open spec fn classifies(r: ContentType, declared: Option<Seq<char>>) -> bool {
    match declared {
        None => r is Unknown,
        Some(t) => match text_type_of(t) {
            Some(k) => r == ContentType::Text(k),
            None => r matches ContentType::Other(o) && o@ == t,
        },
    }
}

/// A tab, or a printable ASCII byte from space to tilde: what a header value
/// must consist of to be read as text.
pub open spec fn is_visible_byte(b: u8) -> bool {
    (32 <= b && b <= 126) || b == 9
}

/// Every byte of `b` is visible.
pub open spec fn all_visible(b: Seq<u8>) -> bool {
    forall|i: int| 0 <= i < b.len() ==> is_visible_byte(#[trigger] b[i])
}

impl ContentType {
    /// Classifies a declared media type given as text; `None` stands for a
    /// missing header.
    pub fn from_media_type(declared: Option<&str>) -> (r: ContentType)
        ensures
            classifies(
                r,
                match declared {
                    Some(t) => Some(t@),
                    None => None,
                },
            ),
    {
        let t = match declared {
            None => {
                return ContentType::Unknown;
            },
            Some(t) => t,
        };
        if has_prefix(t, "text/plain") {
            ContentType::Text(TextType::Plain)
        } else if has_prefix(t, "text/html") {
            ContentType::Text(TextType::Html)
        } else if has_prefix(t, "text/css") {
            ContentType::Text(TextType::Css)
        } else if has_prefix(t, "text/javascript") {
            ContentType::Text(TextType::Javascript)
        } else if has_prefix(t, "text/xml") {
            ContentType::Text(TextType::Xml)
        } else if has_prefix(t, "text/markdown") {
            ContentType::Text(TextType::Markdown)
        } else if has_prefix(t, "text/csv") {
            ContentType::Text(TextType::Csv)
        } else if has_prefix(t, "text/richtext") {
            ContentType::Text(TextType::Richtext)
        } else if has_prefix(t, "text/tab-separated-values") {
            ContentType::Text(TextType::TabSeparatedValues)
        } else {
            ContentType::Other(t.to_owned())
        }
    }

    /// Classifies the bytes of a `Content-Type` header value: `Unknown` when
    /// the header is missing or holds a byte that is neither a tab nor in
    /// 32..=126, else the classification of its text.
    pub fn from_header_value(ct_value: Option<&[u8]>) -> (r: ContentType)
        ensures
            match ct_value {
                None => r is Unknown,
                Some(b) => if all_visible(b@) {
                    classifies(r, Some(ascii_chars(b@)))
                } else {
                    r is Unknown
                },
            },
    {
        let b = match ct_value {
            None => {
                return ContentType::Unknown;
            },
            Some(b) => b,
        };
        let mut bytes: Vec<u8> = Vec::new();
        let mut i: usize = 0;
        while i < b.len()
            invariant
                ct_value == Some(b),
                i <= b@.len(),
                bytes@ == b@.take(i as int),
                forall|k: int| 0 <= k < i ==> is_visible_byte(#[trigger] b@[k]),
            decreases b.len() - i,
        {
            let x = b[i];
            if !((32 <= x && x <= 126) || x == 9) {
                assert(!is_visible_byte(b@[i as int]));
                return ContentType::Unknown;
            }
            bytes.push(x);
            i = i + 1;
            assert(bytes@ =~= b@.take(i as int));
        }
        assert(bytes@ =~= b@);
        let text = ascii_string(bytes);
        ContentType::from_media_type(Some(text.as_str()))
    }

    /// Whether a resource of this type is searched for further links: only
    /// the allow-listed textual kinds are.
    pub fn is_text(&self) -> (r: bool)
        ensures
            r == (self is Text),
    {
        match self {
            ContentType::Text(_) => true,
            _ => false,
        }
    }
}

} // verus!
