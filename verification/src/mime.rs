//! The MIME data model: the value types standing between whatever builds a
//! [`RawEntity`] (the surrounding header grammar) and the resolution engine
//! that interprets one. Every field is held in owned form, so a parsed
//! structure never ties its holder to the original input buffer.

use vstd::prelude::*;

use crate::error::Error;
use crate::time::DateTime;

verus! {

/// The major content type of an entity.
#[derive(Debug, PartialEq, Clone)]
pub enum MimeType {
    Text,
    Image,
    Audio,
    Video,
    Application,
    Message,
    Multipart,
    Other(String),
}

impl MimeType {
    /// Detaches the value from any input buffer. The model stores every
    /// string in owned form already, so each variant maps to itself; the
    /// conversion is kept so that a caller can ask for an independent value
    /// explicitly.
    pub fn into_owned(self) -> (r: MimeType)
        ensures
            r == self,
    {
        match self {
            MimeType::Other(value) => MimeType::Other(value),
            MimeType::Text => MimeType::Text,
            MimeType::Image => MimeType::Image,
            MimeType::Audio => MimeType::Audio,
            MimeType::Video => MimeType::Video,
            MimeType::Application => MimeType::Application,
            MimeType::Message => MimeType::Message,
            MimeType::Multipart => MimeType::Multipart,
        }
    }

    /// A type is composite exactly when it is `Message` or `Multipart`:
    /// composite types carry nested structure rather than an opaque
    /// payload.
    pub fn is_composite_type(&self) -> (r: bool)
        ensures
            r == (self is Message || self is Multipart),
    {
        match self {
            MimeType::Message => true,
            MimeType::Multipart => true,
            MimeType::Text => false,
            MimeType::Image => false,
            MimeType::Audio => false,
            MimeType::Video => false,
            MimeType::Application => false,
            MimeType::Other(_) => false,
        }
    }
}

/// How a [`RawEntity`] asks to be displayed (RFC 2183).
#[derive(Debug, PartialEq, Clone)]
pub enum DispositionType {
    /// An inline entity.
    Inline,
    /// An attachment.
    Attachment,
    /// An unknown content-disposition, to be treated as an attachment.
    Unknown(String),
}

impl DispositionType {
    /// Detaches the value from any input buffer; each variant maps to
    /// itself since the model is owned.
    pub fn into_owned(self) -> (r: DispositionType)
        ensures
            r == self,
    {
        match self {
            DispositionType::Unknown(value) => DispositionType::Unknown(value),
            DispositionType::Inline => DispositionType::Inline,
            DispositionType::Attachment => DispositionType::Attachment,
        }
    }
}

/// Presentation metadata of a [`RawEntity`]: the disposition kind, an
/// optional filename, optional timestamps, and any disposition parameters
/// this engine does not recognize (keys lower-cased).
#[derive(Debug, PartialEq, Clone)]
pub struct Disposition {
    pub disposition_type: DispositionType,
    pub filename: Option<String>,
    pub creation_date: Option<DateTime>,
    pub modification_date: Option<DateTime>,
    pub read_date: Option<DateTime>,
    pub unstructured: Vec<(String, String)>,
}

impl Disposition {
    /// Detaches the value from any input buffer; every field maps to
    /// itself since the model is owned.
    pub fn into_owned(self) -> (r: Disposition)
        ensures
            r == self,
    {
        Disposition {
            disposition_type: self.disposition_type.into_owned(),
            filename: self.filename,
            creation_date: self.creation_date,
            modification_date: self.modification_date,
            read_date: self.read_date,
            unstructured: self.unstructured,
        }
    }
}

/// How the body bytes of an entity were encoded for transfer; drives the
/// decoding step of resolution.
#[derive(Debug, PartialEq, Clone)]
pub enum ContentTransferEncoding {
    SevenBit,
    HeightBit,
    Binary,
    QuotedPrintable,
    Base64,
    Other(String),
}

impl ContentTransferEncoding {
    /// Detaches the value from any input buffer; each variant maps to
    /// itself since the model is owned.
    pub fn into_owned(self) -> (r: ContentTransferEncoding)
        ensures
            r == self,
    {
        match self {
            ContentTransferEncoding::Other(value) => ContentTransferEncoding::Other(value),
            ContentTransferEncoding::SevenBit => ContentTransferEncoding::SevenBit,
            ContentTransferEncoding::HeightBit => ContentTransferEncoding::HeightBit,
            ContentTransferEncoding::Binary => ContentTransferEncoding::Binary,
            ContentTransferEncoding::QuotedPrintable => ContentTransferEncoding::QuotedPrintable,
            ContentTransferEncoding::Base64 => ContentTransferEncoding::Base64,
        }
    }
}

/// A generic MIME entity: structural metadata plus the raw body bytes,
/// before interpretation. `subtype` and the keys of `parameters` are held
/// in lowercase; parameter values are verbatim.
#[derive(Debug, PartialEq, Clone)]
pub struct RawEntity {
    pub mime_type: MimeType,
    /// The subtype (in lowercase).
    pub subtype: String,
    pub description: Option<String>,
    pub id: Option<(String, String)>,
    /// Parameters named in lowercase.
    pub parameters: Vec<(String, String)>,
    pub disposition: Option<Disposition>,
    /// How the body bytes were encoded for transfer.
    pub encoding: ContentTransferEncoding,
    /// The raw body of this entity, not yet decoded.
    pub value: Vec<u8>,
    pub additional_headers: Vec<(String, String)>,
}

impl RawEntity {
    /// Decodes this entity into a higher-level [`Entity`]: multipart
    /// bodies are split on their boundary, supported text is
    /// transfer-decoded and charset-resolved, and anything this engine
    /// cannot interpret further comes back untouched as
    /// [`Entity::Unknown`]. A supported but wrongly formatted entity is an
    /// error.
    pub fn parse(self) -> (r: Result<Entity, Error>)
        ensures
            crate::entity::resolve_spec(self, r),
    {
        crate::entity::resolve_entity(self)
    }

    /// The raw entity standing for one boundary-delimited section of a
    /// multipart body. Parsing the section's own header block belongs to
    /// the surrounding header grammar, outside this engine: the child
    /// carries the section's bytes verbatim, under the default metadata of
    /// RFC 2045 (text/plain in seven-bit encoding, no parameters).
    pub fn from_part_bytes(bytes: Vec<u8>) -> (r: RawEntity)
        ensures
            crate::entity::is_default_part(r, bytes@),
    {
        RawEntity {
            mime_type: MimeType::Text,
            subtype: "plain".to_owned(),
            description: None,
            id: None,
            parameters: Vec::new(),
            disposition: None,
            encoding: ContentTransferEncoding::SevenBit,
            value: bytes,
            additional_headers: Vec::new(),
        }
    }
}

/// A higher-level representation of entities, obtained with
/// [`RawEntity::parse`].
#[derive(Debug, PartialEq, Clone)]
pub enum Entity {
    /// A multipart entity: an ordered sequence of child entities, held as
    /// still-raw [`RawEntity`] values so that the caller chooses how far
    /// to resolve the tree. See the subtype for their relation.
    Multipart { subtype: String, content: Vec<RawEntity> },
    /// A decoded text entity. Supported charsets are UTF-8, US-ASCII and
    /// ISO-8859-1.
    Text { subtype: String, value: String },
    /// Any entity this engine does not interpret further, returned
    /// unmodified: unsupported is not the same condition as invalid.
    Unknown(Box<RawEntity>),
}

} // verus!
