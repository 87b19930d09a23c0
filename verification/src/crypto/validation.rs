//! Shape check of a ciphertext envelope.
//!
//! An envelope is a JSON object with a version marker `v`, an initialization
//! vector `iv`, the ciphertext `ct` and an authentication tag `tag`. The
//! server never decrypts it: it only refuses text that cannot be an envelope.

use crate::crypto::json::{json_as_str, json_get, json_members, json_parse, parse_json};
use vstd::prelude::*;
use vstd::utf8::encode_utf8;

verus! {

/// Least byte length of the initialization vector.
pub const MIN_IV_LEN: usize = 16;

/// Least byte length of the authentication tag.
pub const MIN_TAG_LEN: usize = 16;

/// What the shape check reads of one member of the envelope.
#[derive(Clone, Copy, Debug, PartialEq, Eq, Structural)]
pub enum Field {
    /// The object has no member of that name.
    Missing,
    /// The member is there and is not a JSON string.
    NotText,
    /// The member is a JSON string of this many bytes.
    Text(usize),
}

/// The four members of an envelope, as far as the shape check reads them.
#[derive(Clone, Copy, Debug, PartialEq, Eq, Structural)]
pub struct EnvelopeFields {
    pub v: Field,
    pub iv: Field,
    pub ct: Field,
    pub tag: Field,
}

/// Why a text is refused as an envelope.
#[derive(Clone, Copy, Debug, PartialEq, Eq, Structural)]
pub enum Defect {
    MissingVersion,
    MissingIv,
    MissingCiphertext,
    MissingTag,
    IvTooShort,
    IvNotText,
    CiphertextEmpty,
    CiphertextNotText,
    TagTooShort,
    TagNotText,
}

impl Defect {
    /// The reason in words, as callers are told it.
    pub open spec fn text(self) -> Seq<char> {
        match self {
            Defect::MissingVersion => "Missing 'v' (version) field"@,
            Defect::MissingIv => "Missing 'iv' (initialization vector) field"@,
            Defect::MissingCiphertext => "Missing 'ct' (ciphertext) field"@,
            Defect::MissingTag => "Missing 'tag' (authentication tag) field"@,
            Defect::IvTooShort => "IV too short"@,
            Defect::IvNotText => "'iv' must be a string"@,
            Defect::CiphertextEmpty => "Ciphertext cannot be empty"@,
            Defect::CiphertextNotText => "'ct' must be a string"@,
            Defect::TagTooShort => "Tag too short"@,
            Defect::TagNotText => "'tag' must be a string"@,
        }
    }

    /// The reason in words.
    pub fn message(&self) -> (r: String)
        ensures
            r@ == self.text(),
    {
        match self {
            Defect::MissingVersion => String::from_str("Missing 'v' (version) field"),
            Defect::MissingIv => String::from_str("Missing 'iv' (initialization vector) field"),
            Defect::MissingCiphertext => String::from_str("Missing 'ct' (ciphertext) field"),
            Defect::MissingTag => String::from_str("Missing 'tag' (authentication tag) field"),
            Defect::IvTooShort => String::from_str("IV too short"),
            Defect::IvNotText => String::from_str("'iv' must be a string"),
            Defect::CiphertextEmpty => String::from_str("Ciphertext cannot be empty"),
            Defect::CiphertextNotText => String::from_str("'ct' must be a string"),
            Defect::TagTooShort => String::from_str("Tag too short"),
            Defect::TagNotText => String::from_str("'tag' must be a string"),
        }
    }
}

/// The first defect of an envelope, if it has one. All four members must be
/// there before the type or the length of any of them is looked at.
pub open spec fn first_defect(fields: EnvelopeFields) -> Option<Defect> {
    if fields.v is Missing {
        Some(Defect::MissingVersion)
    } else if fields.iv is Missing {
        Some(Defect::MissingIv)
    } else if fields.ct is Missing {
        Some(Defect::MissingCiphertext)
    } else if fields.tag is Missing {
        Some(Defect::MissingTag)
    } else if fields.iv is NotText {
        Some(Defect::IvNotText)
    } else if fields.iv->Text_0 < MIN_IV_LEN {
        Some(Defect::IvTooShort)
    } else if fields.ct is NotText {
        Some(Defect::CiphertextNotText)
    } else if fields.ct->Text_0 == 0 {
        Some(Defect::CiphertextEmpty)
    } else if fields.tag is NotText {
        Some(Defect::TagNotText)
    } else if fields.tag->Text_0 < MIN_TAG_LEN {
        Some(Defect::TagTooShort)
    } else {
        None
    }
}

/// An envelope is well shaped when it has no defect.
pub open spec fn well_shaped(fields: EnvelopeFields) -> bool {
    first_defect(fields) is None
}

/// Checks the shape of an envelope and names its first defect.
pub fn check_fields(fields: &EnvelopeFields) -> (r: Result<(), Defect>)
    ensures
        r is Ok <==> well_shaped(*fields),
        r matches Err(defect) ==> first_defect(*fields) == Some(defect),
{
    if let Field::Missing = fields.v {
        return Err(Defect::MissingVersion);
    }
    if let Field::Missing = fields.iv {
        return Err(Defect::MissingIv);
    }
    if let Field::Missing = fields.ct {
        return Err(Defect::MissingCiphertext);
    }
    if let Field::Missing = fields.tag {
        return Err(Defect::MissingTag);
    }
    match fields.iv {
        Field::Text(len) => {
            if len < MIN_IV_LEN {
                return Err(Defect::IvTooShort);
            }
        },
        _ => {
            return Err(Defect::IvNotText);
        },
    }
    match fields.ct {
        Field::Text(len) => {
            if len == 0 {
                return Err(Defect::CiphertextEmpty);
            }
        },
        _ => {
            return Err(Defect::CiphertextNotText);
        },
    }
    match fields.tag {
        Field::Text(len) => {
            if len < MIN_TAG_LEN {
                return Err(Defect::TagTooShort);
            }
        },
        _ => {
            return Err(Defect::TagNotText);
        },
    }
    Ok(())
}

/// What the shape check reads of the member `key` of an object.
pub open spec fn field_of(members: Map<Seq<char>, Option<Seq<char>>>, key: Seq<char>) -> Field {
    if !members.dom().contains(key) {
        Field::Missing
    } else {
        match members[key] {
            Some(text) => Field::Text(encode_utf8(text).len() as usize),
            None => Field::NotText,
        }
    }
}

/// The four members of an envelope, read from the members of an object.
pub open spec fn fields_of(members: Map<Seq<char>, Option<Seq<char>>>) -> EnvelopeFields {
    EnvelopeFields {
        v: field_of(members, "v"@),
        iv: field_of(members, "iv"@),
        ct: field_of(members, "ct"@),
        tag: field_of(members, "tag"@),
    }
}

/// The verdict on a text, given what the JSON reader made of it.
pub open spec fn verdict(parsed: Result<Map<Seq<char>, Option<Seq<char>>>, Seq<char>>) -> Result<
    (),
    Seq<char>,
> {
    match parsed {
        Err(reason) => Err("Invalid JSON format: "@ + reason),
        Ok(members) => match first_defect(fields_of(members)) {
            Some(defect) => Err(defect.text()),
            None => Ok(()),
        },
    }
}

/// A result of the check with its message as a sequence of characters.
pub open spec fn outcome_text(r: Result<(), String>) -> Result<(), Seq<char>> {
    match r {
        Ok(_) => Ok(()),
        Err(message) => Err(message@),
    }
}

/// The defect of an envelope that lacks the member `key`.
pub open spec fn defect_of_missing(key: Seq<char>) -> Defect {
    if key == "v"@ {
        Defect::MissingVersion
    } else if key == "iv"@ {
        Defect::MissingIv
    } else if key == "ct"@ {
        Defect::MissingCiphertext
    } else {
        Defect::MissingTag
    }
}

/// A well-shaped envelope that loses one of its four members is refused,
/// and the defect names the member that is missing.
pub proof fn lemma_missing_field_is_named(fields: EnvelopeFields)
    requires
        well_shaped(fields),
    ensures
        first_defect(EnvelopeFields { v: Field::Missing, ..fields }) == Some(
            Defect::MissingVersion,
        ),
        first_defect(EnvelopeFields { iv: Field::Missing, ..fields }) == Some(Defect::MissingIv),
        first_defect(EnvelopeFields { ct: Field::Missing, ..fields }) == Some(
            Defect::MissingCiphertext,
        ),
        first_defect(EnvelopeFields { tag: Field::Missing, ..fields }) == Some(Defect::MissingTag),
{
}

/// A text that is an envelope is refused once one of the four members is
/// taken out of its object, with the message that names the member.
pub proof fn lemma_missing_member_is_named(
    members: Map<Seq<char>, Option<Seq<char>>>,
    key: Seq<char>,
)
    requires
        verdict(Ok(members)) is Ok,
        key == "v"@ || key == "iv"@ || key == "ct"@ || key == "tag"@,
    ensures
        verdict(Ok(members.remove(key))) == Err::<(), Seq<char>>(defect_of_missing(key).text()),
{
    reveal_strlit("v");
    reveal_strlit("iv");
    reveal_strlit("ct");
    reveal_strlit("tag");
    let fields = fields_of(members);
    let fewer = members.remove(key);
    assert("v"@.len() == 1 && "iv"@.len() == 2 && "ct"@.len() == 2 && "tag"@.len() == 3);
    assert("iv"@[0] == 'i' && "ct"@[0] == 'c');
    assert("iv"@ != "ct"@);
    lemma_missing_field_is_named(fields);
    assert forall|other: Seq<char>| other != key implies field_of(fewer, other) == field_of(
        members,
        other,
    ) by {}
    assert(field_of(fewer, key) == Field::Missing);
}

fn read_field(doc: &serde_json::Value, key: &str) -> (r: Field)
    ensures
        r == field_of(json_members(*doc), key@),
{
    match json_get(doc, key) {
        None => Field::Missing,
        Some(value) => match json_as_str(value) {
            None => Field::NotText,
            Some(text) => Field::Text(text.len()),
        },
    }
}

/// Reads the four members of an envelope from a parsed document.
pub(crate) fn read_fields(doc: &serde_json::Value) -> (r: EnvelopeFields)
    ensures
        r == fields_of(json_members(*doc)),
{
    EnvelopeFields {
        v: read_field(doc, "v"),
        iv: read_field(doc, "iv"),
        ct: read_field(doc, "ct"),
        tag: read_field(doc, "tag"),
    }
}

/// Checks that a text has the shape of an envelope, without decrypting
/// anything: it is JSON, it has the members `v`, `iv`, `ct` and `tag`, and
/// `iv`, `ct` and `tag` are strings, `iv` and `tag` of at least 16 bytes and
/// `ct` not empty. The error says in words what is wrong first.
///
/// The result depends on the text alone: checking a text twice gives the
/// same answer.
pub fn validate_encrypted_format(encrypted_data: &str) -> (r: Result<(), String>)
    ensures
        outcome_text(r) == verdict(json_parse(encrypted_data@)),
{
    match parse_json(encrypted_data) {
        Err(reason) => Err(String::from_str("Invalid JSON format: ").concat(reason.as_str())),
        Ok(doc) => {
            let fields = read_fields(&doc);
            match check_fields(&fields) {
                Ok(_) => Ok(()),
                Err(defect) => Err(defect.message()),
            }
        },
    }
}

} // verus!
