//! Content types that a transport can negotiate for payloads.
use vstd::prelude::*;
use vstd::string::StringSliceAdditionalSpecFns;

verus! {

/// Some common mime types supported by providers.
#[derive(Copy, Clone, Debug, PartialEq, Eq, Structural)]
pub enum MimeType {
    Cbor,
    Json,
    XwwwFormUrlencoded,
}

/// The text of a mime type, as characters.
pub open spec fn mime_text(m: MimeType) -> Seq<char> {
    match m {
        MimeType::Cbor => "application/cbor"@,
        MimeType::Json => "application/json"@,
        MimeType::XwwwFormUrlencoded => "application/x-www-form-urlencoded"@,
    }
}

/// The text of a mime type, as the bytes of its encoding (all ASCII).
pub open spec fn mime_bytes(m: MimeType) -> Seq<u8> {
    mime_text(m).map_values(|c: char| c as u8)
}

/// The result of parsing a content-type header: the first mime type, in the
/// order `Cbor`, `Json`, `XwwwFormUrlencoded`, whose text starts `s`.
pub open spec fn parse_mime(s: Seq<u8>) -> Option<MimeType> {
    if mime_bytes(MimeType::Cbor).is_prefix_of(s) {
        Some(MimeType::Cbor)
    } else if mime_bytes(MimeType::Json).is_prefix_of(s) {
        Some(MimeType::Json)
    } else if mime_bytes(MimeType::XwwwFormUrlencoded).is_prefix_of(s) {
        Some(MimeType::XwwwFormUrlencoded)
    } else {
        None
    }
}

fn has_prefix(s: &[u8], p: &[u8]) -> (r: bool)
    ensures
        r == p@.is_prefix_of(s@),
{
    if p.len() > s.len() {
        return false;
    }
    let mut i: usize = 0;
    while i < p.len()
        invariant
            p@.len() <= s@.len(),
            i <= p@.len(),
            forall|j: int| 0 <= j < i ==> p@[j] == s@[j],
        decreases p@.len() - i,
    {
        if p[i] != s[i] {
            return false;
        }
        i = i + 1;
    }
    assert(p@ =~= s@.subrange(0, p@.len() as int));
    true
}

impl MimeType {
    /// The mime type, for example `"application/cbor"`.
    pub fn as_str(self) -> (r: &'static str)
        ensures
            r@ == mime_text(self),
            r.spec_bytes() == mime_bytes(self),
    {
        match self {
            MimeType::Cbor => {
                let r = "application/cbor";
                proof {
                    reveal_strlit("application/cbor");
                    vstd::string::is_ascii_spec_bytes(r);
                    assert(r.spec_bytes() =~= mime_bytes(self));
                }
                r
            },
            MimeType::Json => {
                let r = "application/json";
                proof {
                    reveal_strlit("application/json");
                    vstd::string::is_ascii_spec_bytes(r);
                    assert(r.spec_bytes() =~= mime_bytes(self));
                }
                r
            },
            MimeType::XwwwFormUrlencoded => {
                let r = "application/x-www-form-urlencoded";
                proof {
                    reveal_strlit("application/x-www-form-urlencoded");
                    vstd::string::is_ascii_spec_bytes(r);
                    assert(r.spec_bytes() =~= mime_bytes(self));
                }
                r
            },
        }
    }

    /// Parses a content type by prefix, so that parameters such as
    /// `"; charset=utf-8"` are allowed after the mime type.
    pub fn parse(s: &str) -> (r: Option<MimeType>)
        ensures
            r == parse_mime(s.spec_bytes()),
    {
        let b = s.as_bytes();
        if has_prefix(b, MimeType::Cbor.as_str().as_bytes()) {
            Some(MimeType::Cbor)
        } else if has_prefix(b, MimeType::Json.as_str().as_bytes()) {
            Some(MimeType::Json)
        } else if has_prefix(b, MimeType::XwwwFormUrlencoded.as_str().as_bytes()) {
            Some(MimeType::XwwwFormUrlencoded)
        } else {
            None
        }
    }
}

impl core::str::FromStr for MimeType {
    type Err = ();

    fn from_str(s: &str) -> Result<Self, Self::Err> {
        match MimeType::parse(s) {
            Some(m) => Ok(m),
            None => Err(()),
        }
    }
}

} // verus!
