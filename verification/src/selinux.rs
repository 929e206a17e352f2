//! Security labels: what is written to a file's label attribute, and what is
//! made of the bytes read from it.

use vstd::prelude::*;
use vstd::utf8::{
    decode_utf8,
    encode_utf8,
    encode_utf8_decode_utf8,
    encode_utf8_valid_utf8,
    valid_utf8,
};
use crate::defs::SELINUX_XATTR;
use crate::error::EngineError;

verus! {

/// What `String::from_utf8_lossy` makes of `bytes`.
pub uninterp spec fn utf8_lossy(bytes: Seq<u8>) -> Seq<char>;

/// `String::from_utf8_lossy`, its result owned. The result depends on the
/// bytes alone and has a name; bytes that are valid UTF-8 come out as the
/// text that they encode.
#[verifier::external_body]
fn decode_lossy(bytes: &Vec<u8>) -> (s: String)
    ensures
        s@ == utf8_lossy(bytes@),
        valid_utf8(bytes@) ==> s@ == decode_utf8(bytes@),
{
    String::from_utf8_lossy(bytes).into_owned()
}

/// The writing of an extended attribute, for the caller to perform on the
/// path itself, links not followed.
#[derive(Debug, Clone, PartialEq, Eq)]
pub struct LabelRequest {
    pub path: String,
    pub attribute: String,
    pub value: Vec<u8>,
}

impl LabelRequest {
    /// The result of the request, given whether the attribute was written.
    pub fn outcome(&self, written: bool) -> (r: Result<(), EngineError>)
        ensures
            r is Ok <==> written,
            r is Err ==> (r matches Err(EngineError::LabelUnwritable { path }) && path@
                == self.path@),
    {
        if written {
            Ok(())
        } else {
            Err(EngineError::LabelUnwritable { path: self.path.clone() })
        }
    }
}

/// Asks for the security label `con` on `path`: the bytes of `con` as the
/// value of the label attribute.
pub fn lsetfilecon(path: &str, con: &str) -> (request: LabelRequest)
    ensures
        request.path@ == path@,
        request.attribute@ == SELINUX_XATTR@,
        request.value@ == encode_utf8(con@),
{
    LabelRequest {
        path: String::from_str(path),
        attribute: String::from_str(SELINUX_XATTR),
        value: con.as_bytes_vec(),
    }
}

/// The security label of `path`, from the value of its label attribute as
/// read (`raw`; `None` where the attribute is missing or could not be read).
/// Bytes that are no UTF-8 are replaced, not refused.
pub fn lgetfilecon(path: &str, raw: Option<Vec<u8>>) -> (r: Result<String, EngineError>)
    ensures
        match raw {
            Some(bytes) => r matches Ok(con) && con@ == utf8_lossy(bytes@) && (valid_utf8(bytes@)
                ==> con@ == decode_utf8(bytes@)),
            None => r matches Err(EngineError::LabelUnreadable { path: p }) && p@ == path@,
        },
{
    match raw {
        Some(bytes) => Ok(decode_lossy(&bytes)),
        None => Err(EngineError::LabelUnreadable { path: String::from_str(path) }),
    }
}

/// A label that was written with `lsetfilecon` reads back as it was written.
pub proof fn lemma_label_round_trip(con: Seq<char>)
    ensures
        valid_utf8(encode_utf8(con)),
        decode_utf8(encode_utf8(con)) == con,
{
    encode_utf8_valid_utf8(con);
    encode_utf8_decode_utf8(con);
}

} // verus!
