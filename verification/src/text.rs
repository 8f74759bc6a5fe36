//! The reading of names and paths, which an object stores as
//! zero-terminated UTF-8 strings.

use vstd::prelude::*;
use vstd::slice::slice_subrange;
use vstd::slice::slice_to_vec;
use vstd::utf8::decode_utf8;
use vstd::utf8::valid_utf8;

use crate::elf::types::Shdr;
use crate::elf::types::find_cstr;
use crate::elf::types::section_cstr;
use crate::error::Error;

verus! {

/// Trusted: `String::from_utf8` of the standard library.
///
/// It succeeds exactly on bytes that are well-formed UTF-8, and the string it
/// then returns holds the characters that the bytes encode.
#[verifier::external_body]
fn string_from_utf8(bytes: Vec<u8>) -> (r: Option<String>)
    ensures
        r is Some <==> valid_utf8(bytes@),
        r matches Some(text) ==> text@ == decode_utf8(bytes@),
{
    match String::from_utf8(bytes) {
        Ok(text) => Some(text),
        Err(_) => None,
    }
}

/// The text that the bytes of a name stand for. A name that could not be read
/// or that is not UTF-8 is corrupt.
pub open spec fn decode_name(bytes: Option<Seq<u8>>) -> Result<Seq<char>, Error> {
    match bytes {
        Some(bytes) => if valid_utf8(bytes) {
            Ok(decode_utf8(bytes))
        } else {
            Err(Error::InvalidData)
        },
        None => Err(Error::InvalidData),
    }
}

/// The text at offset `off` of a section.
pub open spec fn section_text(image: Seq<u8>, sec: Shdr, off: int) -> Result<Seq<char>, Error> {
    decode_name(section_cstr(image, sec, off))
}

/// The outcome of reading a text as a mathematical value.
pub open spec fn text_result_view(r: Result<String, Error>) -> Result<Seq<char>, Error> {
    match r {
        Ok(text) => Ok(text@),
        Err(e) => Err(e),
    }
}

/// Reads the zero-terminated UTF-8 string at offset `off` of a section.
pub fn read_text(data: &[u8], sec: &Shdr, off: u64) -> (r: Result<String, Error>)
    ensures
        text_result_view(r) == section_text(data@, *sec, off as int),
{
    match find_cstr(data, sec, off) {
        None => Err(Error::InvalidData),
        Some((begin, end)) => {
            let bytes = slice_to_vec(slice_subrange(data, begin, end));
            match string_from_utf8(bytes) {
                Some(text) => Ok(text),
                None => Err(Error::InvalidData),
            }
        },
    }
}

} // verus!
