//! The few items of the standard library that the contracts rest on and that
//! `vstd` does not describe.

use std::path::PathBuf;
use std::string::FromUtf8Error;
use vstd::prelude::*;

verus! {

/// A path of the file system, as an opaque type.
#[verifier::external_type_specification]
#[verifier::external_body]
pub struct ExPathBuf(PathBuf);

/// `PathBuf::clone`: the copy is the same path.
pub assume_specification[ <PathBuf as Clone>::clone ](path: &PathBuf) -> (copy: PathBuf)
    ensures
        copy == *path,
;

/// The error of a conversion from UTF-8, as an opaque type.
#[verifier::external_type_specification]
#[verifier::external_body]
pub struct ExFromUtf8Error(FromUtf8Error);

/// `String::from_utf8`: succeeds on valid UTF-8 and on nothing else, and then
/// gives the characters that the bytes encode.
pub assume_specification[ String::from_utf8 ](bytes: Vec<u8>) -> (decoded: Result<
    String,
    FromUtf8Error,
>)
    ensures
        decoded is Ok <==> vstd::utf8::valid_utf8(bytes@),
        decoded matches Ok(s) ==> s@ == vstd::utf8::decode_utf8(bytes@),
;

} // verus!
