use vstd::prelude::*;
use ethabi::param_type::Reader;
use ethabi::{ParamType, Token};
use crate::commit::commitment_schema_names;

verus! {

/// A decoded ABI value, holding its contents as plain values.
///
/// A 256-bit word is held as four 64-bit limbs, least significant first.
pub enum AbiToken {
    Address(Vec<u8>),
    FixedBytes(Vec<u8>),
    Bytes(Vec<u8>),
    Int([u64; 4]),
    Uint([u64; 4]),
    Bool(bool),
    Text(String),
    FixedArray(Vec<AbiToken>),
    Array(Vec<AbiToken>),
    Tuple(Vec<AbiToken>),
}

/// The tokens that ethabi's decoder yields for `data` under the argument types
/// `types`, written in Solidity's notation, or `None` where the bytes do not
/// match the types.
pub uninterp spec fn abi_decoding(types: Seq<Seq<char>>, data: Seq<u8>) -> Option<Seq<AbiToken>>;

/// The text of each type name in `types`.
pub open spec fn type_names(types: Seq<String>) -> Seq<Seq<char>> {
    types.map_values(|t: String| t@)
}

#[verifier::external_type_specification]
#[verifier::external_body]
pub struct ExAbiError(ethabi::Error);

#[verifier::external_type_specification]
#[verifier::external_body]
pub struct ExToken(ethabi::Token);

/// Relies on `ethabi::decode`, with the types read by
/// `ethabi::param_type::Reader::read`: decodes `data` as the argument list
/// `types`, with the same result for the same types and bytes. Under the commit
/// schema the stored block is a static tuple of six words, read in place, and
/// the array's offset word follows it, so fewer than 224 bytes fail; every
/// array element is a dynamic tuple that takes at least one word, so the
/// decoder stops within the input.
#[verifier::external_body]
pub(crate) fn abi_decode(types: &Vec<String>, data: &Vec<u8>) -> (r: Result<Vec<AbiToken>, ethabi::Error>)
    requires
        type_names(types@) == commitment_schema_names(),
    ensures
        match r {
            Ok(tokens) => abi_decoding(type_names(types@), data@) == Some(tokens@),
            Err(_) => abi_decoding(type_names(types@), data@) is None,
        },
        data@.len() < 224 ==> r is Err,
{
    let types: Result<Vec<ParamType>, ethabi::Error> = types.iter().map(|t| Reader::read(t)).collect();
    ethabi::decode(&types?, data).map(|ts| ts.into_iter().map(AbiToken::from_token).collect())
}

impl AbiToken {
    /// The same value out of ethabi's token: one variant for one variant.
    #[verifier::external_body]
    fn from_token(t: Token) -> AbiToken {
        match t {
            Token::Address(a) => AbiToken::Address(a.0.to_vec()),
            Token::FixedBytes(b) => AbiToken::FixedBytes(b),
            Token::Bytes(b) => AbiToken::Bytes(b),
            Token::Int(u) => AbiToken::Int(u.0),
            Token::Uint(u) => AbiToken::Uint(u.0),
            Token::Bool(b) => AbiToken::Bool(b),
            Token::String(s) => AbiToken::Text(s),
            Token::FixedArray(v) => AbiToken::FixedArray(v.into_iter().map(AbiToken::from_token).collect()),
            Token::Array(v) => AbiToken::Array(v.into_iter().map(AbiToken::from_token).collect()),
            Token::Tuple(v) => AbiToken::Tuple(v.into_iter().map(AbiToken::from_token).collect()),
        }
    }
}

} // verus!
