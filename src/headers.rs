//! Typed access to header values that hold a comma-separated list.

use vstd::prelude::*;
use vstd::utf8::{decode_utf8, encode_utf8, valid_utf8};
use crate::bytes::{split_bytes, split_pat, string_from_utf8, trim, trim_str};

verus! {

broadcast use vstd::std_specs::vec::group_vec_axioms;

/// Reads the value of a header into a typed form.
pub trait HeaderParser {
    type Value;

    fn parse(&self, s: &str) -> Option<Self::Value>;
}

/// A named header together with the parser of its value.
pub struct HTTPHeader<Parser: HeaderParser> {
    pub name: &'static str,
    pub parser: Parser,
}

impl<Parser: HeaderParser> HTTPHeader<Parser> {
    pub fn name(&self) -> (r: &str)
        ensures
            r@ == self.name@,
    {
        self.name
    }

    pub fn parse(&self, s: &str) -> Option<Parser::Value> {
        self.parser.parse(s)
    }
}

/// The items of a comma-separated list, each trimmed of white space, when all
/// are UTF-8.
pub open spec fn list_items(b: Seq<u8>) -> Option<Seq<Seq<char>>> {
    if items_valid(split_pat(b, seq![0x2cu8])) {
        Some(split_pat(b, seq![0x2cu8]).map_values(|p: Seq<u8>| trim(decode_utf8(p))))
    } else {
        None
    }
}

pub open spec fn items_valid(pieces: Seq<Seq<u8>>) -> bool {
    forall|i: int| 0 <= i < pieces.len() ==> valid_utf8(#[trigger] pieces[i])
}

/// Parses a header value as a comma-separated list.
pub struct VecHeaderParser;

impl VecHeaderParser {
    /// Splits a value at each comma and trims the items.
    pub fn split_list(s: &str) -> (r: Option<Vec<String>>)
        ensures
            r is Some <==> list_items(encode_utf8(s@)) is Some,
            r matches Some(v) ==> v@.map_values(|x: String| x@) == list_items(encode_utf8(s@))->0,
    {
        let comma = vec![0x2cu8];
        assert(comma@ == seq![0x2cu8]);
        let pieces = split_bytes(s.as_bytes(), comma.as_slice());
        let ghost ps = split_pat(encode_utf8(s@), seq![0x2cu8]);
        assert(pieces@.len() == ps.len());
        let mut items: Vec<String> = Vec::new();
        let mut i: usize = 0;
        while i < pieces.len()
            invariant
                i <= pieces@.len(),
                ps == pieces@.map_values(|l: Vec<u8>| l@),
                ps == split_pat(encode_utf8(s@), seq![0x2cu8]),
                items@.len() == i,
                forall|j: int| 0 <= j < i ==> valid_utf8(#[trigger] ps[j]),
                forall|j: int| 0 <= j < i ==> (#[trigger] items@[j])@ == trim(decode_utf8(ps[j])),
            decreases pieces@.len() - i,
        {
            assert(ps[i as int] == pieces@[i as int]@);
            match string_from_utf8(vstd::slice::slice_to_vec(pieces[i].as_slice())) {
                Some(item) => {
                    items.push(trim_str(item.as_str()).to_owned());
                },
                None => {
                    assert(!valid_utf8(ps[i as int]));
                    return None;
                },
            }
            i = i + 1;
        }
        assert(items@.map_values(|x: String| x@) =~= ps.map_values(|p: Seq<u8>| trim(decode_utf8(p))));
        Some(items)
    }
}

impl HeaderParser for VecHeaderParser {
    type Value = Vec<String>;

    fn parse(&self, s: &str) -> Option<Vec<String>> {
        VecHeaderParser::split_list(s)
    }
}

/// The `Connection` header, whose value is a list of options.
pub fn connection_header() -> (r: HTTPHeader<VecHeaderParser>)
    ensures
        r.name@ == "Connection"@,
{
    HTTPHeader { name: "Connection", parser: VecHeaderParser }
}

} // verus!
