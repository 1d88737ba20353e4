use crate::failure::Failure;
use vstd::prelude::*;

verus! {

/// The error that the document store's identifier parser reports.
#[verifier::external_type_specification]
#[verifier::external_body]
pub struct ExOidError(bson::oid::Error);

/// One of `0-9`, `a-f`, `A-F`.
pub open spec fn is_hex_digit(c: char) -> bool {
    ||| 48 <= c as u32 <= 57
    ||| 97 <= c as u32 <= 102
    ||| 65 <= c as u32 <= 70
}

/// The number a hexadecimal digit stands for.
pub open spec fn hex_value(c: char) -> int {
    if 48 <= c as u32 <= 57 {
        c as u32 - 48
    } else if 97 <= c as u32 <= 102 {
        c as u32 - 87
    } else {
        c as u32 - 55
    }
}

/// The text of an identifier: exactly twenty-four hexadecimal digits.
pub open spec fn is_id_text(s: Seq<char>) -> bool {
    &&& s.len() == 24
    &&& forall|i: int| 0 <= i < 24 ==> is_hex_digit(#[trigger] s[i])
}

/// The twelve bytes that an identifier's text spells, two digits to a byte,
/// the high digit first.
pub open spec fn id_bytes(s: Seq<char>) -> Seq<u8> {
    Seq::new(12, |i: int| (16 * hex_value(s[2 * i]) + hex_value(s[2 * i + 1])) as u8)
}

/// The identifier of a stored document: twelve opaque bytes.
#[derive(Debug, Clone, Copy)]
pub struct DocId {
    pub bytes: [u8; 12],
}

impl View for DocId {
    type V = Seq<u8>;

    open spec fn view(&self) -> Seq<u8> {
        self.bytes@
    }
}

/// The identifier whose bytes are the given twelve.
pub open spec fn id_from(bytes: Seq<u8>) -> DocId {
    choose|id: DocId| id@ == bytes
}

/// An identifier is the one its own bytes give.
pub proof fn lemma_id_from(id: DocId)
    ensures
        id_from(id@) == id,
{
    let other = id_from(id@);
    assert(other@ == id@);
    assert(forall|i: int| 0 <= i < 12 ==> other.bytes[i] == other@[i]);
    assert(forall|i: int| 0 <= i < 12 ==> id.bytes[i] == id@[i]);
    assert(other.bytes =~= id.bytes);
}

/// `bson::oid::ObjectId::parse_str`, handing out the bytes of the identifier.
///
/// The parser decodes the text as hexadecimal, two digits to a byte and in
/// either case of the letters, and accepts it when exactly twelve bytes come
/// out; every other text is an error.
#[verifier::external_body]
fn parse_object_id(text: &str) -> (r: Result<[u8; 12], bson::oid::Error>)
    ensures
        r is Ok <==> is_id_text(text@),
        r matches Ok(b) ==> b@ == id_bytes(text@),
{
    bson::oid::ObjectId::parse_str(text).map(|id| id.bytes())
}

impl PartialEq for DocId {
    fn eq(&self, other: &DocId) -> (b: bool) {
        self.same(other)
    }
}

impl Eq for DocId {}

impl vstd::std_specs::cmp::PartialEqSpecImpl for DocId {
    open spec fn obeys_eq_spec() -> bool {
        true
    }

    open spec fn eq_spec(&self, other: &DocId) -> bool {
        *self == *other
    }
}

impl DocId {
    /// The identifier with the given bytes.
    pub fn from_bytes(bytes: [u8; 12]) -> (id: DocId)
        ensures
            id.bytes == bytes,
    {
        DocId { bytes }
    }

    /// Reads an identifier from its text. Anything but twenty-four
    /// hexadecimal digits is `InvalidInput`.
    pub fn parse_str(text: &str) -> (r: Result<DocId, Failure>)
        ensures
            r is Ok <==> is_id_text(text@),
            r matches Ok(id) ==> id@ == id_bytes(text@) && id == id_from(id_bytes(text@)),
            r matches Err(e) ==> e == Failure::InvalidInput,
    {
        match parse_object_id(text) {
            Ok(bytes) => {
                let id = DocId { bytes };
                proof {
                    lemma_id_from(id);
                }
                Ok(id)
            },
            Err(_) => Err(Failure::InvalidInput),
        }
    }

    /// Whether two identifiers are the same.
    pub fn same(&self, other: &DocId) -> (b: bool)
        ensures
            b == (*self == *other),
    {
        let mut i: usize = 0;
        while i < 12
            invariant
                i <= 12,
                forall|k: int| 0 <= k < i ==> self.bytes[k] == other.bytes[k],
            decreases 12 - i,
        {
            if self.bytes[i] != other.bytes[i] {
                return false;
            }
            i += 1;
        }
        assert(self.bytes =~= other.bytes);
        true
    }
}

} // verus!
