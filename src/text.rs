use vstd::prelude::*;

verus! {

/// The text that the bytes encode in UTF-8, or `None` where they are not
/// valid UTF-8.
pub uninterp spec fn utf8_decoded(b: Seq<u8>) -> Option<Seq<char>>;

/// The text with its XML character and entity references replaced, or `None`
/// where it holds a reference that is not recognised.
pub uninterp spec fn unescaped(s: Seq<char>) -> Option<Seq<char>>;

/// Relies on `std::str::from_utf8`: it accepts exactly the valid UTF-8
/// sequences and then yields the text they encode.
#[verifier::external_body]
pub(crate) fn decode_utf8(bytes: &Vec<u8>) -> (r: Option<String>)
    ensures
        match r {
            Some(s) => utf8_decoded(bytes@) == Some(s@),
            None => utf8_decoded(bytes@) is None,
        },
{
    std::str::from_utf8(bytes.as_slice()).ok().map(|s| s.to_owned())
}

/// Relies on `quick_xml::escape::unescape`: it resolves the predefined XML
/// entities and numeric character references, and fails on any other.
#[verifier::external_body]
pub(crate) fn unescape_text(text: &String) -> (r: Option<String>)
    ensures
        match r {
            Some(s) => unescaped(text@) == Some(s@),
            None => unescaped(text@) is None,
        },
{
    quick_xml::escape::unescape(text.as_str()).ok().map(|c| c.into_owned())
}

/// The bytes of the tag name `dataset`.
pub open spec fn dataset_tag() -> Seq<u8> {
    seq![100u8, 97u8, 116u8, 97u8, 115u8, 101u8, 116u8]
}

/// Whether two byte strings are equal.
pub fn same_bytes(a: &Vec<u8>, b: &Vec<u8>) -> (r: bool)
    ensures
        r == (a@ == b@),
{
    if a.len() != b.len() {
        return false;
    }
    let mut i: usize = 0;
    while i < a.len()
        invariant
            0 <= i <= a@.len(),
            a@.len() == b@.len(),
            forall|j: int| 0 <= j < i ==> a@[j] == b@[j],
        decreases a@.len() - i,
    {
        if a[i] != b[i] {
            return false;
        }
        i = i + 1;
    }
    assert(a@ =~= b@);
    true
}

/// Whether the tag name is `dataset`.
pub fn is_dataset_tag(name: &Vec<u8>) -> (r: bool)
    ensures
        r == (name@ == dataset_tag()),
{
    let tag: Vec<u8> = vec![100u8, 97u8, 116u8, 97u8, 115u8, 101u8, 116u8];
    assert(tag@ =~= dataset_tag());
    same_bytes(name, &tag)
}

} // verus!
