//! The fixed-capacity strings that hold the credentials.

use vstd::prelude::*;
use vstd::string::StringSliceAdditionalSpecFns;
use vstd::utf8::encode_utf8;

verus! {

/// `heapless::String`: a string of at most `N` bytes, kept in place.
#[verifier::external_type_specification]
#[verifier::external_body]
pub struct ExBoundedString<const N: usize>(heapless::String<N>);

/// The text that a string of capacity 32 holds.
pub uninterp spec fn text32(s: heapless::String<32>) -> Seq<char>;

/// The text that a string of capacity 64 holds.
pub uninterp spec fn text64(s: heapless::String<64>) -> Seq<char>;

/// `text` as a string of capacity `cap` keeps it when it is pushed onto an
/// empty one: unchanged where its UTF-8 form has at most `cap` bytes, and
/// nothing of it where it has more.
pub open spec fn fitted(text: Seq<char>, cap: nat) -> Seq<char> {
    if encode_utf8(text).len() <= cap {
        text
    } else {
        Seq::empty()
    }
}

/// `heapless::String::<32>::new`: the empty string.
#[verifier::external_body]
pub(crate) fn new32() -> (s: heapless::String<32>)
    ensures
        text32(s) == Seq::<char>::empty(),
{
    heapless::String::new()
}

/// `heapless::String::<64>::new`: the empty string.
#[verifier::external_body]
pub(crate) fn new64() -> (s: heapless::String<64>)
    ensures
        text64(s) == Seq::<char>::empty(),
{
    heapless::String::new()
}

/// `heapless::String::<32>::push_str`: appends `text` when the bytes held and
/// the bytes of `text` together are at most 32, and otherwise changes nothing
/// and returns an error.
#[verifier::external_body]
pub(crate) fn push_str32(s: &mut heapless::String<32>, text: &str) -> (pushed: Result<(), ()>)
    ensures
        pushed is Ok <==> encode_utf8(text32(*old(s))).len() + encode_utf8(text@).len() <= 32,
        pushed is Ok ==> text32(*final(s)) == text32(*old(s)) + text@,
        pushed is Err ==> text32(*final(s)) == text32(*old(s)),
{
    s.push_str(text)
}

/// `heapless::String::<64>::push_str`: appends `text` when the bytes held and
/// the bytes of `text` together are at most 64, and otherwise changes nothing
/// and returns an error.
#[verifier::external_body]
pub(crate) fn push_str64(s: &mut heapless::String<64>, text: &str) -> (pushed: Result<(), ()>)
    ensures
        pushed is Ok <==> encode_utf8(text64(*old(s))).len() + encode_utf8(text@).len() <= 64,
        pushed is Ok ==> text64(*final(s)) == text64(*old(s)) + text@,
        pushed is Err ==> text64(*final(s)) == text64(*old(s)),
{
    s.push_str(text)
}

/// `heapless::String::<32>::as_str`: the text held, which never has more
/// than 32 bytes.
#[verifier::external_body]
pub(crate) fn as_str32(s: &heapless::String<32>) -> (text: &str)
    ensures
        text@ == text32(*s),
        text.spec_bytes().len() <= 32,
{
    s.as_str()
}

/// `heapless::String::<64>::as_str`: the text held, which never has more
/// than 64 bytes.
#[verifier::external_body]
pub(crate) fn as_str64(s: &heapless::String<64>) -> (text: &str)
    ensures
        text@ == text64(*s),
        text.spec_bytes().len() <= 64,
{
    s.as_str()
}

/// A string of capacity 32 that holds `text` where it fits and nothing where
/// it does not.
pub fn bounded32(text: &str) -> (s: heapless::String<32>)
    ensures
        text32(s) == fitted(text@, 32),
{
    let mut s = new32();
    let _ = push_str32(&mut s, text);
    proof {
        assert(encode_utf8(Seq::<char>::empty()).len() == 0);
        assert(Seq::<char>::empty() + text@ =~= text@);
    }
    s
}

/// A string of capacity 64 that holds `text` where it fits and nothing where
/// it does not.
pub fn bounded64(text: &str) -> (s: heapless::String<64>)
    ensures
        text64(s) == fitted(text@, 64),
{
    let mut s = new64();
    let _ = push_str64(&mut s, text);
    proof {
        assert(encode_utf8(Seq::<char>::empty()).len() == 0);
        assert(Seq::<char>::empty() + text@ =~= text@);
    }
    s
}

} // verus!
