//! Random identifiers.
use vstd::prelude::*;

verus! {

pub open spec fn lower_hex(c: char) -> bool {
    '0' <= c <= '9' || 'a' <= c <= 'f'
}

/// `s` is a version 4 UUID in its hyphenated form: 32 lowercase hexadecimal digits in groups of
/// 8, 4, 4, 4 and 12, of which the third starts with `4` and the fourth with `8`, `9`, `a` or `b`.
pub open spec fn is_uuid_v4(s: Seq<char>) -> bool {
    &&& s.len() == 36
    &&& forall|i: int|
        0 <= i < 36 ==> if i == 8 || i == 13 || i == 18 || i == 23 {
            #[trigger] s[i] == '-'
        } else {
            lower_hex(s[i])
        }
    &&& s[14] == '4'
    &&& (s[19] == '8' || s[19] == '9' || s[19] == 'a' || s[19] == 'b')
}

/// `uuid::Uuid::new_v4`, written out: a version 4 UUID.
///
/// Which one it is rests on the random numbers of the operating system.
#[verifier::external_body]
pub(crate) fn new_uuid() -> (res: String)
    ensures
        is_uuid_v4(res@),
{
    uuid::Uuid::new_v4().to_string()
}

} // verus!
