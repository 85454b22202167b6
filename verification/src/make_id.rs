use rand::Rng;
use vstd::prelude::*;

use crate::text::push_char;

verus! {

/// The `d`-th character of the base62 alphabet `0-9A-Za-z`, for `d < 62`.
pub open spec fn base62(d: nat) -> char {
    if d < 10 {
        (('0' as nat) + d) as char
    } else if d < 36 {
        (('A' as nat) + (d - 10)) as char
    } else {
        (('a' as nat) + (d - 36)) as char
    }
}

/// Whether `c` is an ASCII digit or letter, the characters of an id.
pub open spec fn is_base62(c: char) -> bool {
    ||| '0' <= c <= '9'
    ||| 'A' <= c <= 'Z'
    ||| 'a' <= c <= 'z'
}

/// Whether `s` is an id of `size` base62 characters.
pub open spec fn is_id(s: Seq<char>, size: nat) -> bool {
    &&& s.len() == size
    &&& forall|i: int| 0 <= i < s.len() ==> is_base62(#[trigger] s[i])
}

/// A number drawn from the thread-local generator (`rand::thread_rng`,
/// then `Rng::gen::<usize>`). Nothing is promised of its value.
#[verifier::external_body]
fn random_usize() -> usize {
    rand::thread_rng().gen::<usize>()
}

/// The base62 character that the number `r` selects: `r % 62` indexes the
/// alphabet `0-9A-Za-z`.
pub fn base62_char(r: usize) -> (c: char)
    ensures
        c == base62((r % 62) as nat),
        is_base62(c),
{
    let d: u8 = (r % 62) as u8;
    if d < 10 {
        (48u8 + d) as char
    } else if d < 36 {
        (65u8 + (d - 10)) as char
    } else {
        (97u8 + (d - 36)) as char
    }
}

/// A random id of `size` characters drawn from `0-9A-Za-z`.
pub fn new_id(size: usize) -> (id: String)
    ensures
        is_id(id@, size as nat),
{
    let mut id = String::new();
    for _i in 0..size
        invariant
            is_id(id@, _i as nat),
    {
        let r = random_usize();
        push_char(&mut id, base62_char(r));
    }
    id
}

} // verus!
