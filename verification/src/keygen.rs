//! Random alphanumeric keys.

use vstd::prelude::*;
use rand::Rng;

verus! {

/// The number of symbols a key is drawn from: 26 lowercase letters and 10
/// digits.
pub const ALPHABET_SIZE: u8 = 36;

/// Whether `c` is a lowercase ASCII letter or an ASCII digit.
pub open spec fn is_key_symbol(c: char) -> bool {
    ('a' as u32 <= c as u32 && c as u32 <= 'z' as u32) || ('0' as u32 <= c as u32 && c as u32
        <= '9' as u32)
}

/// The symbol that stands for `index`: `0..26` are `'a'..='z'` and `26..36`
/// are `'0'..='9'`.
pub open spec fn spec_symbol(index: u8) -> char
    recommends
        index < ALPHABET_SIZE,
{
    if index < 26 {
        (index + 97) as u8 as char
    } else {
        (index - 26 + 48) as u8 as char
    }
}

/// Whether `key` has exactly `length` characters, each a key symbol.
pub open spec fn is_key(key: Seq<char>, length: nat) -> bool {
    &&& key.len() == length
    &&& forall|i: int| 0 <= i < key.len() ==> is_key_symbol(#[trigger] key[i])
}

/// Calls `rand::thread_rng` and draws from it with `Rng::gen_range` over
/// `0..bound`.
///
/// Trusted: the number drawn lies in the range. Which number it is depends
/// on the thread's generator, so nothing more is claimed. The outside
/// function panics on an empty range.
#[verifier::external_body]
fn random_below(bound: u8) -> (index: u8)
    requires
        bound > 0,
    ensures
        index < bound,
{
    rand::thread_rng().gen_range(0..bound)
}

/// Calls `String::push`.
///
/// Trusted: the string afterwards is the string before with `c` appended.
#[verifier::external_body]
fn push_char(s: &mut String, c: char)
    ensures
        final(s)@ == old(s)@.push(c),
{
    s.push(c)
}

/// Maps an index below the alphabet size to its symbol.
pub fn symbol(index: u8) -> (c: char)
    requires
        index < ALPHABET_SIZE,
    ensures
        c == spec_symbol(index),
        is_key_symbol(c),
{
    if index < 26 {
        (index + 97) as char
    } else {
        (index - 26 + 48) as char
    }
}

/// Draws a key of `length` symbols, each chosen independently and uniformly
/// from the alphabet.
pub fn generate_random_string(length: usize) -> (key: String)
    ensures
        is_key(key@, length as nat),
{
    let mut key = String::new();
    let mut i: usize = 0;
    while i < length
        invariant
            i <= length,
            is_key(key@, i as nat),
        decreases length - i,
    {
        let c = symbol(random_below(ALPHABET_SIZE));
        push_char(&mut key, c);
        i += 1;
    }
    key
}

/// Draws `count` keys of `length` symbols each. Keys are drawn independently:
/// the same key may occur more than once.
pub fn generate_corpus(count: usize, length: usize) -> (keys: Vec<String>)
    ensures
        keys@.len() == count,
        forall|i: int| 0 <= i < count ==> is_key((#[trigger] keys@[i])@, length as nat),
{
    let mut keys: Vec<String> = Vec::new();
    let mut i: usize = 0;
    while i < count
        invariant
            i <= count,
            keys@.len() == i,
            forall|k: int| 0 <= k < i ==> is_key((#[trigger] keys@[k])@, length as nat),
        decreases count - i,
    {
        keys.push(generate_random_string(length));
        i += 1;
    }
    keys
}

} // verus!
