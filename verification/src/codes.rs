//! Room code generation.
//!
//! A room code is a short human-enterable identifier: four uppercase ASCII
//! letters, each drawn uniformly at random. The generator is stateless beyond
//! its random source; uniqueness is enforced by the caller against the room
//! registry, never by the generator itself.

use vstd::prelude::*;

verus! {

/// An uppercase ASCII letter, 'A' through 'Z'.
pub open spec fn is_upper(c: char) -> bool {
    65 <= c as u32 && c as u32 <= 90
}

/// A valid room code: exactly four characters, each an uppercase letter.
pub open spec fn is_code(s: Seq<char>) -> bool {
    s.len() == 4 && forall|i: int| 0 <= i < s.len() ==> is_upper(#[trigger] s[i])
}

#[verifier::external_type_specification]
#[verifier::external_body]
pub struct ExThreadRng(rand::rngs::ThreadRng);

/// Relies on rand::thread_rng: hands back the thread-local generator.
/// Nothing is assumed about it beyond being a generator to draw from.
#[verifier::external_body]
fn fresh_rng() -> rand::rngs::ThreadRng {
    rand::thread_rng()
}

/// Relies on rand::Rng::gen_range over the nonempty range 65..91: the result
/// is uniform over that range, so at least 65 and strictly below 91. Nothing
/// more is assumed of a random draw.
#[verifier::external_body]
fn gen_upper_byte(rng: &mut rand::rngs::ThreadRng) -> (b: u8)
    ensures
        65 <= b < 91,
{
    rand::Rng::gen_range(rng, 65..91)
}

/// Relies on String::push: appends the given character to the end of the
/// string.
pub assume_specification[ String::push ](s: &mut String, ch: char)
    ensures
        final(s)@ == old(s)@.push(ch),
;

/// Draw a four-letter room code, each letter uniform over 'A'..='Z'.
pub fn gen_room_code() -> (code: String)
    ensures
        is_code(code@),
{
    let mut rng = fresh_rng();
    let mut val = String::new();
    let mut i: usize = 0;
    while i < 4
        invariant
            i <= 4,
            val@.len() == i,
            forall|k: int| 0 <= k < i ==> is_upper(#[trigger] val@[k]),
        decreases 4 - i,
    {
        let b = gen_upper_byte(&mut rng);
        val.push(b as char);
        i = i + 1;
    }
    val
}

} // verus!
