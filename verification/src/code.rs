//! Short codes: six characters drawn from the 62 ASCII letters and digits.

use vstd::prelude::*;
use vstd::string::StrSliceExecFns;

verus! {

/// Number of characters in a short code.
pub const CODE_LEN: usize = 6;

/// The 62-symbol alphabet, as ASCII bytes: `A-Z` (0x41 to 0x5a), `a-z`
/// (0x61 to 0x7a), `0-9` (0x30 to 0x39).
pub open spec fn is_alphanumeric_byte(b: u8) -> bool {
    ||| 0x41 <= b <= 0x5a
    ||| 0x61 <= b <= 0x7a
    ||| 0x30 <= b <= 0x39
}

/// The 62-symbol alphabet, as characters.
pub open spec fn is_code_char(c: char) -> bool {
    ||| 'A' <= c <= 'Z'
    ||| 'a' <= c <= 'z'
    ||| '0' <= c <= '9'
}

/// A well-formed short code: exactly `CODE_LEN` characters of the alphabet.
pub open spec fn is_short_code(s: Seq<char>) -> bool {
    &&& s.len() == CODE_LEN
    &&& forall|i: int| 0 <= i < s.len() ==> is_code_char(#[trigger] s[i])
}

/// `rand::rngs::ThreadRng`, the handle to a thread's generator. It is only
/// carried from `rand::thread_rng` to the draws; nothing inside it is known.
#[verifier::external_type_specification]
#[verifier::external_body]
pub struct ExThreadRng(rand::rngs::ThreadRng);

/// `rand::thread_rng` hands out a handle to the calling thread's generator,
/// which the system seeds on first use. Nothing is claimed of the handle.
/// (Where the system has no entropy to seed it with, `rand` panics; no
/// argument decides that.)
pub assume_specification[ rand::thread_rng ]() -> (rng: rand::rngs::ThreadRng);

/// `String::push` appends the character to the end of the string and
/// changes nothing before it.
pub assume_specification[ String::push ](s: &mut String, ch: char)
    ensures
        final(s)@ == old(s)@.push(ch),
;

/// `rand::Rng::sample` with the distribution `rand::distributions::Alphanumeric`
/// returns one byte out of the 62 of `A-Z`, `a-z`, `0-9`. Which one is left
/// open: it depends on the generator's state. That the 62 are equally likely
/// is not claimed either. (The thread's generator reseeds itself from the
/// system now and then; where the system then has no entropy, `rand` panics.
/// No argument decides that.)
#[verifier::external_body]
fn sample_alphanumeric(rng: &mut rand::rngs::ThreadRng) -> (b: u8)
    ensures
        is_alphanumeric_byte(b),
{
    rand::Rng::sample(rng, rand::distributions::Alphanumeric)
}

/// The characters that a run of drawn bytes stands for: byte by byte, in
/// the order drawn.
pub open spec fn chars_of(draws: Seq<u8>) -> Seq<char> {
    Seq::new(draws.len(), |k: int| draws[k] as char)
}

/// The code that a run of drawn bytes spells: its `k`-th character is the
/// `k`-th byte drawn. Six draws from the alphabet spell a well-formed code,
/// and different draws spell different codes.
pub fn code_of_draws(draws: &Vec<u8>) -> (code: String)
    ensures
        code@ == chars_of(draws@),
        draws@.len() == CODE_LEN && (forall|k: int|
            0 <= k < draws@.len() ==> is_alphanumeric_byte(#[trigger] draws@[k]))
            ==> is_short_code(code@),
{
    let mut code = String::new();
    let mut i: usize = 0;
    while i < draws.len()
        invariant
            i <= draws@.len(),
            code@ == chars_of(draws@.take(i as int)),
        decreases draws@.len() - i,
    {
        let c = draws[i] as char;
        code.push(c);
        i += 1;
        assert(code@ =~= chars_of(draws@.take(i as int)));
    }
    assert(draws@.take(i as int) =~= draws@);
    code
}

/// Draws a candidate code: `CODE_LEN` draws from the alphabet, one after the
/// other, from the calling thread's generator, spelled by `code_of_draws`.
/// The result is always well-formed; which code comes out is up to the
/// generator.
pub fn generate_short_code() -> (code: String)
    ensures
        is_short_code(code@),
{
    let mut rng = rand::thread_rng();
    let mut draws: Vec<u8> = Vec::new();
    while draws.len() < CODE_LEN
        invariant
            draws@.len() <= CODE_LEN,
            forall|k: int| 0 <= k < draws@.len() ==> is_alphanumeric_byte(#[trigger] draws@[k]),
        decreases CODE_LEN - draws@.len(),
    {
        let b = sample_alphanumeric(&mut rng);
        draws.push(b);
    }
    code_of_draws(&draws)
}

/// Whether one character belongs to the alphabet.
pub fn is_code_char_exec(c: char) -> (ok: bool)
    ensures
        ok == is_code_char(c),
{
    ('A' <= c && c <= 'Z') || ('a' <= c && c <= 'z') || ('0' <= c && c <= '9')
}

/// Whether `s` is a well-formed short code.
pub fn is_short_code_str(s: &str) -> (ok: bool)
    ensures
        ok == is_short_code(s@),
{
    if s.unicode_len() != CODE_LEN {
        return false;
    }
    let mut i: usize = 0;
    while i < CODE_LEN
        invariant
            i <= CODE_LEN,
            s@.len() == CODE_LEN,
            forall|k: int| 0 <= k < i ==> is_code_char(#[trigger] s@[k]),
        decreases CODE_LEN - i,
    {
        let c = s.get_char(i);
        if !is_code_char_exec(c) {
            return false;
        }
        i += 1;
    }
    true
}

} // verus!
