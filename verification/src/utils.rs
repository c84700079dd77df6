//! Short-id generation and the validation rules for URLs and short ids.
use rand::distributions::Alphanumeric;
use rand::rngs::ThreadRng;
use rand::Rng;
use vstd::prelude::*;
use vstd::string::*;

use crate::text::has_prefix;
use crate::text::starts_with;

verus! {

/// The characters `A`-`Z`, `a`-`z` and `0`-`9`.
pub open spec fn ascii_alphanumeric(c: char) -> bool {
    ('a' <= c && c <= 'z') || ('A' <= c && c <= 'Z') || ('0' <= c && c <= '9')
}

/// What `char::is_alphanumeric` answers for `c`: whether Unicode counts `c`
/// as alphabetic or as numeric.
pub uninterp spec fn unicode_alphanumeric(c: char) -> bool;

/// A URL that the service accepts: one that begins with `http://` or `https://`.
pub open spec fn is_valid_url(url: Seq<char>) -> bool {
    has_prefix(url, "http://"@) || has_prefix(url, "https://"@)
}

/// Whether `char::is_alphanumeric` accepts `c`: among ASCII characters exactly
/// the letters and digits, beyond ASCII what Unicode says.
pub open spec fn is_alphanumeric_char(c: char) -> bool {
    if (c as u32) < 128 {
        ascii_alphanumeric(c)
    } else {
        unicode_alphanumeric(c)
    }
}

/// A short id that the service accepts as a custom id: every character is
/// alphanumeric (the empty id included).
pub open spec fn is_valid_short_id(id: Seq<char>) -> bool {
    forall|i: int| 0 <= i < id.len() ==> #[trigger] is_alphanumeric_char(id[i])
}

/// A short id of the kind the generator draws: `len` characters, each one an
/// ASCII letter or digit.
pub open spec fn is_generated_id(id: Seq<char>, len: nat) -> bool {
    &&& id.len() == len
    &&& forall|i: int| 0 <= i < id.len() ==> #[trigger] ascii_alphanumeric(id[i])
}

#[verifier::external_type_specification]
#[verifier::external_body]
pub struct ExThreadRng(ThreadRng);

/// `rand::thread_rng` hands out the thread-local generator; nothing is stated
/// of it (it is seeded from the operating system).
pub assume_specification[ rand::thread_rng ]() -> ThreadRng;

/// `Rng::sample` with rand's `Alphanumeric` distribution. rand's source picks
/// the byte from the table `A-Z a-z 0-9`, so the contract states that the byte
/// is an ASCII letter or digit; which one it is rests on chance and is not stated.
#[verifier::external_body]
fn sample_alphanumeric(rng: &mut ThreadRng) -> (b: u8)
    ensures
        ascii_alphanumeric(b as char),
{
    rng.sample(Alphanumeric)
}

/// `char::is_alphanumeric`. Its answer is named `unicode_alphanumeric`; the
/// contract adds, from the Unicode categories that define it, that among ASCII
/// characters exactly the letters and digits are alphanumeric. What it answers
/// for other characters (Unicode tables) is left unsaid.
#[verifier::external_body]
fn char_is_alphanumeric(c: char) -> (r: bool)
    ensures
        r == unicode_alphanumeric(c),
        (c as u32) < 128 ==> (r == ascii_alphanumeric(c)),
{
    c.is_alphanumeric()
}

/// Generate a random string of specified length for short IDs
pub fn generate_short_id(length: usize) -> (id: String)
    ensures
        is_generated_id(id@, length as nat),
{
    let mut rng = rand::thread_rng();
    let mut id = String::new();
    let mut i: usize = 0;
    while i < length
        invariant
            i <= length,
            is_generated_id(id@, i as nat),
        decreases length - i,
    {
        let b = sample_alphanumeric(&mut rng);
        id.push(b as char);
        i = i + 1;
    }
    id
}

/// Validate a URL string
pub fn validate_url(url: &str) -> (r: bool)
    ensures
        r == is_valid_url(url@),
{
    starts_with(url, "http://") || starts_with(url, "https://")
}

/// Validate a short ID (only alphanumeric characters allowed)
pub fn validate_short_id(short_id: &str) -> (r: bool)
    ensures
        r == is_valid_short_id(short_id@),
        r ==> forall|i: int| 0 <= i < short_id@.len() ==> #[trigger] is_alphanumeric_char(short_id@[i]),
        r ==> forall|i: int|
            0 <= i < short_id@.len() && (short_id@[i] as u32) < 128 ==> #[trigger] ascii_alphanumeric(
                short_id@[i],
            ),
        !r ==> exists|i: int| 0 <= i < short_id@.len() && !#[trigger] is_alphanumeric_char(short_id@[i]),
{
    let n = short_id.unicode_len();
    let mut i: usize = 0;
    while i < n
        invariant
            n == short_id@.len(),
            i <= n,
            forall|j: int| 0 <= j < i ==> #[trigger] is_alphanumeric_char(short_id@[j]),
        decreases n - i,
    {
        let c = short_id.get_char(i);
        if !char_is_alphanumeric(c) {
            assert(!is_alphanumeric_char(short_id@[i as int]));
            return false;
        }
        i = i + 1;
    }
    assert forall|i: int| 0 <= i < short_id@.len() && (short_id@[i] as u32) < 128 implies #[trigger] ascii_alphanumeric(short_id@[i]) by {
        assert(is_alphanumeric_char(short_id@[i]));
    }
    true
}

} // verus!

verus! {

/// An accepted short id holds no ASCII character but letters and digits:
/// punctuation, spaces and control characters are refused wherever they stand.
pub proof fn lemma_valid_id_ascii_chars(id: Seq<char>, i: int)
    requires
        is_valid_short_id(id),
        0 <= i < id.len(),
        (id[i] as u32) < 128,
    ensures
        ascii_alphanumeric(id[i]),
        id[i] != '.' && id[i] != '-' && id[i] != '_' && id[i] != '/' && id[i] != ' ',
{
    assert(is_alphanumeric_char(id[i]));
}

/// Every id that the generator draws is accepted as a custom id.
pub proof fn lemma_generated_id_is_valid(id: Seq<char>, len: nat)
    requires
        is_generated_id(id, len),
    ensures
        is_valid_short_id(id),
{
    assert forall|i: int| 0 <= i < id.len() implies #[trigger] is_alphanumeric_char(id[i]) by {
        assert(ascii_alphanumeric(id[i]));
    }
}

} // verus!
