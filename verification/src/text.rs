//! Text building blocks: numbers in decimal digits, hexadecimal, letter case, message
//! authentication codes.
use hmac::Mac;
use vstd::prelude::*;

verus! {

/// The character of a decimal digit 0..=9.
pub open spec fn digit_char(d: int) -> char {
    (48 + d) as char
}

/// The decimal digits of a natural number, most significant first, without leading zeros.
pub open spec fn decimal_digits(n: nat) -> Seq<char>
    decreases n,
{
    if n < 10 {
        seq![digit_char(n as int)]
    } else {
        decimal_digits(n / 10).push(digit_char((n % 10) as int))
    }
}

/// How an integer is written: a minus sign for negatives, then its digits.
pub open spec fn integer_text(v: int) -> Seq<char> {
    if v < 0 {
        seq!['-'] + decimal_digits((-v) as nat)
    } else {
        decimal_digits(v as nat)
    }
}

/// `<i64 as Display>` through `to_string`: an optional minus sign followed by the digits.
#[verifier::external_body]
pub(crate) fn i64_text(v: i64) -> (r: String)
    ensures
        r@ == integer_text(v as int),
{
    v.to_string()
}

/// `<u64 as Display>` through `to_string`: the digits.
#[verifier::external_body]
pub(crate) fn u64_text(v: u64) -> (r: String)
    ensures
        r@ == integer_text(v as int),
{
    v.to_string()
}

/// The lowercase hexadecimal digit of 0..=15.
pub open spec fn hex_digit(d: int) -> char {
    if d < 10 {
        (48 + d) as char
    } else {
        (87 + d) as char
    }
}

/// Two lowercase hexadecimal digits per byte, high nibble first.
pub open spec fn hex_text(bytes: Seq<u8>) -> Seq<char> {
    Seq::new(
        2 * bytes.len(),
        |k: int|
            if k % 2 == 0 {
                hex_digit((bytes[k / 2] / 16) as int)
            } else {
                hex_digit((bytes[k / 2] % 16) as int)
            },
    )
}

/// `hex::encode`: two lowercase hexadecimal digits per byte, high nibble first.
#[verifier::external_body]
pub(crate) fn hex_encode(bytes: &[u8]) -> (r: String)
    ensures
        r@ == hex_text(bytes@),
{
    hex::encode(bytes)
}

/// What HMAC-SHA256 gives for a key and a message.
pub uninterp spec fn hmac_sha256_tag(key: Seq<u8>, message: Seq<u8>) -> Seq<u8>;

/// HMAC-SHA256 through `hmac::Hmac<sha2::Sha256>`: `new_from_slice` (which takes a key of any
/// length), `update` and `finalize`. The tag is named by `hmac_sha256_tag` and is 32 bytes
/// long.
#[verifier::external_body]
pub(crate) fn hmac_sha256(key: &[u8], message: &[u8]) -> (r: Vec<u8>)
    ensures
        r@ == hmac_sha256_tag(key@, message@),
        r@.len() == 32,
{
    let mut mac = hmac::Hmac::<sha2::Sha256>::new_from_slice(key).expect("any key length");
    mac.update(message);
    mac.finalize().into_bytes().to_vec()
}

/// An ASCII lowercase letter.
pub open spec fn is_ascii_lower(c: char) -> bool {
    'a' <= c <= 'z'
}

/// An ASCII uppercase letter.
pub open spec fn is_ascii_upper(c: char) -> bool {
    'A' <= c <= 'Z'
}

/// Every character is ASCII.
pub open spec fn all_ascii(s: Seq<char>) -> bool {
    forall|i: int| 0 <= i < s.len() ==> (#[trigger] s[i]) as int <= 127
}

/// ASCII text with its lowercase letters made uppercase.
pub open spec fn ascii_uppercase(s: Seq<char>) -> Seq<char> {
    s.map_values(|c: char| if is_ascii_lower(c) { ((c as int) - 32) as char } else { c })
}

/// ASCII text with its uppercase letters made lowercase.
pub open spec fn ascii_lowercase(s: Seq<char>) -> Seq<char> {
    s.map_values(|c: char| if is_ascii_upper(c) { ((c as int) + 32) as char } else { c })
}

/// What `str::to_uppercase` gives for a text.
pub uninterp spec fn unicode_uppercase(s: Seq<char>) -> Seq<char>;

/// What `str::to_lowercase` gives for a text.
pub uninterp spec fn unicode_lowercase(s: Seq<char>) -> Seq<char>;

/// `str::to_uppercase`: named by `unicode_uppercase`; on ASCII text it changes exactly the
/// lowercase letters.
#[verifier::external_body]
pub(crate) fn to_uppercase(s: &str) -> (r: String)
    ensures
        r@ == unicode_uppercase(s@),
        all_ascii(s@) ==> r@ == ascii_uppercase(s@),
{
    s.to_uppercase()
}

/// `str::to_lowercase`: named by `unicode_lowercase`; on ASCII text it changes exactly the
/// uppercase letters.
#[verifier::external_body]
pub(crate) fn to_lowercase(s: &str) -> (r: String)
    ensures
        r@ == unicode_lowercase(s@),
        all_ascii(s@) ==> r@ == ascii_lowercase(s@),
{
    s.to_lowercase()
}

/// Printable ASCII other than the double quote and the backslash.
pub open spec fn plain_printable(s: Seq<char>) -> bool {
    forall|i: int| 0 <= i < s.len() ==> 32 <= (#[trigger] s[i]) as int <= 126 && s[i] != '"'
        && s[i] != '\\'
}

/// What `<str as Debug>` writes for a text.
pub uninterp spec fn debug_text(s: Seq<char>) -> Seq<char>;

/// `<str as Debug>` through `format!("{:?}")`: the text in double quotes with escapes;
/// named by `debug_text`. Printable ASCII without quotes or backslashes is written as it
/// is, between the quotes.
#[verifier::external_body]
pub(crate) fn debug_quoted(s: &str) -> (r: String)
    ensures
        r@ == debug_text(s@),
        plain_printable(s@) ==> r@ == seq!['"'] + s@ + seq!['"'],
{
    format!("{:?}", s)
}

} // verus!
