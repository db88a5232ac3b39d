//! Bytes as text: base64 and UTF-8.
use vstd::prelude::*;
use vstd::utf8::{decode_utf8, valid_utf8};
use base64::Engine;

verus! {

/// The letter that stands for six bits. The last two of the alphabet differ between the standard
/// one and the one for addresses.
pub open spec fn base64_letter(six: int, url_safe: bool) -> char {
    if six < 26 {
        ('A' as int + six) as char
    } else if six < 52 {
        ('a' as int + six - 26) as char
    } else if six < 62 {
        ('0' as int + six - 52) as char
    } else if six == 62 {
        if url_safe {
            '-'
        } else {
            '+'
        }
    } else if url_safe {
        '_'
    } else {
        '/'
    }
}

/// Bytes in base64: four letters for every three bytes. What is left over makes two or three
/// letters, filled up with equals signs where that is asked for.
pub open spec fn base64_text(bytes: Seq<u8>, url_safe: bool, padded: bool) -> Seq<char>
    decreases bytes.len(),
{
    let l = |six: int| base64_letter(six, url_safe);
    let fill = |n: int| if padded { Seq::new(n as nat, |i: int| '=') } else { Seq::empty() };
    if bytes.len() == 0 {
        Seq::empty()
    } else if bytes.len() == 1 {
        seq![l((bytes[0] / 4) as int), l((bytes[0] % 4) * 16)] + fill(2)
    } else if bytes.len() == 2 {
        seq![
            l((bytes[0] / 4) as int),
            l((bytes[0] % 4) * 16 + bytes[1] / 16),
            l((bytes[1] % 16) * 4),
        ] + fill(1)
    } else {
        seq![
            l((bytes[0] / 4) as int),
            l((bytes[0] % 4) * 16 + bytes[1] / 16),
            l((bytes[1] % 16) * 4 + bytes[2] / 64),
            l((bytes[2] % 64) as int),
        ] + base64_text(bytes.skip(3), url_safe, padded)
    }
}

/// Standard base64, filled up to whole groups of four.
pub open spec fn standard_base64(bytes: Seq<u8>) -> Seq<char> {
    base64_text(bytes, false, true)
}

/// Base64 for addresses, without filling.
pub open spec fn url_base64(bytes: Seq<u8>) -> Seq<char> {
    base64_text(bytes, true, false)
}

proof fn lemma_letters(a: int, b: int, url_safe: bool)
    requires
        0 <= a < 64,
        0 <= b < 64,
        base64_letter(a, url_safe) == base64_letter(b, url_safe),
    ensures
        a == b,
{
}

proof fn lemma_no_filling(a: int, url_safe: bool)
    requires
        0 <= a < 64,
    ensures
        base64_letter(a, url_safe) != '=',
{
}

/// Different bytes have different encodings.
pub proof fn law_base64_tells_bytes_apart(a: Seq<u8>, b: Seq<u8>)
    requires
        standard_base64(a) == standard_base64(b),
    ensures
        a == b,
    decreases a.len(),
{
    let s = standard_base64(a);
    if a.len() == 0 || b.len() == 0 {
        assert(s.len() == 0);
        assert(a =~= b);
    } else {
        let second_a = if a.len() == 1 { (a[0] % 4) * 16 } else { (a[0] % 4) * 16 + a[1] / 16 };
        let second_b = if b.len() == 1 { (b[0] % 4) * 16 } else { (b[0] % 4) * 16 + b[1] / 16 };
        assert(s[0] == base64_letter((a[0] / 4) as int, false));
        assert(s[0] == base64_letter((b[0] / 4) as int, false));
        lemma_letters((a[0] / 4) as int, (b[0] / 4) as int, false);
        assert(s[1] == base64_letter(second_a, false));
        assert(s[1] == base64_letter(second_b, false));
        lemma_letters(second_a, second_b, false);
        assert(a[0] == b[0]);
        let third_a = if a.len() == 2 { (a[1] % 16) * 4 } else { (a[1] % 16) * 4 + a[2] / 64 };
        let third_b = if b.len() == 2 { (b[1] % 16) * 4 } else { (b[1] % 16) * 4 + b[2] / 64 };
        if a.len() == 1 {
            assert(s[2] == '=');
            if b.len() > 1 {
                assert(s[2] == base64_letter(third_b, false));
                lemma_no_filling(third_b, false);
            }
            assert(a =~= b);
        } else if b.len() == 1 {
            assert(s[2] == '=');
            assert(s[2] == base64_letter(third_a, false));
            lemma_no_filling(third_a, false);
        } else {
            assert(s[2] == base64_letter(third_a, false));
            assert(s[2] == base64_letter(third_b, false));
            lemma_letters(third_a, third_b, false);
            assert(a[1] == b[1]);
            if a.len() == 2 {
                assert(s[3] == '=');
                if b.len() > 2 {
                    assert(s[3] == base64_letter((b[2] % 64) as int, false));
                    lemma_no_filling((b[2] % 64) as int, false);
                }
                assert(a =~= b);
            } else if b.len() == 2 {
                assert(s[3] == '=');
                assert(s[3] == base64_letter((a[2] % 64) as int, false));
                lemma_no_filling((a[2] % 64) as int, false);
            } else {
                assert(s[3] == base64_letter((a[2] % 64) as int, false));
                assert(s[3] == base64_letter((b[2] % 64) as int, false));
                lemma_letters((a[2] % 64) as int, (b[2] % 64) as int, false);
                assert(a[2] == b[2]);
                assert(s.skip(4) =~= standard_base64(a.skip(3)));
                assert(s.skip(4) =~= standard_base64(b.skip(3)));
                law_base64_tells_bytes_apart(a.skip(3), b.skip(3));
                assert(a =~= a.take(3) + a.skip(3));
                assert(b =~= b.take(3) + b.skip(3));
                assert(a.take(3) =~= b.take(3));
            }
        }
    }
}

/// The bytes whose encoding a text is, where it is one.
pub open spec fn decoded_base64(text: Seq<char>) -> Option<Seq<u8>> {
    if exists|b: Seq<u8>| text == #[trigger] standard_base64(b) {
        Some(choose|b: Seq<u8>| text == #[trigger] standard_base64(b))
    } else {
        None
    }
}

/// What was encoded is what decoding gives back.
pub proof fn law_base64_reads_back(bytes: Seq<u8>)
    ensures
        decoded_base64(standard_base64(bytes)) == Some(bytes),
{
    let text = standard_base64(bytes);
    let b = choose|b: Seq<u8>| text == #[trigger] standard_base64(b);
    law_base64_tells_bytes_apart(bytes, b);
}

/// `base64`'s `STANDARD` engine, encoding.
#[verifier::external_body]
pub(crate) fn encode_standard(bytes: &[u8]) -> (r: String)
    ensures
        r@ == standard_base64(bytes@),
{
    base64::engine::general_purpose::STANDARD.encode(bytes)
}

/// `base64`'s `URL_SAFE_NO_PAD` engine, encoding.
#[verifier::external_body]
pub(crate) fn encode_url(bytes: &[u8]) -> (r: String)
    ensures
        r@ == url_base64(bytes@),
{
    base64::engine::general_purpose::URL_SAFE_NO_PAD.encode(bytes)
}

/// `base64`'s `STANDARD` engine, decoding: the bytes whose encoding this is. It takes nothing but
/// what encoding gives: neither other filling nor stray bits in the last letter.
#[verifier::external_body]
fn decode_padded(text: &str) -> (r: Option<Vec<u8>>)
    ensures
        match r {
            Some(b) => text@ == standard_base64(b@),
            None => forall|b: Seq<u8>| text@ != #[trigger] standard_base64(b),
        },
{
    base64::engine::general_purpose::STANDARD.decode(text).ok()
}

/// The bytes whose encoding a text is.
pub fn decode_standard(text: &str) -> (r: Option<Vec<u8>>)
    ensures
        match r {
            Some(b) => decoded_base64(text@) == Some(b@),
            None => decoded_base64(text@) is None,
        },
{
    match decode_padded(text) {
        Some(b) => {
            proof {
                law_base64_reads_back(b@);
            }
            Some(b)
        },
        None => None,
    }
}

/// `String::from_utf8`: the text that bytes are in UTF-8, where they are text.
#[verifier::external_body]
pub(crate) fn text_from_utf8(bytes: Vec<u8>) -> (r: Option<String>)
    ensures
        match r {
            Some(t) => valid_utf8(bytes@) && t@ == decode_utf8(bytes@),
            None => !valid_utf8(bytes@),
        },
{
    String::from_utf8(bytes).ok()
}

/// Bytes read as text come what may.
pub uninterp spec fn lossy_text(bytes: Seq<u8>) -> Seq<char>;

/// `String::from_utf8_lossy`: the text that bytes are in UTF-8, with a replacement character where
/// they are none. How many of those there are for which bytes is left to the standard library.
#[verifier::external_body]
pub(crate) fn text_from_utf8_lossy(bytes: &[u8]) -> (r: String)
    ensures
        r@ == lossy_text(bytes@),
        valid_utf8(bytes@) ==> r@ == decode_utf8(bytes@),
{
    String::from_utf8_lossy(bytes).into_owned()
}

/// Every three bytes are written as four letters, by themselves, whatever follows them.
pub proof fn law_base64_goes_three_by_three(
    a: u8,
    b: u8,
    c: u8,
    rest: Seq<u8>,
    url_safe: bool,
    padded: bool,
)
    ensures
        ({
            let all = base64_text(seq![a, b, c] + rest, url_safe, padded);
            let n = a as int * 65536 + b as int * 256 + c as int;
            &&& all.len() >= 4
            &&& all.skip(4) == base64_text(rest, url_safe, padded)
            &&& all[0] == base64_letter(n / 262144, url_safe)
            &&& all[1] == base64_letter((n / 4096) % 64, url_safe)
            &&& all[2] == base64_letter((n / 64) % 64, url_safe)
            &&& all[3] == base64_letter(n % 64, url_safe)
        }),
{
    let bytes = seq![a, b, c] + rest;
    assert(bytes.skip(3) =~= rest);
    let all = base64_text(bytes, url_safe, padded);
    assert(all.skip(4) =~= base64_text(rest, url_safe, padded));
    let n = a as int * 65536 + b as int * 256 + c as int;
    lemma_six_bits(a as int, b as int, c as int);
}

proof fn lemma_six_bits(a: int, b: int, c: int)
    requires
        0 <= a < 256,
        0 <= b < 256,
        0 <= c < 256,
    ensures
        ({
            let n = a * 65536 + b * 256 + c;
            &&& n / 262144 == a / 4
            &&& (n / 4096) % 64 == (a % 4) * 16 + b / 16
            &&& (n / 64) % 64 == (b % 16) * 4 + c / 64
            &&& n % 64 == c % 64
        }),
{
    let n = a * 65536 + b * 256 + c;
    let (ah, al) = (a / 4, a % 4);
    let (bh, bl) = (b / 16, b % 16);
    let (ch, cl) = (c / 64, c % 64);
    assert(a == ah * 4 + al && b == bh * 16 + bl && c == ch * 64 + cl);
    let low = bl * 256 + c;
    let middle = (al * 16 + bh) * 4096 + low;
    assert(n == ah * 262144 + middle);
    assert(0 <= low < 4096 && 0 <= middle < 262144);
    assert(n / 262144 == ah);
    assert(n / 4096 == ah * 64 + (al * 16 + bh));
    let last = bl * 4 + ch;
    assert(n / 64 == (ah * 64 + (al * 16 + bh)) * 64 + last);
}

/// What is left over of three bytes is filled up to four letters in the one, and left as it is in the
/// other; only the last two letters of the alphabet differ between them.
pub proof fn law_base64_is_filled_up(bytes: Seq<u8>, six: int)
    ensures
        standard_base64(bytes).len() == 4 * ((bytes.len() + 2) / 3),
        url_base64(bytes).len() == (4 * bytes.len() + 2) / 3,
        0 <= six < 62 ==> base64_letter(six, true) == base64_letter(six, false),
        base64_letter(62, false) == '+' && base64_letter(63, false) == '/',
        base64_letter(62, true) == '-' && base64_letter(63, true) == '_',
        0 <= six < 26 ==> base64_letter(six, true) as int == 65 + six,
        26 <= six < 52 ==> base64_letter(six, true) as int == 97 + (six - 26),
        52 <= six < 62 ==> base64_letter(six, true) as int == 48 + (six - 52),
    decreases bytes.len(),
{
    if bytes.len() >= 3 {
        law_base64_is_filled_up(bytes.skip(3), six);
    }
}

} // verus!
