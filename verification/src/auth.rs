//! The authorisation header the real-time service expects.
use crate::outside::{base64_encode, base64_standard, random_below, sha1_digest, sha1_of};
use crate::text::{digit_char, digit_str};
use vstd::prelude::*;
use vstd::utf8::encode_utf8;

verus! {

/// `s` without its '-' characters.
pub open spec fn without_dashes(s: Seq<char>) -> Seq<char>
    decreases s.len(),
{
    if s.len() == 0 {
        Seq::empty()
    } else if s.last() == '-' {
        without_dashes(s.drop_last())
    } else {
        without_dashes(s.drop_last()).push(s.last())
    }
}

/// The text whose SHA-1 digest is the token: the fixed prefix, the API key without its dashes
/// and the Perth date-time, separated by '-'.
pub open spec fn realtime_token(api_key: Seq<char>, datetime: Seq<char>) -> Seq<char> {
    "TrAnSpErTh"@ + "-"@ + without_dashes(api_key) + "-"@ + datetime
}

/// Decimal digits as text.
pub open spec fn digits_text(ds: Seq<u8>) -> Seq<char>
    decreases ds.len(),
{
    if ds.len() == 0 {
        Seq::empty()
    } else {
        digits_text(ds.drop_last()).push(digit_char(ds.last() as nat))
    }
}

/// The header for an API key, a Perth date-time ("%d%m%Y%H%M%S") and the nonce's digits.
pub open spec fn realtime_auth_header(api_key: Seq<char>, datetime: Seq<char>, nonce: Seq<u8>) -> Seq<
    char,
> {
    "Custom Username=PhoneApp,Nonce="@ + base64_standard(encode_utf8(digits_text(nonce) + "-"@ + datetime))
        + ",Token="@ + base64_standard(sha1_of(encode_utf8(realtime_token(api_key, datetime))))
}

/// Every value is a decimal digit.
pub open spec fn all_digits(ds: Seq<u8>) -> bool {
    forall|i: int| 0 <= i < ds.len() ==> #[trigger] ds[i] < 10
}

fn strip_dashes(s: &str) -> (r: String)
    ensures
        r@ == without_dashes(s@),
{
    let n = s.unicode_len();
    let mut out = String::new();
    let mut i: usize = 0;
    while i < n
        invariant
            n == s@.len(),
            i <= n,
            out@ == without_dashes(s@.take(i as int)),
        decreases n - i,
    {
        assert(s@.take(i + 1).drop_last() =~= s@.take(i as int));
        if s.get_char(i) != '-' {
            out.append(s.substring_char(i, i + 1));
            assert(s@.subrange(i as int, i + 1) =~= seq![s@[i as int]]);
        }
        i = i + 1;
    }
    assert(s@.take(n as int) =~= s@);
    out
}

fn digits_string(ds: &Vec<u8>) -> (r: String)
    requires
        all_digits(ds@),
    ensures
        r@ == digits_text(ds@),
{
    let mut out = String::new();
    let mut i: usize = 0;
    while i < ds.len()
        invariant
            i <= ds@.len(),
            all_digits(ds@),
            out@ == digits_text(ds@.take(i as int)),
        decreases ds@.len() - i,
    {
        assert(ds@.take(i + 1).drop_last() =~= ds@.take(i as int));
        out.append(digit_str(ds[i] as u64));
        i = i + 1;
    }
    assert(ds@.take(ds@.len() as int) =~= ds@);
    out
}

/// The header for given nonce digits.
pub fn realtime_auth_header_with_nonce(realtime_api_key: &str, datetime: &str, nonce: &Vec<u8>) -> (r:
    String)
    requires
        all_digits(nonce@),
    ensures
        r@ == realtime_auth_header(realtime_api_key@, datetime@, nonce@),
{
    let mut nonce_text = digits_string(nonce);
    nonce_text.append("-");
    nonce_text.append(datetime);
    let encoded_nonce = base64_encode(nonce_text.as_str().as_bytes());

    let mut token = String::from_str("TrAnSpErTh");
    token.append("-");
    token.append(strip_dashes(realtime_api_key).as_str());
    token.append("-");
    token.append(datetime);
    let digest = sha1_digest(token.as_str().as_bytes());
    let encoded_token = base64_encode(digest.as_slice());

    let mut header = String::from_str("Custom Username=PhoneApp,Nonce=");
    header.append(encoded_nonce.as_str());
    header.append(",Token=");
    header.append(encoded_token.as_str());
    proof {
        reveal_strlit("-");
        reveal_strlit("TrAnSpErTh");
        reveal_strlit("Custom Username=PhoneApp,Nonce=");
        reveal_strlit(",Token=");
        assert(nonce_text@ =~= digits_text(nonce@) + "-"@ + datetime@);
        assert(token@ =~= realtime_token(realtime_api_key@, datetime@));
        assert(header@ =~= realtime_auth_header(realtime_api_key@, datetime@, nonce@));
    }
    header
}

/// The header with a nonce of six digits drawn from `rng`; which digits is chance.
pub fn generate_realtime_auth_header(
    realtime_api_key: &str,
    datetime: &str,
    rng: &mut rand::rngs::SmallRng,
) -> (r: String)
    ensures
        exists|nonce: Seq<u8>|
            nonce.len() == 6 && all_digits(nonce) && r@ == realtime_auth_header(
                realtime_api_key@,
                datetime@,
                nonce,
            ),
{
    let mut nonce: Vec<u8> = Vec::new();
    let mut i: usize = 0;
    while i < 6
        invariant
            i <= 6,
            nonce@.len() == i,
            all_digits(nonce@),
        decreases 6 - i,
    {
        let d = random_below(rng, 10);
        nonce.push(d);
        i = i + 1;
    }
    realtime_auth_header_with_nonce(realtime_api_key, datetime, &nonce)
}

} // verus!
