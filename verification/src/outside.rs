//! The library's bindings to the crates it builds on: their types, declared, and thin
//! wrappers around their functions. Each doc comment says what is claimed of the outside code,
//! which is taken as given rather than proved.
use base64::Engine;
use crypto::digest::Digest;
use rand::Rng;
use vstd::prelude::*;

verus! {

/// `tokio::task::JoinHandle`, the handle of a spawned task. Opaque to the library.
#[verifier::external_type_specification]
#[verifier::external_body]
#[verifier::reject_recursive_types(T)]
pub struct ExJoinHandle<T>(tokio::task::JoinHandle<T>);

/// `tokio::task::JoinError`, what awaiting a failed task yields; named by the handle's type.
#[verifier::external_type_specification]
#[verifier::external_body]
pub struct ExJoinError(tokio::task::JoinError);

/// `JoinHandle::is_finished`: whether the task has stopped running. The answer depends on the
/// scheduler and the task's progress, so nothing is claimed of it.
#[verifier::external_body]
pub(crate) fn task_handle_is_finished(handle: &tokio::task::JoinHandle<()>) -> bool {
    handle.is_finished()
}

/// `rand::rngs::SmallRng`, the generator that draws the nonce digits. Opaque to the library.
#[verifier::external_type_specification]
#[verifier::external_body]
pub struct ExSmallRng(rand::rngs::SmallRng);

/// `Rng::random_range` over `0..bound`: a uniformly drawn value of the half-open range, which
/// panics when the range is empty. Claimed: it is below `bound`; which value comes is chance
/// and is not stated.
#[verifier::external_body]
pub(crate) fn random_below(rng: &mut rand::rngs::SmallRng, bound: u8) -> (d: u8)
    requires
        bound > 0,
    ensures
        d < bound,
{
    rng.random_range(0..bound)
}

/// The SHA-1 digest of a byte string.
pub uninterp spec fn sha1_of(data: Seq<u8>) -> Seq<u8>;

/// rust-crypto's `Sha1` fed `data` through `Digest::input` and read out with `Digest::result`.
/// Claimed: the digest is `sha1_of(data)` and, as for every SHA-1 digest, 20 bytes long.
#[verifier::external_body]
pub(crate) fn sha1_digest(data: &[u8]) -> (r: Vec<u8>)
    ensures
        r@ == sha1_of(data@),
        r@.len() == 20,
{
    let mut hasher = crypto::sha1::Sha1::new();
    hasher.input(data);
    let mut bytes = vec![0u8; hasher.output_bytes()];
    hasher.result(&mut bytes);
    bytes
}

/// The symbol of the standard base64 alphabet for a six-bit value.
pub open spec fn base64_symbol(v: int) -> char {
    if v < 26 {
        (65 + v) as char
    } else if v < 52 {
        (97 + v - 26) as char
    } else if v < 62 {
        (48 + v - 52) as char
    } else if v == 62 {
        '+'
    } else {
        '/'
    }
}

/// Standard base64 with `=` padding: each group of three bytes becomes four symbols, and a
/// last group of one or two bytes becomes two or three symbols padded to four.
pub open spec fn base64_standard(d: Seq<u8>) -> Seq<char>
    decreases d.len(),
{
    let b0 = if d.len() > 0 { d[0] as int } else { 0 };
    let b1 = if d.len() > 1 { d[1] as int } else { 0 };
    let b2 = if d.len() > 2 { d[2] as int } else { 0 };
    if d.len() == 0 {
        Seq::empty()
    } else if d.len() == 1 {
        seq![base64_symbol(b0 / 4), base64_symbol((b0 % 4) * 16), '=', '=']
    } else if d.len() == 2 {
        seq![
            base64_symbol(b0 / 4),
            base64_symbol((b0 % 4) * 16 + b1 / 16),
            base64_symbol((b1 % 16) * 4),
            '=',
        ]
    } else {
        seq![
            base64_symbol(b0 / 4),
            base64_symbol((b0 % 4) * 16 + b1 / 16),
            base64_symbol((b1 % 16) * 4 + b2 / 64),
            base64_symbol(b2 % 64),
        ] + base64_standard(d.skip(3))
    }
}

/// The base64 crate's `GeneralPurpose` engine over `alphabet::STANDARD` with the default
/// configuration (padding on), `Engine::encode`. Claimed: the text is `base64_standard(data)`.
#[verifier::external_body]
pub(crate) fn base64_encode(data: &[u8]) -> (r: String)
    ensures
        r@ == base64_standard(data@),
{
    base64::engine::GeneralPurpose::new(
        &base64::alphabet::STANDARD,
        base64::engine::GeneralPurposeConfig::default(),
    ).encode(data)
}

/// `config::ConfigError`, why a configuration could not be loaded or a setting read. Opaque.
#[verifier::external_type_specification]
#[verifier::external_body]
pub struct ExConfigError(config::ConfigError);

/// `serde_json::Value`, an arbitrary JSON document carried through untouched. Opaque.
#[verifier::external_type_specification]
#[verifier::external_body]
pub struct ExJsonValue(serde_json::Value);

} // verus!
