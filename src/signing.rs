//! The canonical object that an outgoing request is signed over, the
//! `X-Matrix` Authorization headers that carry the signatures, and the
//! verify key that the server publishes.

use vstd::prelude::*;
use vstd::string::*;

verus! {

/// What an outgoing request is signed over. In its canonical JSON form the
/// members are sorted by name; `content` is there only for a non-empty body.
pub struct SigningEnvelope {
    pub method: String,
    /// Path and query as sent, without the host.
    pub uri: String,
    /// The sending server.
    pub origin: String,
    /// The server the request is meant for, as named (not as resolved).
    pub destination: String,
    /// The request body, a JSON document.
    pub content: Option<Vec<u8>>,
}

/// The member names of an envelope, in canonical (sorted) order.
pub open spec fn envelope_members(has_content: bool) -> Seq<Seq<char>> {
    if has_content {
        seq!["content"@, "destination"@, "method"@, "origin"@, "uri"@]
    } else {
        seq!["destination"@, "method"@, "origin"@, "uri"@]
    }
}

/// The envelope of a request: the body goes in only where it is not empty.
pub fn signing_envelope(method: &str, uri: &str, origin: &str, destination: &str, body: &Vec<u8>) -> (r:
    SigningEnvelope)
    ensures
        r.method@ == method@,
        r.uri@ == uri@,
        r.origin@ == origin@,
        r.destination@ == destination@,
        (r.content is Some) == (body@.len() > 0),
        r.content matches Some(c) ==> c@ == body@,
{
    let content = if body.len() == 0 {
        None
    } else {
        Some(body.clone())
    };
    SigningEnvelope {
        method: String::from_str(method),
        uri: String::from_str(uri),
        origin: String::from_str(origin),
        destination: String::from_str(destination),
        content,
    }
}

impl SigningEnvelope {
    /// The names of the members of this envelope, in canonical order.
    pub fn member_names(&self) -> (r: Vec<String>)
        ensures
            r@.map_values(|s: String| s@) == envelope_members(self.content is Some),
    {
        let mut names: Vec<String> = Vec::new();
        if self.content.is_some() {
            names.push(String::from_str("content"));
        }
        names.push(String::from_str("destination"));
        names.push(String::from_str("method"));
        names.push(String::from_str("origin"));
        names.push(String::from_str("uri"));
        assert(names@.map_values(|s: String| s@) =~= envelope_members(self.content is Some));
        names
    }
}

/// An envelope has the members `destination`, `method`, `origin` and `uri`,
/// and `content` exactly when the body is not empty.
pub proof fn lemma_envelope_members(body: Seq<u8>)
    ensures
        envelope_members(body.len() > 0).to_set() == if body.len() > 0 {
            set!["content"@, "destination"@, "method"@, "origin"@, "uri"@]
        } else {
            set!["destination"@, "method"@, "origin"@, "uri"@]
        },
        envelope_members(body.len() > 0).contains("content"@) == (body.len() > 0),
{
    reveal_strlit("content");
    reveal_strlit("destination");
    reveal_strlit("method");
    reveal_strlit("origin");
    reveal_strlit("uri");
    let m = envelope_members(body.len() > 0);
    if body.len() > 0 {
        assert(m[0] == "content"@);
        assert(m.to_set() =~= set!["content"@, "destination"@, "method"@, "origin"@, "uri"@]);
    } else {
        assert(m.to_set() =~= set!["destination"@, "method"@, "origin"@, "uri"@]);
        assert forall|i: int| 0 <= i < m.len() implies m[i] != "content"@ by {
            assert(m[i].len() != "content"@.len() || m[i][0] != 'c');
        }
    }
}

/// The Authorization header for one signature of a request.
pub open spec fn x_matrix_header(origin: Seq<char>, key_id: Seq<char>, signature: Seq<char>) -> Seq<
    char,
> {
    "X-Matrix origin="@ + origin + ",key=\""@ + key_id + "\",sig=\""@ + signature + "\""@
}

/// The Authorization headers for a list of `(key id, signature)` pairs.
pub open spec fn x_matrix_headers(origin: Seq<char>, signatures: Seq<(String, String)>) -> Seq<
    Seq<char>,
> {
    signatures.map_values(|p: (String, String)| x_matrix_header(origin, p.0@, p.1@))
}

/// `X-Matrix origin=<origin>,key="<key_id>",sig="<signature>"`.
pub fn authorization_header(origin: &str, key_id: &str, signature: &str) -> (r: String)
    ensures
        r@ == x_matrix_header(origin@, key_id@, signature@),
{
    String::from_str("X-Matrix origin=").concat(origin).concat(",key=\"").concat(key_id).concat(
        "\",sig=\"",
    ).concat(signature).concat("\"")
}

/// One Authorization header for each `(key id, signature)` pair, in order.
pub fn authorization_headers(origin: &str, signatures: &Vec<(String, String)>) -> (r: Vec<String>)
    ensures
        r@.map_values(|s: String| s@) == x_matrix_headers(origin@, signatures@),
{
    let mut headers: Vec<String> = Vec::new();
    let mut i: usize = 0;
    while i < signatures.len()
        invariant
            i <= signatures@.len(),
            headers@.map_values(|s: String| s@) =~= x_matrix_headers(
                origin@,
                signatures@.subrange(0, i as int),
            ),
        decreases signatures@.len() - i,
    {
        let pair = &signatures[i];
        let h = authorization_header(origin, pair.0.as_str(), pair.1.as_str());
        let ghost before = headers@;
        headers.push(h);
        assert(signatures@.subrange(0, i + 1) =~= signatures@.subrange(0, i as int).push(
            signatures@[i as int],
        ));
        assert(headers@.map_values(|s: String| s@) =~= before.map_values(|s: String| s@).push(h@));
        assert(x_matrix_headers(origin@, signatures@.subrange(0, i + 1)) =~= x_matrix_headers(
            origin@,
            signatures@.subrange(0, i as int),
        ).push(x_matrix_header(origin@, pair.0@, pair.1@)));
        i += 1;
    }
    assert(signatures@.subrange(0, i as int) =~= signatures@);
    headers
}

/// What `base64::encode_config` with `STANDARD_NO_PAD` makes of some bytes.
pub uninterp spec fn base64_unpadded(bytes: Seq<u8>) -> Seq<char>;

/// The length of unpadded base64 for `n` bytes: four characters for each
/// three bytes, and two or three for a last one or two.
pub open spec fn unpadded_len(n: nat) -> nat {
    4 * (n / 3) + if n % 3 == 0 {
        0
    } else {
        n % 3 + 1
    }
}

/// Relies on `base64::encode_config(_, base64::STANDARD_NO_PAD)`: standard
/// base64 without padding, a function of the bytes alone, of the length that
/// `base64::encoded_size` gives (it panics only where that overflows).
#[verifier::external_body]
fn encode_unpadded(bytes: &[u8]) -> (r: String)
    requires
        bytes@.len() <= usize::MAX / 2,
    ensures
        r@ == base64_unpadded(bytes@),
        r@.len() == unpadded_len(bytes@.len()),
{
    base64::encode_config(bytes, base64::STANDARD_NO_PAD)
}

/// One published verify key: its id and the public key in unpadded base64.
pub struct VerifyKeyEntry {
    pub key_id: String,
    pub key: String,
}

/// The verify key of the server's Ed25519 key pair of version `version`.
pub fn server_verify_key(version: &str, public_key: &[u8]) -> (r: VerifyKeyEntry)
    requires
        public_key@.len() <= usize::MAX / 2,
    ensures
        r.key_id@ == "ed25519:"@ + version@,
        r.key@ == base64_unpadded(public_key@),
        r.key@.len() == unpadded_len(public_key@.len()),
{
    VerifyKeyEntry { key_id: String::from_str("ed25519:").concat(version), key: encode_unpadded(public_key) }
}

/// How long a published key document stays valid, in milliseconds.
pub const KEY_VALIDITY_MS: u64 = 120_000;

/// The `valid_until_ts` of a key document issued at `now_ms`.
pub fn key_valid_until(now_ms: u64) -> (r: u64)
    requires
        now_ms <= u64::MAX - KEY_VALIDITY_MS,
    ensures
        r == now_ms + KEY_VALIDITY_MS,
{
    now_ms + KEY_VALIDITY_MS
}

} // verus!
