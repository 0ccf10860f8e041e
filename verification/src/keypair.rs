//! Static identity keypairs and their PEM representation.
//!
//! A keypair is the long-lived Noise identity of a participant. It is
//! stored as a PEM document of exactly three tagged blocks, in order:
//! the Noise pattern, the public key and the private key. Decoding
//! fails on any other count, order or tag, and on a pattern other than
//! the one this protocol fixes.
use vstd::prelude::*;

use crate::error::Error;
use crate::util::bytes_eq;
use vstd::string::StringSliceAdditionalSpecFns;

verus! {

/// The single Noise pattern used by every channel of this protocol.
pub open spec fn pattern_chars() -> Seq<char> {
    "Noise_KK_25519_ChaChaPoly_BLAKE2s"@
}

/// The bytes of the Noise pattern string.
pub open spec fn pattern_byte_seq() -> Seq<u8> {
    "Noise_KK_25519_ChaChaPoly_BLAKE2s".spec_bytes()
}

/// The Noise pattern in use by the protocol.
pub fn pattern() -> (r: &'static str)
    ensures
        r@ == pattern_chars(),
        r.spec_bytes() == pattern_byte_seq(),
{
    "Noise_KK_25519_ChaChaPoly_BLAKE2s"
}

/// Tag of the PEM block holding the Noise pattern.
pub open spec fn pem_pattern_tag_chars() -> Seq<char> {
    "NOISE PATTERN"@
}

/// Tag of the PEM block holding the public key.
pub open spec fn pem_public_tag_chars() -> Seq<char> {
    "NOISE PUBLIC KEY"@
}

/// Tag of the PEM block holding the private key.
pub open spec fn pem_private_tag_chars() -> Seq<char> {
    "NOISE PRIVATE KEY"@
}

/// The PEM tag for the pattern block.
pub fn pem_pattern_tag() -> (r: &'static str)
    ensures
        r@ == pem_pattern_tag_chars(),
{
    "NOISE PATTERN"
}

/// The PEM tag for the public key block.
pub fn pem_public_tag() -> (r: &'static str)
    ensures
        r@ == pem_public_tag_chars(),
{
    "NOISE PUBLIC KEY"
}

/// The PEM tag for the private key block.
pub fn pem_private_tag() -> (r: &'static str)
    ensures
        r@ == pem_private_tag_chars(),
{
    "NOISE PRIVATE KEY"
}

/// The PEM document that a list of tagged blocks renders to.
pub uninterp spec fn pem_document(blocks: Seq<(Seq<char>, Seq<u8>)>) -> Seq<char>;

/// View of a list of tagged blocks: tags as character sequences,
/// contents as byte sequences.
pub open spec fn blocks_view(blocks: Seq<(String, Vec<u8>)>) -> Seq<(Seq<char>, Seq<u8>)> {
    blocks.map_values(|b: (String, Vec<u8>)| (b.0@, b.1@))
}

/// The three tagged blocks of a keypair document: pattern, public
/// key, private key.
pub open spec fn keypair_blocks(public: Seq<u8>, private: Seq<u8>) -> Seq<(Seq<char>, Seq<u8>)> {
    seq![
        (pem_pattern_tag_chars(), pattern_byte_seq()),
        (pem_public_tag_chars(), public),
        (pem_private_tag_chars(), private),
    ]
}

/// Relies on pem::encode_many: renders each tagged block in order as
/// one PEM block of the resulting document.
#[verifier::external_body]
fn pem_encode_blocks(blocks: &Vec<(String, Vec<u8>)>) -> (r: String)
    ensures
        r@ == pem_document(blocks_view(blocks@)),
{
    let pems: Vec<pem::Pem> = blocks
        .iter()
        .map(|b| pem::Pem::new(b.0.as_str(), b.1.clone()))
        .collect();
    pem::encode_many(&pems)
}

/// Whenever the document is the rendering of a keypair's three blocks,
/// the parse result is exactly those blocks.
pub open spec fn parses_keypair_documents(
    doc: Seq<char>,
    r: Result<Vec<(String, Vec<u8>)>, Error>,
) -> bool {
    forall|public: Seq<u8>, private: Seq<u8>|
        doc == #[trigger] pem_document(keypair_blocks(public, private)) ==> (r matches Ok(v)
            && blocks_view(v@) == keypair_blocks(public, private))
}

/// Relies on pem::parse_many: a document rendered by pem::encode_many
/// parses back to the same tagged blocks, in order; in particular a
/// keypair document parses back to its three blocks.
#[verifier::external_body]
fn pem_parse_blocks(doc: &str) -> (r: Result<Vec<(String, Vec<u8>)>, Error>)
    ensures
        parses_keypair_documents(doc@, r),
{
    match pem::parse_many(doc.as_bytes()) {
        Ok(pems) => Ok(
            pems.into_iter().map(|p| (p.tag().to_owned(), p.into_contents())).collect(),
        ),
        Err(e) => Err(Error::Pem(e.to_string())),
    }
}

/// Type of supported keys.
#[derive(Debug, Copy, Clone, PartialEq, Eq, Structural)]
pub enum KeyType {
    /// Noise protocol encryption key.
    Noise,
    /// ECDSA signing key.
    Ecdsa,
    /// Ed25519 signing key.
    Ed25519,
    /// Schnorr signing key.
    Schnorr,
}

impl KeyType {
    /// The lower-case name of the key type.
    pub fn as_str(&self) -> (r: &'static str)
        ensures
            *self is Noise ==> r@ == "noise"@,
            *self is Ecdsa ==> r@ == "ecdsa"@,
            *self is Ed25519 ==> r@ == "ed25519"@,
            *self is Schnorr ==> r@ == "schnorr"@,
    {
        match self {
            KeyType::Noise => "noise",
            KeyType::Ecdsa => "ecdsa",
            KeyType::Ed25519 => "ed25519",
            KeyType::Schnorr => "schnorr",
        }
    }

    /// Parse a key type from its lower-case name; any other string is
    /// rejected as an unknown key type.
    pub fn parse(s: &str) -> (r: Result<KeyType, Error>)
        ensures
            s@ == "noise"@ ==> r == Ok::<KeyType, Error>(KeyType::Noise),
            s@ == "ecdsa"@ ==> r == Ok::<KeyType, Error>(KeyType::Ecdsa),
            s@ == "ed25519"@ ==> r == Ok::<KeyType, Error>(KeyType::Ed25519),
            s@ == "schnorr"@ ==> r == Ok::<KeyType, Error>(KeyType::Schnorr),
            s@ != "noise"@ && s@ != "ecdsa"@ && s@ != "ed25519"@ && s@ != "schnorr"@ ==> (
            r matches Err(e) && e matches Error::UnknownKeyType(t) && t@ == s@),
    {
        proof {
            reveal_strlit("noise");
            reveal_strlit("ecdsa");
            reveal_strlit("ed25519");
            reveal_strlit("schnorr");
            assert("noise"@[0] == 'n' && "ecdsa"@[0] == 'e' && "ed25519"@[0] == 'e'
                && "schnorr"@[0] == 's');
            assert("noise"@.len() == 5 && "ecdsa"@.len() == 5 && "ed25519"@.len() == 7
                && "schnorr"@.len() == 7);
            assert("ecdsa"@[1] == 'c' && "ed25519"@[1] == 'd');
            assert("noise"@[1] == 'o' && "schnorr"@[1] == 'c');
        }
        let owned = s.to_owned();
        if owned == "noise".to_owned() {
            Ok(KeyType::Noise)
        } else if owned == "ecdsa".to_owned() {
            Ok(KeyType::Ecdsa)
        } else if owned == "ed25519".to_owned() {
            Ok(KeyType::Ed25519)
        } else if owned == "schnorr".to_owned() {
            Ok(KeyType::Schnorr)
        } else {
            Err(Error::UnknownKeyType(owned))
        }
    }
}

/// Key pair used by the noise protocol.
#[derive(Clone)]
pub struct Keypair {
    private: Vec<u8>,
    public: Vec<u8>,
    key_type: KeyType,
}

/// A block list has the shape of a keypair document: exactly three
/// blocks carrying the pattern, public and private tags, in order.
pub open spec fn good_keypair_blocks(b: Seq<(Seq<char>, Seq<u8>)>) -> bool {
    &&& b.len() == 3
    &&& b[0].0 == pem_pattern_tag_chars()
    &&& b[1].0 == pem_public_tag_chars()
    &&& b[2].0 == pem_private_tag_chars()
}

/// The pattern block of a keypair-shaped block list advertises the
/// pattern this protocol uses.
pub open spec fn good_pattern_block(b: Seq<(Seq<char>, Seq<u8>)>) -> bool {
    b[0].1 == pattern_byte_seq()
}

impl Keypair {
    /// The public key bytes.
    pub closed spec fn spec_public(&self) -> Seq<u8> {
        self.public@
    }

    /// The private key bytes.
    pub closed spec fn spec_private(&self) -> Seq<u8> {
        self.private@
    }

    /// The type tag of the keypair.
    pub closed spec fn spec_key_type(&self) -> KeyType {
        self.key_type
    }

    /// Create a keypair from private and public keys.
    pub fn new(private: Vec<u8>, public: Vec<u8>, key_type: KeyType) -> (r: Self)
        ensures
            r.spec_private() == private@,
            r.spec_public() == public@,
            r.spec_key_type() == key_type,
    {
        Self { private, public, key_type }
    }

    /// Generate a new keypair using the default noise pattern.
    pub fn generate() -> (r: Result<Keypair, Error>)
        ensures
            r matches Ok(k) ==> k.spec_public().len() == 32 && k.spec_private().len() == 32
                && k.spec_key_type() == KeyType::Noise,
    {
        generate_noise_keypair()
    }

    /// Public key.
    pub fn public_key(&self) -> (r: &[u8])
        ensures
            r@ == self.spec_public(),
    {
        self.public.as_slice()
    }

    /// Private key.
    pub fn private_key(&self) -> (r: &[u8])
        ensures
            r@ == self.spec_private(),
    {
        self.private.as_slice()
    }

    /// Encode as PEM: a three-block document holding the pattern, the
    /// public key and the private key.
    pub fn encode_pem(&self) -> (r: String)
        ensures
            r@ == pem_document(keypair_blocks(self.spec_public(), self.spec_private())),
    {
        let mut blocks: Vec<(String, Vec<u8>)> = Vec::new();
        blocks.push((pem_pattern_tag().to_owned(), vstd::slice::slice_to_vec(pattern().as_bytes())));
        blocks.push((pem_public_tag().to_owned(), self.public.clone()));
        blocks.push((pem_private_tag().to_owned(), self.private.clone()));
        proof {
            assert(blocks_view(blocks@) =~= keypair_blocks(self.spec_public(), self.spec_private()));
        }
        pem_encode_blocks(&blocks)
    }

    /// Build a keypair from parsed PEM blocks. The shape is checked
    /// exactly: three blocks tagged pattern, public, private, in that
    /// order, and the pattern block must carry the protocol's pattern.
    pub fn from_blocks(blocks: Vec<(String, Vec<u8>)>) -> (r: Result<Keypair, Error>)
        ensures
            good_keypair_blocks(blocks_view(blocks@)) && good_pattern_block(blocks_view(blocks@))
                ==> (r matches Ok(k) && k.spec_public() == blocks@[1].1@ && k.spec_private()
                == blocks@[2].1@ && k.spec_key_type() == KeyType::Noise),
            good_keypair_blocks(blocks_view(blocks@)) && !good_pattern_block(
                blocks_view(blocks@),
            ) ==> (r matches Err(e) && e matches Error::PatternMismatch(p) && p@
                == pattern_chars()),
            !good_keypair_blocks(blocks_view(blocks@)) ==> r matches Err(
                Error::BadKeypairPem
            ),
    {
        if blocks.len() != 3 {
            return Err(Error::BadKeypairPem);
        }
        let tags_ok = blocks[0].0 == pem_pattern_tag().to_owned() && blocks[1].0
            == pem_public_tag().to_owned() && blocks[2].0 == pem_private_tag().to_owned();
        if !tags_ok {
            return Err(Error::BadKeypairPem);
        }
        if !bytes_eq(blocks[0].1.as_slice(), pattern().as_bytes()) {
            return Err(Error::PatternMismatch(pattern().to_owned()));
        }
        let mut blocks = blocks;
        let public_block = blocks.remove(1);
        let private_block = blocks.remove(1);
        Ok(Keypair { public: public_block.1, private: private_block.1, key_type: KeyType::Noise })
    }

    /// Decode from PEM. A document produced by `encode_pem` decodes to
    /// the keys it was encoded from, with the Noise key type.
    pub fn decode_pem(doc: &str) -> (r: Result<Keypair, Error>)
        ensures
            forall|public: Seq<u8>, private: Seq<u8>|
                doc@ == #[trigger] pem_document(keypair_blocks(public, private)) ==> (r matches Ok(
                    k,
                ) && k.spec_public() == public && k.spec_private() == private && k.spec_key_type()
                    == KeyType::Noise),
    {
        let parsed = pem_parse_blocks(doc);
        match parsed {
            Ok(blocks) => Keypair::from_blocks(blocks),
            Err(e) => Err(e),
        }
    }
}

/// Round trip at the block level: the blocks of an encoded keypair
/// document have the keypair shape, advertise the protocol pattern,
/// and carry the public and private keys unchanged.
pub proof fn lemma_keypair_blocks_round_trip(public: Seq<u8>, private: Seq<u8>)
    ensures
        good_keypair_blocks(keypair_blocks(public, private)),
        good_pattern_block(keypair_blocks(public, private)),
        keypair_blocks(public, private)[1].1 == public,
        keypair_blocks(public, private)[2].1 == private,
{
}

/// Noise handshake parameters.
#[verifier::external_type_specification]
#[verifier::external_body]
pub struct ExNoiseParams(snow::params::NoiseParams);

impl Keypair {
    /// Generate a new keypair from noise parameters.
    ///
    /// Relies on snow::Builder::generate_keypair: a fresh random
    /// keypair for the given parameters' Diffie-Hellman, 32 bytes each
    /// side for 25519.
    #[verifier::external_body]
    pub fn new_params(params: snow::params::NoiseParams) -> (r: Result<Keypair, Error>)
        ensures
            r matches Ok(k) ==> k.spec_public().len() == 32 && k.spec_private().len() == 32
                && k.spec_key_type() == KeyType::Noise,
    {
        match snow::Builder::new(params).generate_keypair() {
            Ok(k) => Ok(Keypair { private: k.private, public: k.public, key_type: KeyType::Noise }),
            Err(e) => Err(Error::Snow(format!("{}", e))),
        }
    }
}

/// Relies on snow::Builder::generate_keypair for the protocol's fixed
/// pattern: a fresh random 25519 keypair, 32 bytes each side.
#[verifier::external_body]
fn generate_noise_keypair() -> (r: Result<Keypair, Error>)
    ensures
        r matches Ok(k) ==> k.spec_public().len() == 32 && k.spec_private().len() == 32
            && k.spec_key_type() == KeyType::Noise,
{
    let params = match "Noise_KK_25519_ChaChaPoly_BLAKE2s".parse() {
        Ok(p) => p,
        Err(e) => return Err(Error::Snow(format!("{}", e))),
    };
    match snow::Builder::new(params).generate_keypair() {
        Ok(k) => Ok(Keypair { private: k.private, public: k.public, key_type: KeyType::Noise }),
        Err(e) => Err(Error::Snow(format!("{}", e))),
    }
}

} // verus!
