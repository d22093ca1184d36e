//! The homomorphic boolean operations of `tfhe` that the experiments call.
//!
//! Encryption draws fresh noise, and a gate evaluated on an encrypted input runs a
//! bootstrap whose output decrypts to the right value only with overwhelming
//! probability (the parameter sets document a failure bound, not certainty). The
//! experiments exist to observe exactly that, so nothing here promises what a
//! decryption returns. What is stated is how each ciphertext came about:
//! - `encryption_of(key, m, ct)`: `ct` is an encryption of `m` under `key`;
//! - `nand_of`, `and_of`, `or_of`, `xor_of(server, l, r, out)`: `out` is the output
//!   of that bootstrapped gate on `l` and `r` under `server`;
//! - `decrypted_bit(key, ct)`: what decrypting `ct` under `key` gives (decryption
//!   is integer arithmetic on the ciphertext and the key, nothing else).
//!
//! An [`EncryptedBit`] also carries, as ghost state, the client key it was made
//! under and the message it is meant to hold. Only the functions of this module
//! make one, so a ciphertext is always used with the keys it belongs to (tfhe
//! panics when the dimensions of a ciphertext and a key differ).
use vstd::prelude::*;
use tfhe::boolean::ciphertext::Ciphertext;
use tfhe::boolean::client_key::ClientKey;
use tfhe::boolean::parameters::{DEFAULT_PARAMETERS, PARAMETERS_ERROR_PROB_2_POW_MINUS_165, TFHE_LIB_PARAMETERS};
use tfhe::boolean::server_key::{BinaryBooleanGates, ServerKey};

verus! {

/// The secret client key of `tfhe::boolean` (opaque here).
#[verifier::external_type_specification]
#[verifier::external_body]
pub struct ExClientKey(tfhe::boolean::client_key::ClientKey);

/// The public server key of `tfhe::boolean` (opaque here).
#[verifier::external_type_specification]
#[verifier::external_body]
pub struct ExServerKey(tfhe::boolean::server_key::ServerKey);

/// A boolean ciphertext of `tfhe::boolean` (opaque here).
#[verifier::external_type_specification]
#[verifier::external_body]
pub struct ExCiphertext(tfhe::boolean::ciphertext::Ciphertext);

/// The published parameter sets of `tfhe::boolean` that the experiments use.
#[derive(Clone, Copy, Debug, PartialEq, Eq, Structural)]
pub enum ParameterSet {
    /// `DEFAULT_PARAMETERS` (documented error probability at most 2^-40).
    Default,
    /// `PARAMETERS_ERROR_PROB_2_POW_MINUS_165`.
    ErrorProb2PowMinus165,
    /// `TFHE_LIB_PARAMETERS`.
    TfheLib,
}

/// `client` was generated for the parameter set `set` (its dimensions, noise and
/// decomposition parameters are the set's), and `server` was derived from `client`.
pub uninterp spec fn keys_generated_for(set: ParameterSet, client: ClientKey, server: ServerKey) -> bool;

/// `ct` is an encryption of `message` under `key`.
pub uninterp spec fn encryption_of(key: ClientKey, message: bool, ct: Ciphertext) -> bool;

/// The boolean that decrypting `ct` under `key` gives.
pub uninterp spec fn decrypted_bit(key: ClientKey, ct: Ciphertext) -> bool;

/// `out` is the output of the bootstrapped NAND gate on `left` and `right`.
pub uninterp spec fn nand_of(server: ServerKey, left: Ciphertext, right: Ciphertext, out: Ciphertext) -> bool;

/// `out` is the output of the bootstrapped AND gate on `left` and `right`.
pub uninterp spec fn and_of(server: ServerKey, left: Ciphertext, right: Ciphertext, out: Ciphertext) -> bool;

/// `out` is the output of the bootstrapped OR gate on `left` and `right`.
pub uninterp spec fn or_of(server: ServerKey, left: Ciphertext, right: Ciphertext, out: Ciphertext) -> bool;

/// `out` is the output of the bootstrapped XOR gate on `left` and `right`.
pub uninterp spec fn xor_of(server: ServerKey, left: Ciphertext, right: Ciphertext, out: Ciphertext) -> bool;

/// Generates a key pair for a published parameter set the way
/// `tfhe::boolean::gen_keys` does: `ClientKey::new` on the set's constant, then
/// `ServerKey::new` on that client key. Nothing is claimed of the keys (they are
/// random) beyond that they were made for that set, the server key from the client
/// key; the published sets are well formed, so neither call panics.
#[verifier::external_body]
fn generate_keys(set: ParameterSet) -> (r: (ClientKey, ServerKey))
    ensures
        keys_generated_for(set, r.0, r.1),
{
    let params = match set {
        ParameterSet::Default => &DEFAULT_PARAMETERS,
        ParameterSet::ErrorProb2PowMinus165 => &PARAMETERS_ERROR_PROB_2_POW_MINUS_165,
        ParameterSet::TfheLib => &TFHE_LIB_PARAMETERS,
    };
    let client = ClientKey::new(params);
    let server = ServerKey::new(&client);
    (client, server)
}

/// Calls `ClientKey::encrypt`, which encrypts `message` under fresh random noise:
/// the result is an encryption of `message` under `client`, and nothing more is
/// claimed of it.
#[verifier::external_body]
fn encrypt_with(client: &ClientKey, message: bool) -> (r: Ciphertext)
    ensures
        encryption_of(*client, message, r),
{
    client.encrypt(message)
}

/// Calls `ClientKey::decrypt` on a ciphertext made under the same client key (a
/// ciphertext of another key can panic on a dimension check). The result is
/// `decrypted_bit` of the key and the ciphertext; whether it equals the message the
/// ciphertext is meant to hold is not claimed.
#[verifier::external_body]
fn decrypt_with(keys: &BooleanKeys, x: &EncryptedBit) -> (r: bool)
    requires
        x.key() == keys.client(),
    ensures
        r == decrypted_bit(keys.client(), x.ciphertext()),
{
    keys.client.decrypt(&x.ct)
}

/// Calls `BinaryBooleanGates::nand` on the server key, with inputs made under the
/// matching client key (others can panic on a dimension check). The result is the
/// NAND gate's output on the two ciphertexts.
#[verifier::external_body]
fn nand_with(keys: &BooleanKeys, left: &EncryptedBit, right: &EncryptedBit) -> (r: Ciphertext)
    requires
        left.key() == keys.client(),
        right.key() == keys.client(),
    ensures
        nand_of(keys.server(), left.ciphertext(), right.ciphertext(), r),
{
    keys.server.nand(&left.ct, &right.ct)
}

/// Calls `BinaryBooleanGates::and`, under the same conditions as `nand_with`.
#[verifier::external_body]
fn and_with(keys: &BooleanKeys, left: &EncryptedBit, right: &EncryptedBit) -> (r: Ciphertext)
    requires
        left.key() == keys.client(),
        right.key() == keys.client(),
    ensures
        and_of(keys.server(), left.ciphertext(), right.ciphertext(), r),
{
    keys.server.and(&left.ct, &right.ct)
}

/// Calls `BinaryBooleanGates::or`, under the same conditions as `nand_with`.
#[verifier::external_body]
fn or_with(keys: &BooleanKeys, left: &EncryptedBit, right: &EncryptedBit) -> (r: Ciphertext)
    requires
        left.key() == keys.client(),
        right.key() == keys.client(),
    ensures
        or_of(keys.server(), left.ciphertext(), right.ciphertext(), r),
{
    keys.server.or(&left.ct, &right.ct)
}

/// Calls `BinaryBooleanGates::xor`, under the same conditions as `nand_with`.
#[verifier::external_body]
fn xor_with(keys: &BooleanKeys, left: &EncryptedBit, right: &EncryptedBit) -> (r: Ciphertext)
    requires
        left.key() == keys.client(),
        right.key() == keys.client(),
    ensures
        xor_of(keys.server(), left.ciphertext(), right.ciphertext(), r),
{
    keys.server.xor(&left.ct, &right.ct)
}

/// A client key together with the server key derived from it, for a published
/// parameter set.
pub struct BooleanKeys {
    client: ClientKey,
    server: ServerKey,
    set: Ghost<ParameterSet>,
}

/// A ciphertext, with the client key it was made under and the message it is
/// meant to hold.
pub struct EncryptedBit {
    ct: Ciphertext,
    message: Ghost<bool>,
    key: Ghost<ClientKey>,
}

/// The boolean a decryption returned, with the ciphertext that was decrypted and
/// the message that ciphertext was meant to hold.
#[derive(Clone, Copy)]
pub struct Decryption {
    value: bool,
    message: Ghost<bool>,
    source: Ghost<Ciphertext>,
}

impl EncryptedBit {
    /// The tfhe ciphertext.
    pub closed spec fn ciphertext(&self) -> Ciphertext {
        self.ct
    }

    /// The message this ciphertext is meant to hold.
    pub closed spec fn message(&self) -> bool {
        self.message@
    }

    /// The client key this ciphertext was made under.
    pub closed spec fn key(&self) -> ClientKey {
        self.key@
    }
}

impl Decryption {
    /// What the decryption returned.
    pub closed spec fn decrypted(&self) -> bool {
        self.value
    }

    /// The ciphertext that was decrypted.
    pub closed spec fn source(&self) -> Ciphertext {
        self.source@
    }

    /// The message the decrypted ciphertext was meant to hold.
    pub closed spec fn message(&self) -> bool {
        self.message@
    }

    /// What the decryption returned.
    pub fn value(&self) -> (r: bool)
        ensures
            r == self.decrypted(),
    {
        self.value
    }
}

impl BooleanKeys {
    /// The client key of the pair.
    pub closed spec fn client(&self) -> ClientKey {
        self.client
    }

    /// The server key of the pair.
    pub closed spec fn server(&self) -> ServerKey {
        self.server
    }

    /// The parameter set the keys were generated for.
    pub closed spec fn parameters(&self) -> ParameterSet {
        self.set@
    }

    /// Generates a client key for a published parameter set and the server key
    /// derived from it.
    pub fn generate(set: ParameterSet) -> (keys: Self)
        ensures
            keys.parameters() == set,
            keys_generated_for(set, keys.client(), keys.server()),
    {
        let (client, server) = generate_keys(set);
        BooleanKeys { client, server, set: Ghost(set) }
    }

    /// Encrypts `message` under the client key.
    pub fn encrypt(&self, message: bool) -> (r: EncryptedBit)
        ensures
            encryption_of(self.client(), message, r.ciphertext()),
            r.message() == message,
            r.key() == self.client(),
    {
        let ct = encrypt_with(&self.client, message);
        EncryptedBit { ct, message: Ghost(message), key: Ghost(self.client) }
    }

    /// Decrypts `x`, a ciphertext of this key pair.
    pub fn decrypt(&self, x: &EncryptedBit) -> (r: Decryption)
        requires
            x.key() == self.client(),
        ensures
            r.decrypted() == decrypted_bit(self.client(), x.ciphertext()),
            r.source() == x.ciphertext(),
            r.message() == x.message(),
    {
        let value = decrypt_with(self, x);
        Decryption { value, message: Ghost(x.message()), source: Ghost(x.ciphertext()) }
    }

    /// Evaluates a bootstrapped NAND gate on two ciphertexts of this key pair.
    pub fn nand(&self, left: &EncryptedBit, right: &EncryptedBit) -> (r: EncryptedBit)
        requires
            left.key() == self.client(),
            right.key() == self.client(),
        ensures
            nand_of(self.server(), left.ciphertext(), right.ciphertext(), r.ciphertext()),
            r.message() == !(left.message() && right.message()),
            r.key() == self.client(),
    {
        let ct = nand_with(self, left, right);
        let ghost m = !(left.message() && right.message());
        EncryptedBit { ct, message: Ghost(m), key: Ghost(self.client) }
    }

    /// Evaluates a bootstrapped AND gate on two ciphertexts of this key pair.
    pub fn and(&self, left: &EncryptedBit, right: &EncryptedBit) -> (r: EncryptedBit)
        requires
            left.key() == self.client(),
            right.key() == self.client(),
        ensures
            and_of(self.server(), left.ciphertext(), right.ciphertext(), r.ciphertext()),
            r.message() == (left.message() && right.message()),
            r.key() == self.client(),
    {
        let ct = and_with(self, left, right);
        let ghost m = (left.message() && right.message());
        EncryptedBit { ct, message: Ghost(m), key: Ghost(self.client) }
    }

    /// Evaluates a bootstrapped OR gate on two ciphertexts of this key pair.
    pub fn or(&self, left: &EncryptedBit, right: &EncryptedBit) -> (r: EncryptedBit)
        requires
            left.key() == self.client(),
            right.key() == self.client(),
        ensures
            or_of(self.server(), left.ciphertext(), right.ciphertext(), r.ciphertext()),
            r.message() == (left.message() || right.message()),
            r.key() == self.client(),
    {
        let ct = or_with(self, left, right);
        let ghost m = (left.message() || right.message());
        EncryptedBit { ct, message: Ghost(m), key: Ghost(self.client) }
    }

    /// Evaluates a bootstrapped XOR gate on two ciphertexts of this key pair.
    pub fn xor(&self, left: &EncryptedBit, right: &EncryptedBit) -> (r: EncryptedBit)
        requires
            left.key() == self.client(),
            right.key() == self.client(),
        ensures
            xor_of(self.server(), left.ciphertext(), right.ciphertext(), r.ciphertext()),
            r.message() == (left.message() != right.message()),
            r.key() == self.client(),
    {
        let ct = xor_with(self, left, right);
        let ghost m = (left.message() != right.message());
        EncryptedBit { ct, message: Ghost(m), key: Ghost(self.client) }
    }
}

} // verus!
