use vstd::prelude::*;

use rand_core::RngCore;

use crate::envelope::{
    argon2_key, decrypt_secret, derivation_accepts, derive_key, encrypt_secret, is_sealing_of,
    open_blob, sealable, CryptoError, KEY_LEN,
};
use crate::otpauth::{parse_token_url, url_token};
use crate::types::{Token, TokenModel, TokenType};

verus! {

/// Length of the salt drawn for a new store.
pub const SALT_LEN: usize = 32;

/// The map that a list of named entries stands for: a later entry replaces an
/// earlier one of the same name.
pub open spec fn map_of(s: Seq<(Seq<char>, TokenModel)>) -> Map<Seq<char>, TokenModel>
    decreases s.len(),
{
    if s.len() == 0 {
        Map::empty()
    } else {
        map_of(s.drop_last()).insert(s.last().0, s.last().1)
    }
}

/// No two entries share a name.
pub open spec fn names_unique(s: Seq<(Seq<char>, TokenModel)>) -> bool {
    forall|i: int, j: int| 0 <= i < j < s.len() ==> s[i].0 != s[j].0
}

/// The store name of a token brought in by a bulk import: `issuer-label`.
pub open spec fn import_name(t: TokenModel) -> Seq<char> {
    t.issuer + seq!['-'] + t.label
}

/// The last token of `toks` whose import name is `n`.
pub open spec fn last_named(toks: Seq<TokenModel>, n: Seq<char>) -> Option<int>
    decreases toks.len(),
{
    if toks.len() == 0 {
        None
    } else if import_name(toks.last()) == n {
        Some(toks.len() - 1)
    } else {
        last_named(toks.drop_last(), n)
    }
}

/// `stored` is `t` with its secret sealed under `key`.
pub open spec fn sealed_as(key: Seq<u8>, t: TokenModel, stored: TokenModel) -> bool {
    &&& stored == t.with_key(stored.key)
    &&& is_sealing_of(key, t.key, stored.key)
    &&& open_blob(key, stored.key) == Some(t.key)
}

/// `new` is `old` after importing `toks` in order under `key`: each import name
/// holds the last token of that name, sealed, and every other entry is kept.
pub open spec fn is_import_of(
    key: Seq<u8>,
    old: Map<Seq<char>, TokenModel>,
    toks: Seq<TokenModel>,
    new: Map<Seq<char>, TokenModel>,
) -> bool {
    &&& forall|n: Seq<char>| #[trigger]
        new.contains_key(n) <==> (old.contains_key(n) || last_named(toks, n) is Some)
    &&& forall|n: Seq<char>| #[trigger]
        new.contains_key(n) ==> match last_named(toks, n) {
            Some(j) => sealed_as(key, toks[j], new[n]),
            None => new[n] == old[n],
        }
}

/// The models of a list of tokens.
pub open spec fn models(toks: Seq<Token>) -> Seq<TokenModel> {
    toks.map_values(|t: Token| t@)
}

/// Failures of a lookup in the store.
#[derive(Clone, Copy, Debug, PartialEq, Eq, Structural)]
pub enum StoreError {
    /// No token of that name.
    NotFound,
    /// The passphrase or the store's salt is outside what the key derivation accepts.
    KeyDerivation,
    /// The passphrase is wrong, or the stored blob was tampered with.
    Authentication,
}

/// The credential store: a salt drawn once, and tokens by name whose keys are
/// sealed blobs.
#[derive(Clone, Debug)]
pub struct KeyFile {
    pub master_key_salt: Vec<u8>,
    pub tokens: Vec<(String, Token)>,
}

/// Relies on rand_core's `OsRng::fill_bytes`: 32 bytes from the operating
/// system's random source.
#[verifier::external_body]
fn random_salt() -> (r: Vec<u8>)
    ensures
        r@.len() == SALT_LEN,
{
    let mut salt = [0u8; 32];
    rand_core::OsRng.fill_bytes(&mut salt);
    salt.to_vec()
}

proof fn lemma_last_named_bounds(toks: Seq<TokenModel>, n: Seq<char>)
    ensures
        last_named(toks, n) matches Some(j) ==> 0 <= j < toks.len() && import_name(toks[j]) == n,
    decreases toks.len(),
{
    if toks.len() > 0 {
        lemma_last_named_bounds(toks.drop_last(), n);
    }
}

proof fn lemma_map_of_index(s: Seq<(Seq<char>, TokenModel)>, i: int)
    requires
        names_unique(s),
        0 <= i < s.len(),
    ensures
        map_of(s).contains_key(s[i].0),
        map_of(s)[s[i].0] == s[i].1,
    decreases s.len(),
{
    if i < s.len() - 1 {
        lemma_map_of_index(s.drop_last(), i);
    }
}

proof fn lemma_map_of_absent(s: Seq<(Seq<char>, TokenModel)>, n: Seq<char>)
    requires
        forall|i: int| 0 <= i < s.len() ==> s[i].0 != n,
    ensures
        !map_of(s).contains_key(n),
    decreases s.len(),
{
    if s.len() > 0 {
        lemma_map_of_absent(s.drop_last(), n);
    }
}

proof fn lemma_map_of_update(s: Seq<(Seq<char>, TokenModel)>, i: int, v: TokenModel)
    requires
        names_unique(s),
        0 <= i < s.len(),
    ensures
        map_of(s.update(i, (s[i].0, v))) == map_of(s).insert(s[i].0, v),
    decreases s.len(),
{
    let t = s.update(i, (s[i].0, v));
    if i == s.len() - 1 {
        assert(t.drop_last() =~= s.drop_last());
        assert(map_of(t) =~= map_of(s).insert(s[i].0, v));
    } else {
        lemma_map_of_update(s.drop_last(), i, v);
        assert(t.drop_last() =~= s.drop_last().update(i, (s[i].0, v)));
        assert(map_of(t) =~= map_of(s).insert(s[i].0, v));
    }
}

/// Two tokens of one import name: the store keeps a single entry under that
/// name, the second token with its secret sealed; every other entry is kept.
pub proof fn lemma_import_collision(
    key: Seq<u8>,
    old: Map<Seq<char>, TokenModel>,
    first: TokenModel,
    second: TokenModel,
    new: Map<Seq<char>, TokenModel>,
)
    requires
        import_name(first) == import_name(second),
        is_import_of(key, old, seq![first, second], new),
    ensures
        new.contains_key(import_name(second)),
        sealed_as(key, second, new[import_name(second)]),
        forall|n: Seq<char>|
            n != import_name(second) ==> (#[trigger] new.contains_key(n) == old.contains_key(n)
                && (new.contains_key(n) ==> new[n] == old[n])),
{
    let toks = seq![first, second];
    let name = import_name(second);
    assert(last_named(toks, name) == Some(1int));
    assert(new.contains_key(name));
    assert forall|n: Seq<char>| n != name implies last_named(toks, n) is None by {
        assert(toks.drop_last() =~= seq![first]);
        assert(toks.drop_last().drop_last() =~= Seq::<TokenModel>::empty());
        assert(last_named(toks.drop_last().drop_last(), n) is None);
        assert(last_named(toks.drop_last(), n) is None);
    }
}

impl KeyFile {
    /// The entries as (name, token) pairs of models.
    pub open spec fn entries(&self) -> Seq<(Seq<char>, TokenModel)> {
        self.tokens@.map_values(|e: (String, Token)| (e.0@, e.1@))
    }

    /// The tokens by name.
    pub open spec fn token_map(&self) -> Map<Seq<char>, TokenModel> {
        map_of(self.entries())
    }

    /// Names are unique.
    pub open spec fn wf(&self) -> bool {
        names_unique(self.entries())
    }

    /// An empty store over the given salt.
    pub fn new(master_key_salt: Vec<u8>) -> (r: KeyFile)
        ensures
            r.wf(),
            r.master_key_salt@ == master_key_salt@,
            r.token_map() == Map::<Seq<char>, TokenModel>::empty(),
    {
        let r = KeyFile { master_key_salt, tokens: Vec::new() };
        assert(r.entries() =~= Seq::<(Seq<char>, TokenModel)>::empty());
        r
    }

    /// An empty store over a fresh random 32-byte salt.
    pub fn create() -> (r: KeyFile)
        ensures
            r.wf(),
            r.master_key_salt@.len() == SALT_LEN,
            r.token_map() == Map::<Seq<char>, TokenModel>::empty(),
    {
        KeyFile::new(random_salt())
    }

    /// The index of the entry named `name`.
    fn position(&self, name: &String) -> (r: Option<usize>)
        ensures
            match r {
                Some(i) => i < self.tokens@.len() && self.tokens@[i as int].0@ == name@,
                None => forall|i: int| 0 <= i < self.tokens@.len() ==> self.tokens@[i].0@ != name@,
            },
    {
        let mut i: usize = 0;
        while i < self.tokens.len()
            invariant
                i <= self.tokens@.len(),
                forall|k: int| 0 <= k < i ==> self.tokens@[k].0@ != name@,
            decreases self.tokens@.len() - i,
        {
            if self.tokens[i].0 == *name {
                return Some(i);
            }
            i += 1;
        }
        None
    }

    /// The token stored under `name`.
    pub fn get(&self, name: &String) -> (r: Option<&Token>)
        requires
            self.wf(),
        ensures
            match r {
                Some(t) => self.token_map().contains_key(name@) && self.token_map()[name@] == t@,
                None => !self.token_map().contains_key(name@),
            },
    {
        match self.position(name) {
            Some(i) => {
                proof {
                    lemma_map_of_index(self.entries(), i as int);
                }
                Some(&self.tokens[i].1)
            },
            None => {
                proof {
                    lemma_map_of_absent(self.entries(), name@);
                }
                None
            },
        }
    }

    /// Stores `token` under `name`, replacing any token of that name.
    pub fn insert(&mut self, name: String, token: Token)
        requires
            old(self).wf(),
        ensures
            final(self).wf(),
            final(self).master_key_salt == old(self).master_key_salt,
            final(self).token_map() == old(self).token_map().insert(name@, token@),
    {
        let ghost entry = (name@, token@);
        match self.position(&name) {
            Some(i) => {
                proof {
                    lemma_map_of_update(self.entries(), i as int, token@);
                }
                self.tokens.set(i, (name, token));
                assert(self.entries() =~= old(self).entries().update(i as int, entry));
            },
            None => {
                self.tokens.push((name, token));
                assert(self.entries() =~= old(self).entries().push(entry));
                assert(self.entries().drop_last() =~= old(self).entries());
            },
        }
    }

    /// The store name of a token from a bulk import: `issuer-label`.
    pub fn import_name(token: &Token) -> (r: String)
        ensures
            r@ == import_name(token@),
    {
        let mut name = token.issuer.clone();
        proof {
            reveal_strlit("-");
        }
        name.append("-");
        name.append(token.label.as_str());
        name
    }

    /// Seals each token's secret under the key derived from `passphrase` and the
    /// store's salt, and stores the tokens in order under `issuer-label`; a later
    /// token of the same name replaces an earlier one. Where the key cannot be
    /// derived, the store is left as it was.
    pub fn import_tokens(&mut self, tokens: &Vec<Token>, passphrase: &[u8]) -> (r: Result<(), CryptoError>)
        requires
            old(self).wf(),
            forall|k: int| 0 <= k < tokens@.len() ==> sealable(#[trigger] tokens@[k].key@),
        ensures
            final(self).wf(),
            final(self).master_key_salt == old(self).master_key_salt,
            r is Ok <==> derivation_accepts(passphrase@, old(self).master_key_salt@),
            r matches Err(e) ==> e == CryptoError::KeyDerivation && *final(self) == *old(self),
            r is Ok ==> is_import_of(
                argon2_key(passphrase@, old(self).master_key_salt@),
                old(self).token_map(),
                models(tokens@),
                final(self).token_map(),
            ),
    {
        let key = match derive_key(passphrase, self.master_key_salt.as_slice()) {
            Ok(k) => k,
            Err(e) => return Err(e),
        };
        let ghost old_map = self.token_map();
        let ghost toks = models(tokens@);
        assert(toks.take(0) =~= Seq::<TokenModel>::empty());
        let mut i: usize = 0;
        while i < tokens.len()
            invariant
                i <= tokens@.len(),
                toks == models(tokens@),
                self.wf(),
                self.master_key_salt == old(self).master_key_salt,
                old_map == old(self).token_map(),
                key@ == argon2_key(passphrase@, old(self).master_key_salt@),
                key@.len() == KEY_LEN,
                forall|k: int| 0 <= k < tokens@.len() ==> sealable(#[trigger] tokens@[k].key@),
                is_import_of(key@, old_map, toks.take(i as int), self.token_map()),
            decreases tokens@.len() - i,
        {
            let t = &tokens[i];
            let blob = encrypt_secret(key.as_slice(), t.key.as_slice());
            let name = KeyFile::import_name(t);
            let stored = t.with_key(blob);
            let ghost before = self.token_map();
            self.insert(name, stored);
            proof {
                let prev = toks.take(i as int);
                let next = toks.take(i as int + 1);
                assert(next.drop_last() =~= prev);
                assert(next.last() == t@);
                assert forall|n: Seq<char>| #[trigger] self.token_map().contains_key(n) implies
                    match last_named(next, n) {
                        Some(j) => sealed_as(key@, next[j], self.token_map()[n]),
                        None => self.token_map()[n] == old_map[n],
                    } by {
                    if n != name@ {
                        assert(before.contains_key(n));
                        match last_named(prev, n) {
                            Some(j) => {
                                lemma_last_named_bounds(prev, n);
                                assert(next[j] == prev[j]);
                            },
                            None => {},
                        }
                    }
                }
            }
            i += 1;
        }
        assert(toks.take(i as int) =~= toks);
        Ok(())
    }

    /// The plaintext secret stored under `name`, opened with the key derived
    /// from `passphrase` and the store's salt.
    pub fn reveal_secret(&self, name: &String, passphrase: &[u8]) -> (r: Result<Vec<u8>, StoreError>)
        requires
            self.wf(),
        ensures
            !self.token_map().contains_key(name@) ==> r == Err::<Vec<u8>, StoreError>(StoreError::NotFound),
            self.token_map().contains_key(name@) && !derivation_accepts(passphrase@, self.master_key_salt@)
                ==> r == Err::<Vec<u8>, StoreError>(StoreError::KeyDerivation),
            self.token_map().contains_key(name@) && derivation_accepts(passphrase@, self.master_key_salt@)
                ==> match open_blob(argon2_key(passphrase@, self.master_key_salt@), self.token_map()[name@].key) {
                    Some(p) => r matches Ok(v) && v@ == p,
                    None => r == Err::<Vec<u8>, StoreError>(StoreError::Authentication),
                },
    {
        let token = match self.get(name) {
            Some(t) => t,
            None => return Err(StoreError::NotFound),
        };
        let key = match derive_key(passphrase, self.master_key_salt.as_slice()) {
            Ok(k) => k,
            Err(_) => return Err(StoreError::KeyDerivation),
        };
        match decrypt_secret(key.as_slice(), token.key.as_slice()) {
            Ok(p) => Ok(p),
            Err(_) => Err(StoreError::Authentication),
        }
    }
}

/// Failures of adding one token from its provisioning URI.
#[derive(Clone, Copy, Debug, PartialEq, Eq, Structural)]
pub enum AddError {
    /// The passphrase or the store's salt is outside what the key derivation accepts.
    KeyDerivation,
    /// The URI cannot be read.
    Parse,
    /// The secret is too long for one sealed message.
    SecretTooLong,
}

/// Failures of opening stored tokens for code generation.
#[derive(Clone, Copy, Debug, PartialEq, Eq, Structural)]
pub enum UseError {
    /// No token of that name.
    NotFound,
    /// The passphrase or the store's salt is outside what the key derivation accepts.
    KeyDerivation,
    /// The passphrase is wrong, or a stored blob was tampered with.
    Authentication,
    /// Only time-based tokens generate codes.
    UnsupportedType,
}

fn fits_one_message(p: &[u8]) -> (r: bool)
    ensures
        r == sealable(p@),
{
    p.len() / 64 < 0xffff_ffff
}

/// Reads a provisioning URI (trimmed, `algorithm=sha` written in upper case),
/// seals its secret under the key derived from `passphrase` and the store's
/// salt, and stores the token under `token_label`, replacing any of that name.
/// On failure the store is left as it was.
pub fn add_token(store: &mut KeyFile, token_label: String, token_url: &[u8], passphrase: &[u8]) -> (r:
    Result<(), AddError>)
    requires
        old(store).wf(),
    ensures
        final(store).wf(),
        final(store).master_key_salt == old(store).master_key_salt,
        !derivation_accepts(passphrase@, old(store).master_key_salt@) ==> r == Err::<(), AddError>(
            AddError::KeyDerivation,
        ),
        derivation_accepts(passphrase@, old(store).master_key_salt@) ==> match url_token(token_url@) {
            None => r == Err::<(), AddError>(AddError::Parse),
            Some(t) => if !sealable(t.key) {
                r == Err::<(), AddError>(AddError::SecretTooLong)
            } else {
                &&& r is Ok
                &&& final(store).token_map() == old(store).token_map().insert(
                    token_label@,
                    final(store).token_map()[token_label@],
                )
                &&& sealed_as(
                    argon2_key(passphrase@, old(store).master_key_salt@),
                    t,
                    final(store).token_map()[token_label@],
                )
            },
        },
        r is Err ==> *final(store) == *old(store),
{
    let key = match derive_key(passphrase, store.master_key_salt.as_slice()) {
        Ok(k) => k,
        Err(_) => return Err(AddError::KeyDerivation),
    };
    let token = match parse_token_url(token_url) {
        Ok(t) => t,
        Err(_) => return Err(AddError::Parse),
    };
    if !fits_one_message(token.key.as_slice()) {
        return Err(AddError::SecretTooLong);
    }
    let blob = encrypt_secret(key.as_slice(), token.key.as_slice());
    let stored = token.with_key(blob);
    let ghost label = token_label@;
    store.insert(token_label, stored);
    assert(store.token_map()[label] == stored@);
    Ok(())
}

impl KeyFile {
    /// The token stored under `name` with its plaintext secret in place of
    /// the blob, for a code generator; only time-based tokens are handed out.
    pub fn use_token(&self, name: &String, passphrase: &[u8]) -> (r: Result<Token, UseError>)
        requires
            self.wf(),
        ensures
            !self.token_map().contains_key(name@) ==> r == Err::<Token, UseError>(UseError::NotFound),
            self.token_map().contains_key(name@) && !derivation_accepts(passphrase@, self.master_key_salt@)
                ==> r == Err::<Token, UseError>(UseError::KeyDerivation),
            self.token_map().contains_key(name@) && derivation_accepts(passphrase@, self.master_key_salt@)
                ==> match open_blob(argon2_key(passphrase@, self.master_key_salt@), self.token_map()[name@].key) {
                    None => r == Err::<Token, UseError>(UseError::Authentication),
                    Some(p) => if self.token_map()[name@].token_type != TokenType::Totp {
                        r == Err::<Token, UseError>(UseError::UnsupportedType)
                    } else {
                        r matches Ok(t) && t@ == self.token_map()[name@].with_key(p)
                    },
                },
    {
        let token = match self.get(name) {
            Some(t) => t,
            None => return Err(UseError::NotFound),
        };
        let key = match derive_key(passphrase, self.master_key_salt.as_slice()) {
            Ok(k) => k,
            Err(_) => return Err(UseError::KeyDerivation),
        };
        let secret = match decrypt_secret(key.as_slice(), token.key.as_slice()) {
            Ok(p) => p,
            Err(_) => return Err(UseError::Authentication),
        };
        if token.token_type != TokenType::Totp {
            return Err(UseError::UnsupportedType);
        }
        Ok(token.with_key(secret))
    }

    /// Every stored token, in store order, with its plaintext secret; the
    /// first entry that cannot be opened, or that is not time-based, fails all.
    pub fn unlock_all(&self, passphrase: &[u8]) -> (r: Result<Vec<(String, Token)>, UseError>)
        requires
            self.wf(),
        ensures
            !derivation_accepts(passphrase@, self.master_key_salt@) ==> r == Err::<Vec<(String, Token)>, UseError>(
                UseError::KeyDerivation,
            ),
            r matches Ok(v) ==> {
                &&& derivation_accepts(passphrase@, self.master_key_salt@)
                &&& v@.len() == self.entries().len()
                &&& forall|i: int| 0 <= i < v@.len() ==> {
                    &&& (#[trigger] v@[i]).0@ == self.entries()[i].0
                    &&& self.entries()[i].1.token_type == TokenType::Totp
                    &&& open_blob(argon2_key(passphrase@, self.master_key_salt@), self.entries()[i].1.key)
                        == Some(v@[i].1@.key)
                    &&& v@[i].1@ == self.entries()[i].1.with_key(v@[i].1@.key)
                }
            },
            derivation_accepts(passphrase@, self.master_key_salt@) && (forall|i: int|
                0 <= i < self.entries().len() ==> {
                    &&& (#[trigger] self.entries()[i]).1.token_type == TokenType::Totp
                    &&& open_blob(argon2_key(passphrase@, self.master_key_salt@), self.entries()[i].1.key) is Some
                }) ==> r is Ok,
    {
        let key = match derive_key(passphrase, self.master_key_salt.as_slice()) {
            Ok(k) => k,
            Err(_) => return Err(UseError::KeyDerivation),
        };
        let ghost k = argon2_key(passphrase@, self.master_key_salt@);
        let mut out: Vec<(String, Token)> = Vec::new();
        let mut i: usize = 0;
        while i < self.tokens.len()
            invariant
                i <= self.tokens@.len(),
                k == argon2_key(passphrase@, self.master_key_salt@),
                key@ == k,
                key@.len() == KEY_LEN,
                derivation_accepts(passphrase@, self.master_key_salt@),
                out@.len() == i,
                forall|j: int| 0 <= j < i ==> {
                    &&& (#[trigger] out@[j]).0@ == self.entries()[j].0
                    &&& self.entries()[j].1.token_type == TokenType::Totp
                    &&& open_blob(k, self.entries()[j].1.key) == Some(out@[j].1@.key)
                    &&& out@[j].1@ == self.entries()[j].1.with_key(out@[j].1@.key)
                },
            decreases self.tokens@.len() - i,
        {
            let (name, token) = (&self.tokens[i].0, &self.tokens[i].1);
            assert(self.entries()[i as int] == (name@, token@));
            let secret = match decrypt_secret(key.as_slice(), token.key.as_slice()) {
                Ok(p) => p,
                Err(_) => {
                    assert(open_blob(k, self.entries()[i as int].1.key) is None);
                    return Err(UseError::Authentication);
                },
            };
            if token.token_type != TokenType::Totp {
                assert(self.entries()[i as int].1.token_type != TokenType::Totp);
                return Err(UseError::UnsupportedType);
            }
            out.push((name.clone(), token.with_key(secret)));
            i += 1;
        }
        Ok(out)
    }
}

} // verus!
