//! What the proxy knows of its users: who they are and by what they prove it.
use vstd::prelude::*;

use crate::crypto::{
    base64_bytes, base64_decode, base64_encode, base64_text, in_base64_alphabet, random_bytes,
};
use crate::text::{
    has_prefix, parse_unsigned, read_unsigned, same_text, split_once, split_once_on, strip_prefix,
};

verus! {

/// What a server keeps of a password for SCRAM-SHA-256.
#[derive(Clone, Debug)]
pub struct ScramVerifier {
    pub iterations: u32,
    pub salt: Vec<u8>,
    pub stored_key: [u8; 32],
    pub server_key: [u8; 32],
}

/// What a verifier says, as plain values.
pub struct ScramFacts {
    pub iterations: u32,
    pub salt: Seq<u8>,
    pub stored_key: Seq<u8>,
    pub server_key: Seq<u8>,
}

impl View for ScramVerifier {
    type V = ScramFacts;

    open spec fn view(&self) -> ScramFacts {
        ScramFacts {
            iterations: self.iterations,
            salt: self.salt@,
            stored_key: self.stored_key@,
            server_key: self.server_key@,
        }
    }
}

/// The verifier that a text writes in the form
/// `SCRAM-SHA-256$iterations:salt$stored key:server key`, where the last three are in base64 and
/// the keys have 32 bytes.
pub open spec fn read_verifier(text: Seq<char>) -> Option<ScramFacts> {
    if !has_prefix(text, "SCRAM-SHA-256$"@) {
        None
    } else {
        match split_once_on(text.skip("SCRAM-SHA-256$"@.len() as int), '$') {
            None => None,
            Some((head, keys)) => match (split_once_on(head, ':'), split_once_on(keys, ':')) {
                (Some((count, salt)), Some((stored, server))) => match (
                    read_unsigned(count, u32::MAX as nat),
                    base64_bytes(salt),
                    base64_bytes(stored),
                    base64_bytes(server),
                ) {
                    (Ok(n), Some(salt), Some(stored), Some(server)) => if stored.len() == 32
                        && server.len() == 32 {
                        Some(
                            ScramFacts {
                                iterations: n as u32,
                                salt,
                                stored_key: stored,
                                server_key: server,
                            },
                        )
                    } else {
                        None
                    },
                    _ => None,
                },
                _ => None,
            },
        }
    }
}

fn key32(bytes: &Vec<u8>) -> (r: [u8; 32])
    requires
        bytes@.len() == 32,
    ensures
        r@ == bytes@,
{
    let mut key: [u8; 32] = [0u8; 32];
    let mut i: usize = 0;
    while i < 32
        invariant
            i <= 32,
            bytes@.len() == 32,
            forall|j: int| 0 <= j < i ==> key@[j] == bytes@[j],
        decreases 32 - i,
    {
        key[i] = bytes[i];
        i += 1;
    }
    assert(key@ =~= bytes@);
    key
}

impl ScramVerifier {
    /// Reads a verifier.
    pub fn parse(text: &str) -> (r: Option<ScramVerifier>)
        ensures
            match r {
                Some(verifier) => read_verifier(text@) == Some(verifier@),
                None => read_verifier(text@) is None,
            },
    {
        let rest = match strip_prefix(text, "SCRAM-SHA-256$") {
            Some(rest) => rest,
            None => {
                return None;
            },
        };
        let (head, keys) = match split_once(rest.as_str(), '$') {
            Some(pair) => pair,
            None => {
                return None;
            },
        };
        let (count, salt_text) = match split_once(head.as_str(), ':') {
            Some(pair) => pair,
            None => {
                return None;
            },
        };
        let (stored_text, server_text) = match split_once(keys.as_str(), ':') {
            Some(pair) => pair,
            None => {
                return None;
            },
        };
        let iterations: u32 = match parse_unsigned(count.as_str(), u32::MAX as u64) {
            Ok(n) => n as u32,
            Err(_) => {
                return None;
            },
        };
        let salt = match base64_decode(salt_text.as_str()) {
            Some(bytes) => bytes,
            None => {
                return None;
            },
        };
        let stored = match base64_decode(stored_text.as_str()) {
            Some(bytes) => bytes,
            None => {
                return None;
            },
        };
        let server = match base64_decode(server_text.as_str()) {
            Some(bytes) => bytes,
            None => {
                return None;
            },
        };
        if stored.len() != 32 || server.len() != 32 {
            return None;
        }
        let stored_key = key32(&stored);
        let server_key = key32(&server);
        Some(ScramVerifier { iterations, salt, stored_key, server_key })
    }
}

/// What a server keeps of a password for MD5: the digest of password and name, in hexadecimal.
#[derive(Clone, Debug)]
pub struct Md5Secret {
    stored_hex: String,
}

impl View for Md5Secret {
    type V = Seq<char>;

    closed spec fn view(&self) -> Seq<char> {
        self.stored_hex@
    }
}

/// Whether a character is a digit or one of the first six small letters.
pub open spec fn is_small_hex(c: char) -> bool {
    '0' <= c <= '9' || 'a' <= c <= 'f'
}

/// The digest that a text writes in the form `md5` and 32 hexadecimal digits.
pub open spec fn read_md5_secret(text: Seq<char>) -> Option<Seq<char>> {
    let hex = text.skip(3);
    if has_prefix(text, "md5"@) && hex.len() == 32 && forall|i: int|
        0 <= i < hex.len() ==> is_small_hex(#[trigger] hex[i]) {
        Some(hex)
    } else {
        None
    }
}

impl Md5Secret {
    /// Reads a digest.
    pub fn parse(text: &str) -> (r: Option<Md5Secret>)
        ensures
            match r {
                Some(secret) => read_md5_secret(text@) == Some(secret@),
                None => read_md5_secret(text@) is None,
            },
    {
        proof {
            reveal_strlit("md5");
        }
        let hex = match strip_prefix(text, "md5") {
            Some(hex) => hex,
            None => {
                return None;
            },
        };
        let chars = crate::text::chars_of(hex.as_str());
        if chars.len() != 32 {
            return None;
        }
        let mut i: usize = 0;
        while i < chars.len()
            invariant
                i <= chars@.len(),
                chars@ == text@.skip(3),
                forall|j: int| 0 <= j < i ==> is_small_hex(#[trigger] chars@[j]),
            decreases chars@.len() - i,
        {
            let c = chars[i];
            if !(('0' <= c && c <= '9') || ('a' <= c && c <= 'f')) {
                assert(!is_small_hex(text@.skip(3)[i as int]));
                return None;
            }
            i += 1;
        }
        Some(Md5Secret { stored_hex: hex })
    }

    /// The digest in hexadecimal.
    pub fn stored_hex(&self) -> (r: &str)
        ensures
            r@ == self@,
    {
        self.stored_hex.as_str()
    }
}

/// By what a user proves who they are.
#[derive(Clone, Debug)]
pub enum UserSecret {
    Trust,
    ScramSha256(ScramVerifier),
    Md5(Md5Secret),
}

/// A secret as plain values.
pub enum SecretFacts {
    Trust,
    Scram(ScramFacts),
    Md5(Seq<char>),
}

impl View for UserSecret {
    type V = SecretFacts;

    open spec fn view(&self) -> SecretFacts {
        match self {
            UserSecret::Trust => SecretFacts::Trust,
            UserSecret::ScramSha256(verifier) => SecretFacts::Scram(verifier@),
            UserSecret::Md5(secret) => SecretFacts::Md5(secret@),
        }
    }
}

/// What the proxy knows of its users.
#[derive(Clone, Debug)]
pub struct UserStore {
    entries: Vec<(String, UserSecret)>,
}

/// The secrets by name, where a later entry for a name takes the place of an earlier one.
pub open spec fn latest_entries(entries: Seq<(String, UserSecret)>) -> Map<Seq<char>, SecretFacts>
    decreases entries.len(),
{
    if entries.len() == 0 {
        Map::empty()
    } else {
        latest_entries(entries.drop_last()).insert(entries.last().0@, entries.last().1@)
    }
}

proof fn lemma_latest_entries_set(
    entries: Seq<(String, UserSecret)>,
    i: int,
    entry: (String, UserSecret),
)
    requires
        0 <= i < entries.len(),
        entry.0@ == entries[i].0@,
        forall|j: int| i < j < entries.len() ==> (#[trigger] entries[j]).0@ != entry.0@,
    ensures
        latest_entries(entries.update(i, entry)) == latest_entries(entries).insert(
            entry.0@,
            entry.1@,
        ),
    decreases entries.len(),
{
    let after = entries.update(i, entry);
    let front = entries.drop_last();
    if i == entries.len() - 1 {
        assert(after.drop_last() =~= front);
        assert(latest_entries(after) =~= latest_entries(entries).insert(entry.0@, entry.1@));
    } else {
        assert(after.drop_last() =~= front.update(i, entry));
        assert forall|j: int| i < j < front.len() implies (#[trigger] front[j]).0@ != entry.0@ by {
            assert(front[j] == entries[j]);
        }
        lemma_latest_entries_set(front, i, entry);
        assert(entries.last() == entries[entries.len() - 1]);
        assert(latest_entries(after) =~= latest_entries(entries).insert(entry.0@, entry.1@));
    }
}

proof fn lemma_latest_entries_keys(entries: Seq<(String, UserSecret)>, name: Seq<char>)
    ensures
        latest_entries(entries).contains_key(name) <==> exists|i: int|
            0 <= i < entries.len() && (#[trigger] entries[i]).0@ == name,
    decreases entries.len(),
{
    if entries.len() > 0 {
        let front = entries.drop_last();
        lemma_latest_entries_keys(front, name);
        if latest_entries(front).contains_key(name) {
            let i = choose|i: int| 0 <= i < front.len() && (#[trigger] front[i]).0@ == name;
            assert(entries[i].0@ == name);
        }
        if exists|i: int| 0 <= i < entries.len() && (#[trigger] entries[i]).0@ == name {
            let i = choose|i: int| 0 <= i < entries.len() && (#[trigger] entries[i]).0@ == name;
            if i < front.len() {
                assert(front[i].0@ == name);
            }
        }
        assert(entries.last() == entries[entries.len() - 1]);
    }
}

impl View for UserStore {
    type V = Map<Seq<char>, SecretFacts>;

    closed spec fn view(&self) -> Map<Seq<char>, SecretFacts> {
        latest_entries(self.entries@)
    }
}

impl UserStore {
    /// That no user has two entries.
    pub closed spec fn wf(self) -> bool {
        forall|i: int, j: int|
            0 <= i < j < self.entries@.len() ==> (#[trigger] self.entries@[i]).0@
                != (#[trigger] self.entries@[j]).0@
    }

    /// How many entries are held.
    pub closed spec fn held(self) -> nat {
        self.entries@.len()
    }

    fn find(&self, name: &str) -> (r: Option<usize>)
        ensures
            match r {
                Some(i) => {
                    &&& i < self.entries@.len()
                    &&& self.entries@[i as int].0@ == name@
                    &&& forall|j: int|
                        i < j < self.entries@.len() ==> (#[trigger] self.entries@[j]).0@ != name@
                },
                None => forall|j: int|
                    0 <= j < self.entries@.len() ==> (#[trigger] self.entries@[j]).0@ != name@,
            },
    {
        let mut i: usize = self.entries.len();
        while i > 0
            invariant
                i <= self.entries@.len(),
                forall|j: int|
                    i <= j < self.entries@.len() ==> (#[trigger] self.entries@[j]).0@ != name@,
            decreases i,
        {
            i -= 1;
            if same_text(self.entries[i].0.as_str(), name) {
                return Some(i);
            }
        }
        None
    }

    /// No users.
    pub fn new() -> (r: UserStore)
        ensures
            r.wf(),
            r.held() == 0,
            r@ == Map::<Seq<char>, SecretFacts>::empty(),
    {
        UserStore { entries: Vec::new() }
    }

    /// Sets a user's secret, in place of the one before.
    pub fn insert(&mut self, name: String, secret: UserSecret)
        ensures
            final(self)@ == old(self)@.insert(name@, secret@),
            old(self).wf() ==> final(self).wf(),
            final(self).held() == if old(self)@.contains_key(name@) {
                old(self).held()
            } else {
                old(self).held() + 1
            },
    {
        let ghost before = self.entries@;
        proof {
            lemma_latest_entries_keys(before, name@);
        }
        match self.find(name.as_str()) {
            Some(i) => {
                let entry = (name, secret);
                self.entries.set(i, entry);
                proof {
                    lemma_latest_entries_set(before, i as int, entry);
                    assert forall|a: int, b: int|
                        0 <= a < b < before.len() && old(self).wf() implies (
                    #[trigger] self.entries@[a]).0@ != (#[trigger] self.entries@[b]).0@ by {
                        assert(self.entries@[a].0@ == before[a].0@);
                        assert(self.entries@[b].0@ == before[b].0@);
                    }
                }
            },
            None => {
                self.entries.push((name, secret));
                assert(self.entries@.drop_last() =~= before);
            },
        }
    }

    /// A user's secret, where there is one.
    pub fn get(&self, name: &str) -> (r: Option<&UserSecret>)
        ensures
            match r {
                Some(secret) => self@.contains_key(name@) && secret@ == self@[name@],
                None => !self@.contains_key(name@),
            },
    {
        let mut i: usize = self.entries.len();
        assert(self.entries@.take(i as int) =~= self.entries@);
        while i > 0
            invariant
                i <= self.entries@.len(),
                latest_entries(self.entries@.take(i as int)).contains_key(name@)
                    == self@.contains_key(name@),
                latest_entries(self.entries@.take(i as int)).contains_key(name@)
                    ==> latest_entries(self.entries@.take(i as int))[name@] == self@[name@],
            decreases i,
        {
            let ghost upto = self.entries@.take(i as int);
            assert(upto.drop_last() =~= self.entries@.take(i - 1));
            assert(upto.last() == self.entries@[i - 1]);
            if same_text(self.entries[i - 1].0.as_str(), name) {
                return Some(&self.entries[i - 1].1);
            }
            i -= 1;
        }
        None
    }
}

// ---------------------------------------------------------------------------
// Nonces
// ---------------------------------------------------------------------------

/// How many random bytes a nonce is made of.
pub const NONCE_BYTES: usize = 18;

/// A nonce: random bytes in Base64, or nothing where the system has none to give. It holds no
/// comma, so it never ends an attribute of a SCRAM message.
pub fn generate_nonce() -> (r: Option<String>)
    ensures
        r matches Some(nonce) ==> {
            &&& base64_bytes(nonce@) matches Some(bytes) && bytes.len() == NONCE_BYTES
            &&& forall|i: int| 0 <= i < nonce@.len() ==> in_base64_alphabet(#[trigger] nonce@[i])
            &&& !nonce@.contains(',')
        },
{
    match random_bytes::<NONCE_BYTES>() {
        Some(bytes) => {
            let nonce = nonce_of(&bytes);
            Some(nonce)
        },
        None => None,
    }
}

/// The nonce that some bytes make.
pub fn nonce_of(bytes: &[u8; NONCE_BYTES]) -> (r: String)
    ensures
        r@ == base64_text(bytes@),
        base64_bytes(r@) == Some(bytes@),
        forall|i: int| 0 <= i < r@.len() ==> in_base64_alphabet(#[trigger] r@[i]),
        !r@.contains(','),
{
    let nonce = base64_encode(bytes);
    assert forall|i: int| 0 <= i < nonce@.len() implies nonce@[i] != ',' by {
        assert(in_base64_alphabet(nonce@[i]));
    }
    nonce
}

/// A verifier is read where it names the mechanism, a count and a salt, and two keys of 32 bytes,
/// and each part is the one that stands in its place.
pub proof fn law_verifier_parts(text: Seq<char>, facts: ScramFacts)
    requires
        read_verifier(text) == Some(facts),
    ensures
        has_prefix(text, "SCRAM-SHA-256$"@),
        facts.stored_key.len() == 32,
        facts.server_key.len() == 32,
        ({
            let (head, keys) = split_once_on(text.skip("SCRAM-SHA-256$"@.len() as int), '$')->0;
            let (count, salt) = split_once_on(head, ':')->0;
            let (stored, server) = split_once_on(keys, ':')->0;
            &&& read_unsigned(count, u32::MAX as nat) == Ok::<nat, crate::text::NumberError>(
                facts.iterations as nat,
            )
            &&& base64_bytes(salt) == Some(facts.salt)
            &&& base64_bytes(stored) == Some(facts.stored_key)
            &&& base64_bytes(server) == Some(facts.server_key)
        }),
{
    let (head, keys) = split_once_on(text.skip("SCRAM-SHA-256$"@.len() as int), '$')->0;
    let (count, salt) = split_once_on(head, ':')->0;
}

/// A digest is read where it is `md5` and 32 small hexadecimal digits, which are kept.
pub proof fn law_md5_secret_shape(text: Seq<char>)
    ensures
        read_md5_secret(text) matches Some(hex) ==> {
            &&& text == seq!['m', 'd', '5'] + hex
            &&& hex.len() == 32
            &&& forall|i: int|
                0 <= i < hex.len() ==> ('0' <= #[trigger] hex[i] <= '9') || ('a' <= hex[i] <= 'f')
        },
{
    reveal_strlit("md5");
    assert("md5"@ =~= seq!['m', 'd', '5']);
    if read_md5_secret(text) is Some {
        let hex = read_md5_secret(text)->0;
        assert(text =~= text.take(3) + text.skip(3));
        assert(forall|i: int| 0 <= i < hex.len() ==> is_small_hex(#[trigger] hex[i]));
    }
}

} // verus!
