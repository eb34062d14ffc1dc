use vstd::prelude::*;

use crate::crypto::Cipher;
use crate::v3;

verus! {

/// What SHA-256 gives for a byte string.
pub uninterp spec fn sha256_of(data: Seq<u8>) -> Seq<u8>;

/// Relies on ring::digest::digest with SHA256: the 32-byte digest of `data`.
#[verifier::external_body]
fn sha256(data: &[u8]) -> (r: Vec<u8>)
    ensures
        r@ == sha256_of(data@),
        r@.len() == 32,
{
    ring::digest::digest(&ring::digest::SHA256, data).as_ref().to_vec()
}

/// A SHA-256 digest; used both as a user id (of a user name) and as a
/// pre-shared key (of a password).
#[derive(Clone, Debug, PartialEq, Eq, Hash)]
pub struct Digest {
    value: Vec<u8>,
}

impl View for Digest {
    type V = Seq<u8>;

    closed spec fn view(&self) -> Seq<u8> {
        self.value@
    }
}

impl Digest {
    /// The digest of a string's UTF-8 bytes.
    pub fn new(value: &str) -> (r: Digest)
        ensures
            r@ == sha256_of(vstd::utf8::encode_utf8(value@)),
            r@.len() == v3::DEFAULT_DIGEST_LEN,
    {
        Digest { value: sha256(value.as_bytes()) }
    }

    /// A digest given by its 32 bytes.
    pub fn from_bytes(bytes: &[u8]) -> (r: Digest)
        requires
            bytes@.len() == v3::DEFAULT_DIGEST_LEN,
        ensures
            r@ == bytes@,
    {
        Digest { value: vstd::slice::slice_to_vec(bytes) }
    }

    pub open spec fn wf(&self) -> bool {
        self@.len() == v3::DEFAULT_DIGEST_LEN
    }

    pub fn size(&self) -> (r: usize)
        ensures
            r == v3::DEFAULT_DIGEST_LEN,
    {
        v3::DEFAULT_DIGEST_LEN
    }

    pub fn as_bytes(&self) -> (r: &[u8])
        ensures
            r@ == self@,
    {
        self.value.as_slice()
    }

    /// A copy of the digest.
    pub fn clone_digest(&self) -> (r: Digest)
        ensures
            r@ == self@,
    {
        Digest { value: self.value.clone() }
    }
}

/// A socket address: an IPv4 (4 bytes) or IPv6 (16 bytes) address and a port.
#[derive(Clone, Debug, PartialEq, Eq)]
pub enum SockAddr {
    V4(Vec<u8>, u16),
    V6(Vec<u8>, u16),
}

impl View for SockAddr {
    /// Whether it is IPv6, the address bytes, the port.
    type V = (bool, Seq<u8>, u16);

    open spec fn view(&self) -> (bool, Seq<u8>, u16) {
        match self {
            SockAddr::V4(ip, port) => (false, ip@, *port),
            SockAddr::V6(ip, port) => (true, ip@, *port),
        }
    }
}

impl SockAddr {
    /// A copy of the address.
    pub fn clone_addr(&self) -> (r: SockAddr)
        ensures
            r@ == self@,
    {
        match self {
            SockAddr::V4(ip, port) => SockAddr::V4(ip.clone(), *port),
            SockAddr::V6(ip, port) => SockAddr::V6(ip.clone(), *port),
        }
    }

    pub open spec fn wf(&self) -> bool {
        match self {
            SockAddr::V4(ip, _) => ip@.len() == 4,
            SockAddr::V6(ip, _) => ip@.len() == 16,
        }
    }
}

/// A user of the remote endpoint.
#[derive(Clone, Debug)]
pub struct User {
    pub name: String,
    pub password: Digest,
}

impl User {
    /// The name and the password digest.
    pub open spec fn spec_entry(&self) -> (Seq<char>, Seq<u8>) {
        (self.name@, self.password@)
    }

    /// A copy of the user.
    pub fn clone_user(&self) -> (r: User)
        ensures
            r.spec_entry() == self.spec_entry(),
    {
        User { name: self.name.clone(), password: self.password.clone_digest() }
    }
}

/// The users of the remote endpoint, keyed by the digest of their names.
#[derive(Clone, Debug)]
pub struct UserTable {
    entries: Vec<(Digest, User)>,
}

impl View for UserTable {
    type V = Map<Seq<u8>, (Seq<char>, Seq<u8>)>;

    /// Each user id's name and password digest.
    closed spec fn view(&self) -> Map<Seq<u8>, (Seq<char>, Seq<u8>)> {
        Map::new(
            |k: Seq<u8>| exists|i: int| 0 <= i < self.entries@.len() && self.entries@[i].0@ == k,
            |k: Seq<u8>|
                self.entries@[choose|i: int|
                    0 <= i < self.entries@.len() && self.entries@[i].0@ == k].1.spec_entry(),
        )
    }
}

impl UserTable {
    /// User ids are distinct, and every digest has 32 bytes.
    pub closed spec fn wf(&self) -> bool {
        &&& forall|i: int, j: int|
            0 <= i < j < self.entries@.len() ==> self.entries@[i].0@ != self.entries@[j].0@
        &&& forall|i: int|
            0 <= i < self.entries@.len() ==> (#[trigger] self.entries@[i]).0@.len()
                == v3::DEFAULT_DIGEST_LEN && self.entries@[i].1.password@.len()
                == v3::DEFAULT_DIGEST_LEN
    }

    pub fn new() -> (r: UserTable)
        ensures
            r.wf(),
            r@ == Map::<Seq<u8>, (Seq<char>, Seq<u8>)>::empty(),
    {
        let r = UserTable { entries: Vec::new() };
        assert(r@ =~= Map::<Seq<u8>, (Seq<char>, Seq<u8>)>::empty());
        r
    }

    pub fn len(&self) -> (r: usize)
        requires
            self.wf(),
        ensures
            r == self@.len(),
    {
        proof {
            self.lemma_dom_len();
        }
        self.entries.len()
    }

    proof fn lemma_dom_len(&self)
        requires
            self.wf(),
        ensures
            self@.dom().len() == self.entries@.len(),
            self@.dom().finite(),
        decreases self.entries@.len(),
    {
        let keys = Seq::new(self.entries@.len(), |i: int| self.entries@[i].0@);
        assert(keys.no_duplicates());
        assert forall|k: Seq<u8>| self@.dom().contains(k) <==> #[trigger] keys.to_set().contains(k) by {
            if self@.dom().contains(k) {
                let i = choose|i: int| 0 <= i < self.entries@.len() && self.entries@[i].0@ == k;
                assert(keys[i] == k);
            }
            if keys.to_set().contains(k) {
                let i = choose|i: int| 0 <= i < keys.len() && keys[i] == k;
                assert(self.entries@[i].0@ == k);
            }
        }
        assert(self@.dom() =~= keys.to_set());
        keys.unique_seq_to_set();
    }

    /// Position of the entry with user id `key`, if any.
    fn find(&self, key: &[u8]) -> (r: Option<usize>)
        requires
            self.wf(),
        ensures
            r matches Some(i) ==> i < self.entries@.len() && self.entries@[i as int].0@ == key@,
            r is None ==> !self@.contains_key(key@),
    {
        let mut i: usize = 0;
        while i < self.entries.len()
            invariant
                i <= self.entries@.len(),
                forall|j: int| 0 <= j < i ==> self.entries@[j].0@ != key@,
            decreases self.entries@.len() - i,
        {
            if bytes_eq(self.entries[i].0.as_bytes(), key) {
                return Some(i);
            }
            i = i + 1;
        }
        None
    }

    /// The user with user id `key`, if any.
    pub fn get(&self, key: &[u8]) -> (r: Option<&User>)
        requires
            self.wf(),
        ensures
            r is Some <==> self@.contains_key(key@),
            r matches Some(u) ==> u.spec_entry() == self@[key@] && u.password@.len()
                == v3::DEFAULT_DIGEST_LEN,
    {
        match self.find(key) {
            Some(i) => {
                let ghost k = key@;
                assert(self@.contains_key(k));
                let ghost j = choose|j: int| 0 <= j < self.entries@.len() && self.entries@[j].0@ == k;
                assert(j == i as int) by {
                    if j != i as int {
                        if j < i as int {
                            assert(self.entries@[j].0@ != self.entries@[i as int].0@);
                        } else {
                            assert(self.entries@[i as int].0@ != self.entries@[j].0@);
                        }
                    }
                }
                assert(self.entries@[i as int].1.password@.len() == v3::DEFAULT_DIGEST_LEN);
                Some(&self.entries[i].1)
            },
            None => None,
        }
    }

    /// Adds a user under the digest of its name, replacing any user with the
    /// same digest.
    pub fn insert(&mut self, id: Digest, user: User)
        requires
            old(self).wf(),
            id@.len() == v3::DEFAULT_DIGEST_LEN,
            user.password@.len() == v3::DEFAULT_DIGEST_LEN,
        ensures
            final(self).wf(),
            final(self)@ == old(self)@.insert(id@, user.spec_entry()),
    {
        let ghost before = self.entries@;
        let ghost old_map = self@;
        let ghost k = id@;
        let ghost pw = user.spec_entry();
        match self.find(id.as_bytes()) {
            Some(i) => {
                self.entries.set(i, (id, user));
                assert(self@ =~= old_map.insert(k, pw)) by {
                    assert(old_map =~= Map::new(
                        |x: Seq<u8>| exists|i: int| 0 <= i < before.len() && before[i].0@ == x,
                        |x: Seq<u8>| before[choose|i: int| 0 <= i < before.len() && before[i].0@ == x].1.spec_entry(),
                    ));
                    assert forall|j: int| 0 <= j < self.entries@.len() && j != i implies self.entries@[j] == before[j] by {}
                    assert(self.entries@[i as int].0@ == k);
                    assert forall|x: Seq<u8>| #[trigger] self@.contains_key(x) == old_map.insert(k, pw).contains_key(x) by {
                        if x == k {
                            assert(self@.contains_key(x));
                        } else if old_map.contains_key(x) {
                            let j = choose|j: int| 0 <= j < before.len() && before[j].0@ == x;
                            assert(j != i as int);
                            assert(self.entries@[j].0@ == x);
                            assert(self@.contains_key(x));
                        }
                        if self@.contains_key(x) && x != k {
                            let j = choose|j: int| 0 <= j < self.entries@.len() && self.entries@[j].0@ == x;
                            assert(j != i as int);
                            assert(before[j].0@ == x);
                            assert(old_map.contains_key(x));
                        }
                    }
                    assert forall|x: Seq<u8>| #[trigger] self@.contains_key(x) implies self@[x] == old_map.insert(k, pw)[x] by {
                        let j = choose|j: int| 0 <= j < self.entries@.len() && self.entries@[j].0@ == x;
                        if x == k {
                            if j != i as int {
                                assert(before[j].0@ == before[i as int].0@);
                                if j < i as int {
                                    assert(before[j].0@ != before[i as int].0@);
                                } else {
                                    assert(before[i as int].0@ != before[j].0@);
                                }
                            }
                        } else {
                            assert(j != i as int);
                            assert(before[j].0@ == x);
                            assert(old_map.contains_key(x));
                            let j2 = choose|j2: int| 0 <= j2 < before.len() && before[j2].0@ == x;
                            if j != j2 {
                                if j < j2 {
                                    assert(before[j].0@ != before[j2].0@);
                                } else {
                                    assert(before[j2].0@ != before[j].0@);
                                }
                            }
                        }
                    }
                }
            },
            None => {
                self.entries.push((id, user));
                assert(self@ =~= old_map.insert(k, pw)) by {
                    let n = before.len() as int;
                    assert(old_map =~= Map::new(
                        |x: Seq<u8>| exists|i: int| 0 <= i < before.len() && before[i].0@ == x,
                        |x: Seq<u8>| before[choose|i: int| 0 <= i < before.len() && before[i].0@ == x].1.spec_entry(),
                    ));
                    assert forall|j: int| 0 <= j < n implies self.entries@[j] == before[j] by {}
                    assert(self.entries@[n].0@ == k);
                    assert forall|x: Seq<u8>| #[trigger] self@.contains_key(x) == old_map.insert(k, pw).contains_key(x) by {
                        if x == k {
                            assert(0 <= n < self.entries@.len() && self.entries@[n].0@ == x);
                            assert(self@.contains_key(x));
                        } else if old_map.contains_key(x) {
                            let j = choose|j: int| 0 <= j < before.len() && before[j].0@ == x;
                            assert(self.entries@[j].0@ == x);
                            assert(self@.contains_key(x));
                        }
                        if self@.contains_key(x) && x != k {
                            let j = choose|j: int| 0 <= j < self.entries@.len() && self.entries@[j].0@ == x;
                            assert(j != n);
                            assert(before[j].0@ == x);
                            assert(old_map.contains_key(x));
                        }
                    }
                    assert forall|x: Seq<u8>| #[trigger] self@.contains_key(x) implies self@[x] == old_map.insert(k, pw)[x] by {
                        let j = choose|j: int| 0 <= j < self.entries@.len() && self.entries@[j].0@ == x;
                        if x == k {
                            if j != n {
                                assert(before[j].0@ == k);
                                assert(old_map.contains_key(k));
                            }
                        } else {
                            assert(j != n);
                            assert(before[j].0@ == x);
                            assert(old_map.contains_key(x));
                            let j2 = choose|j2: int| 0 <= j2 < before.len() && before[j2].0@ == x;
                            if j != j2 {
                                if j < j2 {
                                    assert(before[j].0@ != before[j2].0@);
                                } else {
                                    assert(before[j2].0@ != before[j].0@);
                                }
                            }
                        }
                    }
                }
            },
        }
    }
}

/// Whether two byte strings are equal.
pub fn bytes_eq(a: &[u8], b: &[u8]) -> (r: bool)
    ensures
        r == (a@ == b@),
{
    if a.len() != b.len() {
        return false;
    }
    let mut i: usize = 0;
    while i < a.len()
        invariant
            a@.len() == b@.len(),
            i <= a@.len(),
            forall|j: int| 0 <= j < i ==> a@[j] == b@[j],
        decreases a@.len() - i,
    {
        if a[i] != b[i] {
            return false;
        }
        i = i + 1;
    }
    assert(a@ =~= b@);
    true
}

/// Settings of the local endpoint.
#[derive(Clone, Debug)]
pub struct ClientConfig {
    pub username: Digest,
    pub password: Digest,
    pub cipher: Cipher,
    pub server: SockAddr,
    pub listen: SockAddr,
}

/// Settings of the remote endpoint.
#[derive(Clone, Debug)]
pub struct ServerConfig {
    pub listen: SockAddr,
    pub users: UserTable,
}

} // verus!
