use vstd::prelude::*;
use vstd::string::{StrSliceExecFns, StringExecFns};

verus! {

/// Multiplier of the 64-bit FNV-1a hash, used as the mixing constant of
/// the key generator and of the verifier hash.
pub const HASH_PRIME: u64 = 0x100000001b3;

/// Offset basis of the 64-bit FNV-1a hash.
pub const HASH_BASIS: u64 = 0xcbf29ce484222325;

/// Odd constant mixed in whenever the process-wide seed advances, so that
/// two consecutive seeds never coincide with a plain hash chain.
pub const SEED_STEP: u64 = 0x9e3779b97f4a7c15;

/// One mixing step: multiply by the hash prime and add the new value,
/// both wrapping.
pub open spec fn mix64(h: u64, v: u64) -> u64 {
    h.wrapping_mul(HASH_PRIME).wrapping_add(v)
}

/// Hash of a character sequence, folded left to right from the basis.
pub open spec fn str_hash(s: Seq<char>) -> u64
    decreases s.len(),
{
    if s.len() == 0 {
        HASH_BASIS
    } else {
        mix64(str_hash(s.drop_last()), s.last() as u64)
    }
}

/// The seed after one key creation that supplied `entropy`.
pub open spec fn advance_seed(seed: u64, entropy: Seq<char>) -> u64 {
    mix64(mix64(seed, str_hash(entropy)), SEED_STEP)
}

/// The 4-bit group of `v` that the `i`-th key character encodes, counted
/// from the most significant end.
pub open spec fn nibble(v: u64, i: int) -> u64 {
    (v >> ((60 - 4 * i) as u64)) & 0xf
}

/// The lower-case hexadecimal digit of a 4-bit value.
pub open spec fn hex_digit(d: u64) -> char {
    if d == 0 {
        '0'
    } else if d == 1 {
        '1'
    } else if d == 2 {
        '2'
    } else if d == 3 {
        '3'
    } else if d == 4 {
        '4'
    } else if d == 5 {
        '5'
    } else if d == 6 {
        '6'
    } else if d == 7 {
        '7'
    } else if d == 8 {
        '8'
    } else if d == 9 {
        '9'
    } else if d == 10 {
        'a'
    } else if d == 11 {
        'b'
    } else if d == 12 {
        'c'
    } else if d == 13 {
        'd'
    } else if d == 14 {
        'e'
    } else {
        'f'
    }
}

/// The sixteen hexadecimal characters of a freshly derived key value.
pub open spec fn key_chars(v: u64) -> Seq<char> {
    Seq::new(16, |i: int| hex_digit(nibble(v, i)))
}

/// Whether `key` authenticates `address` against the stored verifiers:
/// the address has a verifier and it matches the key's hash.  An address
/// that never set a key authenticates as false, never as an error.
pub open spec fn key_valid(m: Map<Seq<char>, u64>, address: Seq<char>, key: Seq<char>) -> bool {
    m.contains_key(address) && m[address] == str_hash(key)
}

/// One stored viewing-key verifier.  The key itself is never stored.
pub struct KeyEntry {
    pub address: String,
    pub verifier: u64,
}

/// Whether no address owns two verifier entries.
pub open spec fn addrs_unique(s: Seq<KeyEntry>) -> bool {
    forall|i: int, j: int| 0 <= i < j < s.len() ==> s[i].address@ != s[j].address@
}

/// The verifier map held by a sequence of entries.
pub open spec fn verifiers_of(s: Seq<KeyEntry>) -> Map<Seq<char>, u64>
    decreases s.len(),
{
    if s.len() == 0 {
        Map::empty()
    } else {
        verifiers_of(s.drop_last()).insert(s.last().address@, s.last().verifier)
    }
}

proof fn lemma_verifiers_domain(s: Seq<KeyEntry>, a: Seq<char>)
    ensures
        verifiers_of(s).contains_key(a) <==> (exists|i: int|
            0 <= i < s.len() && s[i].address@ == a),
    decreases s.len(),
{
    if s.len() > 0 {
        lemma_verifiers_domain(s.drop_last(), a);
        if verifiers_of(s).contains_key(a) {
            if s.last().address@ != a {
                let i = choose|i: int| 0 <= i < s.drop_last().len() && s.drop_last()[i].address@
                    == a;
                assert(s[i].address@ == a);
            }
        }
        if exists|i: int| 0 <= i < s.len() && s[i].address@ == a {
            let i = choose|i: int| 0 <= i < s.len() && s[i].address@ == a;
            if i < s.len() - 1 {
                assert(s.drop_last()[i].address@ == a);
            }
        }
    }
}

proof fn lemma_verifiers_value(s: Seq<KeyEntry>, i: int)
    requires
        addrs_unique(s),
        0 <= i < s.len(),
    ensures
        verifiers_of(s).contains_key(s[i].address@),
        verifiers_of(s)[s[i].address@] == s[i].verifier,
    decreases s.len(),
{
    if i < s.len() - 1 {
        assert(s.drop_last()[i] == s[i]);
        lemma_verifiers_value(s.drop_last(), i);
    }
}

proof fn lemma_verifiers_update(s: Seq<KeyEntry>, i: int, h: u64)
    requires
        addrs_unique(s),
        0 <= i < s.len(),
    ensures
        verifiers_of(s.update(i, KeyEntry { address: s[i].address, verifier: h })) =~= verifiers_of(
            s,
        ).insert(s[i].address@, h),
    decreases s.len(),
{
    let t = s.update(i, KeyEntry { address: s[i].address, verifier: h });
    if i == s.len() - 1 {
        assert(t.drop_last() =~= s.drop_last());
    } else {
        assert(t.drop_last() =~= s.drop_last().update(
            i,
            KeyEntry { address: s[i].address, verifier: h },
        ));
        assert(s.drop_last()[i] == s[i]);
        lemma_verifiers_update(s.drop_last(), i, h);
        assert(t.last() == s.last());
        assert(s.last().address@ != s[i].address@);
    }
}

/// Issues and verifies the per-address viewing keys that gate ownership
/// queries.  Holds the single process-wide entropy seed, established once
/// at system start and advanced deterministically, exactly once, on every
/// key creation.
pub struct Authenticator {
    /// process-wide entropy seed
    pub seed: u64,
    /// stored verifiers, at most one per address
    pub entries: Vec<KeyEntry>,
}

impl Authenticator {
    /// The verifier map this authenticator holds.
    pub open spec fn verifier_map(self) -> Map<Seq<char>, u64> {
        verifiers_of(self.entries@)
    }

    pub open spec fn wf(self) -> bool {
        addrs_unique(self.entries@)
    }

    /// A fresh authenticator whose seed is derived from the entropy the
    /// factory was instantiated with.
    pub fn new(entropy: &String) -> (r: Authenticator)
        ensures
            r.wf(),
            r.seed == mix64(HASH_BASIS, str_hash(entropy@)),
            r.verifier_map() =~= Map::<Seq<char>, u64>::empty(),
    {
        let e = str_hash_str(entropy.as_str());
        Authenticator { seed: HASH_BASIS.wrapping_mul(HASH_PRIME).wrapping_add(e), entries: Vec::new() }
    }

    /// Stores `h` as the verifier of `address`, replacing any old one.
    fn store(&mut self, address: &String, h: u64)
        requires
            old(self).wf(),
        ensures
            final(self).wf(),
            final(self).seed == old(self).seed,
            final(self).verifier_map() =~= old(self).verifier_map().insert(address@, h),
    {
        let n = self.entries.len();
        let mut i: usize = 0;
        while i < n
            invariant
                *self == *old(self),
                self.wf(),
                n == self.entries.len(),
                0 <= i <= n,
                forall|j: int| 0 <= j < i ==> self.entries@[j].address@ != address@,
            decreases n - i,
        {
            if self.entries[i].address == *address {
                let ghost s = self.entries@;
                self.entries[i].verifier = h;
                proof {
                    assert(self.entries@ =~= s.update(
                        i as int,
                        KeyEntry { address: s[i as int].address, verifier: h },
                    ));
                    lemma_verifiers_update(s, i as int, h);
                }
                return ;
            }
            i += 1;
        }
        let ghost s = self.entries@;
        self.entries.push(KeyEntry { address: address.clone(), verifier: h });
        proof {
            assert(self.entries@.drop_last() =~= s);
            assert(addrs_unique(self.entries@));
        }
    }

    /// Stores caller-supplied key material: only the key's hash is kept.
    pub fn set(&mut self, address: &String, key: &String)
        requires
            old(self).wf(),
        ensures
            final(self).wf(),
            final(self).seed == old(self).seed,
            final(self).verifier_map() =~= old(self).verifier_map().insert(
                address@,
                str_hash(key@),
            ),
    {
        let h = str_hash_str(key.as_str());
        self.store(address, h);
    }

    /// Derives a fresh key from the caller's entropy mixed with the
    /// process-wide seed, advances the seed, stores the key's verifier and
    /// returns the key itself — the one time it is ever handed out.
    pub fn create(&mut self, address: &String, entropy: &String) -> (key: String)
        requires
            old(self).wf(),
        ensures
            final(self).wf(),
            final(self).seed == advance_seed(old(self).seed, entropy@),
            key@ == key_chars(mix64(final(self).seed, str_hash(address@))),
            final(self).verifier_map() =~= old(self).verifier_map().insert(
                address@,
                str_hash(key@),
            ),
    {
        let e = str_hash_str(entropy.as_str());
        self.seed = self.seed.wrapping_mul(HASH_PRIME).wrapping_add(e).wrapping_mul(
            HASH_PRIME,
        ).wrapping_add(SEED_STEP);
        let a = str_hash_str(address.as_str());
        let key = build_key(self.seed.wrapping_mul(HASH_PRIME).wrapping_add(a));
        let h = str_hash_str(key.as_str());
        self.store(address, h);
        key
    }

    /// Whether `key` authenticates `address`.  The comparison is a single
    /// machine-word equality over the key's hash, so its timing does not
    /// depend on how much of the key matches, and an absent verifier
    /// answers false exactly like a wrong key.
    pub fn verify(&self, address: &String, key: &String) -> (r: bool)
        requires
            self.wf(),
        ensures
            r == key_valid(self.verifier_map(), address@, key@),
    {
        let h = str_hash_str(key.as_str());
        let n = self.entries.len();
        let mut i: usize = 0;
        while i < n
            invariant
                self.wf(),
                h == str_hash(key@),
                n == self.entries.len(),
                0 <= i <= n,
                forall|j: int| 0 <= j < i ==> self.entries@[j].address@ != address@,
            decreases n - i,
        {
            if self.entries[i].address == *address {
                proof {
                    lemma_verifiers_value(self.entries@, i as int);
                }
                return self.entries[i].verifier == h;
            }
            i += 1;
        }
        proof {
            lemma_verifiers_domain(self.entries@, address@);
        }
        false
    }
}

/// Hash of a string slice's characters.
pub fn str_hash_str(s: &str) -> (r: u64)
    ensures
        r == str_hash(s@),
{
    let n = s.unicode_len();
    let mut h: u64 = HASH_BASIS;
    let mut i: usize = 0;
    proof {
        assert(s@.take(0) =~= Seq::<char>::empty());
    }
    while i < n
        invariant
            0 <= i <= n,
            n == s@.len(),
            h == str_hash(s@.take(i as int)),
        decreases n - i,
    {
        let c = s.get_char(i);
        proof {
            assert(s@.take(i as int + 1).drop_last() =~= s@.take(i as int));
            assert(s@.take(i as int + 1).last() == s@[i as int]);
        }
        h = h.wrapping_mul(HASH_PRIME).wrapping_add(c as u64);
        i += 1;
    }
    proof {
        assert(s@.take(n as int) =~= s@);
    }
    h
}

/// Renders a derived key value as sixteen hexadecimal characters.
fn build_key(v: u64) -> (r: String)
    ensures
        r@ == key_chars(v),
{
    let mut r = String::new();
    let mut i: usize = 0;
    while i < 16
        invariant
            0 <= i <= 16,
            r@.len() == i,
            forall|j: int| 0 <= j < i ==> r@[j] == hex_digit(nibble(v, j)),
        decreases 16 - i,
    {
        let d: u64 = (v >> (60 - 4 * (i as u64))) & 0xf;
        proof {
            assert(d == nibble(v, i as int));
        }
        if d == 0 {
            r.append("0");
            proof {
                reveal_strlit("0");
            }
        } else if d == 1 {
            r.append("1");
            proof {
                reveal_strlit("1");
            }
        } else if d == 2 {
            r.append("2");
            proof {
                reveal_strlit("2");
            }
        } else if d == 3 {
            r.append("3");
            proof {
                reveal_strlit("3");
            }
        } else if d == 4 {
            r.append("4");
            proof {
                reveal_strlit("4");
            }
        } else if d == 5 {
            r.append("5");
            proof {
                reveal_strlit("5");
            }
        } else if d == 6 {
            r.append("6");
            proof {
                reveal_strlit("6");
            }
        } else if d == 7 {
            r.append("7");
            proof {
                reveal_strlit("7");
            }
        } else if d == 8 {
            r.append("8");
            proof {
                reveal_strlit("8");
            }
        } else if d == 9 {
            r.append("9");
            proof {
                reveal_strlit("9");
            }
        } else if d == 10 {
            r.append("a");
            proof {
                reveal_strlit("a");
            }
        } else if d == 11 {
            r.append("b");
            proof {
                reveal_strlit("b");
            }
        } else if d == 12 {
            r.append("c");
            proof {
                reveal_strlit("c");
            }
        } else if d == 13 {
            r.append("d");
            proof {
                reveal_strlit("d");
            }
        } else if d == 14 {
            r.append("e");
            proof {
                reveal_strlit("e");
            }
        } else {
            r.append("f");
            proof {
                reveal_strlit("f");
            }
        }
        i += 1;
    }
    proof {
        assert(r@ =~= key_chars(v));
    }
    r
}

} // verus!
