use vstd::prelude::*;

verus! {

/// A 256-bit digest.
pub type Hash = [u8; 32];

/// One link of the hash chain: `num_hashes` hash steps from the previous hash,
/// the last of them mixed with `payload` when there is one.
#[derive(Clone, Debug)]
pub struct Entry {
    pub num_hashes: u64,
    pub hash: Hash,
    pub payload: Option<Vec<u8>>,
}

/// The mathematical value of an `Entry`.
pub ghost struct EntryView {
    pub num_hashes: nat,
    pub hash: Seq<u8>,
    pub payload: Option<Seq<u8>>,
}

pub open spec fn payload_view(p: Option<Vec<u8>>) -> Option<Seq<u8>> {
    match p {
        Some(v) => Some(v@),
        None => None,
    }
}

pub open spec fn mixin_view(m: Option<&[u8]>) -> Option<Seq<u8>> {
    match m {
        Some(s) => Some(s@),
        None => None,
    }
}

impl View for Entry {
    type V = EntryView;

    open spec fn view(&self) -> EntryView {
        EntryView {
            num_hashes: self.num_hashes as nat,
            hash: self.hash@,
            payload: payload_view(self.payload),
        }
    }
}

/// The SHA-256 digest of a byte sequence.
pub uninterp spec fn sha256_of(data: Seq<u8>) -> Seq<u8>;

/// One hash step: the digest of `input`, followed by `mixin` when present.
pub open spec fn hash_step(input: Seq<u8>, mixin: Option<Seq<u8>>) -> Seq<u8> {
    match mixin {
        Some(m) => sha256_of(input + m),
        None => sha256_of(input),
    }
}

/// `n` plain hash steps from `input`.
pub open spec fn hash_repeat(input: Seq<u8>, n: nat) -> Seq<u8>
    decreases n,
{
    if n == 0 {
        input
    } else {
        hash_step(hash_repeat(input, (n - 1) as nat), None)
    }
}

/// The hash an entry of `num_hashes` steps carrying `payload` has when it
/// follows `prev`.
pub open spec fn entry_hash(prev: Seq<u8>, num_hashes: nat, payload: Option<Seq<u8>>) -> Seq<u8> {
    hash_step(hash_repeat(prev, (num_hashes - 1) as nat), payload)
}

/// `e` is a correct link following `prev`.
pub open spec fn entry_valid(prev: Seq<u8>, e: EntryView) -> bool {
    &&& e.num_hashes >= 1
    &&& e.hash == entry_hash(prev, e.num_hashes, e.payload)
}

/// No steps leave a hash as it is, and each further step is one plain hash
/// step of the result before.
pub proof fn lemma_hash_repeat_steps(h: Seq<u8>, n: nat)
    ensures
        hash_repeat(h, 0) == h,
        hash_repeat(h, n + 1) == hash_step(hash_repeat(h, n), None),
{
}

/// Relies on sha2::Sha256::digest (the `Digest::digest` of digest 0.10): the
/// SHA-256 digest of `data`, which depends on those bytes alone.
#[verifier::external_body]
fn sha256(data: &[u8]) -> (r: Hash)
    ensures
        r@ == sha256_of(data@),
{
    <sha2::Sha256 as sha2::Digest>::digest(data).into()
}

fn append_bytes(buf: &mut Vec<u8>, data: &[u8])
    ensures
        final(buf)@ == old(buf)@ + data@,
{
    let mut i: usize = 0;
    while i < data.len()
        invariant
            i <= data@.len(),
            buf@ == old(buf)@ + data@.subrange(0, i as int),
        decreases data@.len() - i,
    {
        buf.push(data[i]);
        i += 1;
        assert(data@.subrange(0, i as int) == data@.subrange(0, i - 1).push(data@[i - 1]));
    }
    assert(data@.subrange(0, data@.len() as int) == data@);
}

/// Whether two hashes hold the same bytes.
pub fn hash_eq(a: &Hash, b: &Hash) -> (r: bool)
    ensures
        r == (a@ == b@),
{
    let mut i: usize = 0;
    while i < 32
        invariant
            i <= 32,
            a@.len() == 32,
            b@.len() == 32,
            forall|j: int| 0 <= j < i ==> a@[j] == b@[j],
        decreases 32 - i,
    {
        if a[i] != b[i] {
            return false;
        }
        i += 1;
    }
    assert(a@ =~= b@);
    true
}

/// One hash step from `prev`, mixed with `mixin` when present.
pub fn hash_once(prev: &Hash, mixin: Option<&[u8]>) -> (r: Hash)
    ensures
        r@ == hash_step(prev@, mixin_view(mixin)),
{
    let mut buf: Vec<u8> = Vec::new();
    append_bytes(&mut buf, prev.as_slice());
    if let Some(data) = mixin {
        append_bytes(&mut buf, data);
    }
    sha256(buf.as_slice())
}

/// `n` plain hash steps from `prev`.
pub fn hash_n(prev: &Hash, n: u64) -> (r: Hash)
    ensures
        r@ == hash_repeat(prev@, n as nat),
{
    let mut curr: Hash = *prev;
    let mut i: u64 = 0;
    while i < n
        invariant
            i <= n,
            curr@ == hash_repeat(prev@, i as nat),
        decreases n - i,
    {
        curr = hash_once(&curr, None);
        i += 1;
    }
    curr
}

/// Whether `entry` is a correct link following `prev`: it has at least one
/// hash step and its hash is what those steps give.
pub fn verify_entry(prev: &Hash, entry: &Entry) -> (r: bool)
    ensures
        r == entry_valid(prev@, entry@),
{
    if entry.num_hashes == 0 {
        return false;
    }
    let curr = hash_n(prev, entry.num_hashes - 1);
    let final_hash = match entry.payload.as_ref() {
        Some(p) => hash_once(&curr, Some(p.as_slice())),
        None => hash_once(&curr, None),
    };
    hash_eq(&final_hash, &entry.hash)
}

} // verus!
