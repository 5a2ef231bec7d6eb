//! Content digests over length-framed fields.
use sha2::{Digest, Sha256};
use vstd::prelude::*;
use vstd::string::*;

verus! {

/// The SHA-256 digest of a message.
pub uninterp spec fn sha256(message: Seq<u8>) -> Seq<u8>;

/// `sha2::Sha256::digest`: the SHA-256 digest of the message, which is 32 bytes long.
#[verifier::external_body]
fn sha256_digest(message: &[u8]) -> (r: Vec<u8>)
    ensures
        r@ == sha256(message@),
        r@.len() == 32,
{
    Sha256::digest(message).to_vec()
}

/// The `k` low bytes of `n`, most significant first.
pub open spec fn be_bytes(n: nat, k: nat) -> Seq<u8>
    decreases k,
{
    if k == 0 {
        Seq::empty()
    } else {
        be_bytes(n / 256, (k - 1) as nat).push((n % 256) as u8)
    }
}

/// The number that a sequence of bytes denotes, most significant first.
pub open spec fn be_value(bytes: Seq<u8>) -> nat
    decreases bytes.len(),
{
    if bytes.len() == 0 {
        0
    } else {
        be_value(bytes.drop_last()) * 256 + bytes.last() as nat
    }
}

/// A string field: its length in bytes as a 64-bit number, then its UTF-8 bytes.
pub open spec fn string_field(s: Seq<char>) -> Seq<u8> {
    bytes_field(vstd::utf8::encode_utf8(s))
}

/// A byte field: its length as a 64-bit number, then the bytes.
pub open spec fn bytes_field(bytes: Seq<u8>) -> Seq<u8> {
    be_bytes(bytes.len(), 8) + bytes
}

/// A 256-bit content digest, as four big-endian 64-bit words.
#[derive(Clone, Copy, Debug, PartialEq, Eq, Hash, Structural)]
pub struct SnapshotHash {
    pub w0: u64,
    pub w1: u64,
    pub w2: u64,
    pub w3: u64,
}

/// The words of a 32-byte digest.
pub open spec fn words_of(d: Seq<u8>) -> SnapshotHash {
    SnapshotHash {
        w0: be_value(d.subrange(0, 8)) as u64,
        w1: be_value(d.subrange(8, 16)) as u64,
        w2: be_value(d.subrange(16, 24)) as u64,
        w3: be_value(d.subrange(24, 32)) as u64,
    }
}

/// The digest of a framed message.
pub open spec fn hash_of(message: Seq<u8>) -> SnapshotHash {
    words_of(sha256(message))
}

proof fn lemma_be_value_bound(bytes: Seq<u8>)
    requires
        bytes.len() <= 8,
    ensures
        bytes.len() == 0 ==> be_value(bytes) < 1,
        bytes.len() == 1 ==> be_value(bytes) < 0x100,
        bytes.len() == 2 ==> be_value(bytes) < 0x1_0000,
        bytes.len() == 3 ==> be_value(bytes) < 0x100_0000,
        bytes.len() == 4 ==> be_value(bytes) < 0x1_0000_0000,
        bytes.len() == 5 ==> be_value(bytes) < 0x100_0000_0000,
        bytes.len() == 6 ==> be_value(bytes) < 0x1_0000_0000_0000,
        bytes.len() == 7 ==> be_value(bytes) < 0x100_0000_0000_0000,
        bytes.len() == 8 ==> be_value(bytes) < 0x1_0000_0000_0000_0000,
    decreases bytes.len(),
{
    if bytes.len() > 0 {
        lemma_be_value_bound(bytes.drop_last());
    }
}

/// The 64-bit word at `at`.
fn word_at(bytes: &Vec<u8>, at: usize) -> (r: u64)
    requires
        at + 8 <= bytes.len(),
    ensures
        r == be_value(bytes@.subrange(at as int, at + 8)) as u64,
{
    let mut value: u64 = 0;
    let mut i: usize = 0;
    while i < 8
        invariant
            i <= 8,
            at + 8 <= bytes.len(),
            value == be_value(bytes@.subrange(at as int, at + i)),
        decreases 8 - i,
    {
        proof {
            let next = bytes@.subrange(at as int, at + i + 1);
            assert(next.drop_last() =~= bytes@.subrange(at as int, at + i));
            assert(next.last() == bytes@[at + i]);
            lemma_be_value_bound(bytes@.subrange(at as int, at + i));
        }
        value = value * 256 + bytes[at + i] as u64;
        i = i + 1;
    }
    value
}

impl SnapshotHash {
    /// The digest of a byte sequence.
    pub fn digest_bytes(bytes: &[u8]) -> (r: SnapshotHash)
        ensures
            r == hash_of(bytes@),
    {
        let d: Vec<u8> = sha256_digest(bytes);
        SnapshotHash {
            w0: word_at(&d, 0),
            w1: word_at(&d, 8),
            w2: word_at(&d, 16),
            w3: word_at(&d, 24),
        }
    }

    /// Starts a frame for the kind of object called `domain`.
    pub fn builder(domain: &str) -> (r: HashFrame)
        ensures
            r@ == string_field(domain@),
    {
        let mut frame: HashFrame = HashFrame { bytes: Vec::new() };
        frame.string(domain);
        proof {
            assert(Seq::<u8>::empty() + string_field(domain@) =~= string_field(domain@));
        }
        frame
    }
}

/// A framed message under construction.
pub struct HashFrame {
    bytes: Vec<u8>,
}

impl View for HashFrame {
    type V = Seq<u8>;

    closed spec fn view(&self) -> Seq<u8> {
        self.bytes@
    }
}

impl HashFrame {
    pub fn u8(&mut self, n: u8)
        ensures
            final(self)@ == old(self)@ + seq![n],
    {
        self.bytes.push(n);
        proof {
            assert(self@ =~= old(self)@ + seq![n]);
        }
    }

    pub fn u16(&mut self, n: u16)
        ensures
            final(self)@ == old(self)@ + be_bytes(n as nat, 2),
    {
        self.bytes.push((n / 256) as u8);
        self.bytes.push((n % 256) as u8);
        proof {
            reveal_with_fuel(be_bytes, 3);
            assert(self@ =~= old(self)@ + be_bytes(n as nat, 2));
        }
    }

    pub fn u32(&mut self, n: u32)
        ensures
            final(self)@ == old(self)@ + be_bytes(n as nat, 4),
    {
        self.bytes.push((n / 0x100_0000) as u8);
        self.bytes.push((n / 0x1_0000 % 256) as u8);
        self.bytes.push((n / 256 % 256) as u8);
        self.bytes.push((n % 256) as u8);
        proof {
            reveal_with_fuel(be_bytes, 5);
            let m = n as nat;
            assert(m / 256 / 256 == m / 0x1_0000);
            assert(m / 256 / 256 / 256 == m / 0x100_0000);
            assert(self@ =~= old(self)@ + be_bytes(n as nat, 4));
        }
    }

    pub fn u64(&mut self, n: u64)
        ensures
            final(self)@ == old(self)@ + be_bytes(n as nat, 8),
    {
        self.bytes.push((n / 0x100_0000_0000_0000) as u8);
        self.bytes.push((n / 0x1_0000_0000_0000 % 256) as u8);
        self.bytes.push((n / 0x100_0000_0000 % 256) as u8);
        self.bytes.push((n / 0x1_0000_0000 % 256) as u8);
        self.bytes.push((n / 0x100_0000 % 256) as u8);
        self.bytes.push((n / 0x1_0000 % 256) as u8);
        self.bytes.push((n / 256 % 256) as u8);
        self.bytes.push((n % 256) as u8);
        proof {
            reveal_with_fuel(be_bytes, 9);
            let m = n as nat;
            assert(m / 256 / 256 == m / 0x1_0000);
            assert(m / 0x1_0000 / 256 == m / 0x100_0000);
            assert(m / 0x100_0000 / 256 == m / 0x1_0000_0000);
            assert(m / 0x1_0000_0000 / 256 == m / 0x100_0000_0000);
            assert(m / 0x100_0000_0000 / 256 == m / 0x1_0000_0000_0000);
            assert(m / 0x1_0000_0000_0000 / 256 == m / 0x100_0000_0000_0000);
            assert(self@ =~= old(self)@ + be_bytes(n as nat, 8));
        }
    }

    pub fn bytes(&mut self, bytes: &[u8])
        ensures
            final(self)@ == old(self)@ + bytes_field(bytes@),
    {
        self.u64(bytes.len() as u64);
        let ghost head = self@;
        let mut i: usize = 0;
        while i < bytes.len()
            invariant
                i <= bytes@.len(),
                self@ == head + bytes@.take(i as int),
            decreases bytes@.len() - i,
        {
            self.bytes.push(bytes[i]);
            i = i + 1;
            proof {
                assert(self@ =~= head + bytes@.take(i as int));
            }
        }
        proof {
            assert(self@ =~= old(self)@ + bytes_field(bytes@));
        }
    }

    pub fn string(&mut self, s: &str)
        ensures
            final(self)@ == old(self)@ + string_field(s@),
    {
        self.bytes(s.as_bytes());
    }

    /// The digest of the framed message.
    pub fn finish(&self) -> (r: SnapshotHash)
        ensures
            r == hash_of(self@),
    {
        SnapshotHash::digest_bytes(self.bytes.as_slice())
    }
}

/// The two lower-case hexadecimal digits of a byte.
pub open spec fn hex_pair(b: u8) -> Seq<char> {
    seq![hex_digit((b / 16) as nat), hex_digit((b % 16) as nat)]
}

/// A lower-case hexadecimal digit.
pub open spec fn hex_digit(d: nat) -> char {
    if d < 10 {
        (48 + d) as char
    } else {
        (87 + d) as char
    }
}

/// The lower-case hexadecimal digits of a byte sequence.
pub open spec fn hex_digits(bytes: Seq<u8>) -> Seq<char>
    decreases bytes.len(),
{
    if bytes.len() == 0 {
        Seq::empty()
    } else {
        hex_digits(bytes.drop_last()) + hex_pair(bytes.last())
    }
}

fn hex_digit_text(d: u8) -> (r: &'static str)
    requires
        d < 16,
    ensures
        r@ == seq![hex_digit(d as nat)],
{
    proof {
        reveal_strlit("0");
        reveal_strlit("1");
        reveal_strlit("2");
        reveal_strlit("3");
        reveal_strlit("4");
        reveal_strlit("5");
        reveal_strlit("6");
        reveal_strlit("7");
        reveal_strlit("8");
        reveal_strlit("9");
        reveal_strlit("a");
        reveal_strlit("b");
        reveal_strlit("c");
        reveal_strlit("d");
        reveal_strlit("e");
        reveal_strlit("f");
    }
    match d {
        0 => "0",
        1 => "1",
        2 => "2",
        3 => "3",
        4 => "4",
        5 => "5",
        6 => "6",
        7 => "7",
        8 => "8",
        9 => "9",
        10 => "a",
        11 => "b",
        12 => "c",
        13 => "d",
        14 => "e",
        _ => "f",
    }
}

/// The digest of some bytes as text: a prefix and two digits for each byte.
pub open spec fn sha256_hex_text(bytes: Seq<u8>) -> Seq<char> {
    "sha256:"@ + hex_digits(sha256(bytes))
}

/// The SHA-256 digest of `bytes` as `sha256:` and 64 hexadecimal digits.
pub fn sha256_hex(bytes: &[u8]) -> (r: String)
    ensures
        r@ == sha256_hex_text(bytes@),
{
    let d: Vec<u8> = sha256_digest(bytes);
    let mut out: String = "sha256:".to_owned();
    let mut i: usize = 0;
    while i < d.len()
        invariant
            i <= d@.len(),
            out@ == "sha256:"@ + hex_digits(d@.take(i as int)),
        decreases d@.len() - i,
    {
        let ghost before = hex_digits(d@.take(i as int));
        out.append(hex_digit_text(d[i] / 16));
        out.append(hex_digit_text(d[i] % 16));
        proof {
            let next = d@.take(i + 1);
            assert(next.drop_last() =~= d@.take(i as int));
            assert(next.last() == d@[i as int]);
            assert(out@ =~= "sha256:"@ + (before + hex_pair(d@[i as int])));
        }
        i = i + 1;
    }
    proof {
        assert(d@.take(i as int) =~= d@);
    }
    out
}

} // verus!
