//! The 64-bit FNV-1a hash, and its lowercase hexadecimal form.

use vstd::prelude::*;

verus! {

pub const FNV_OFFSET_BASIS: u64 = 0xcbf29ce484222325;

pub const FNV_PRIME: u64 = 0x100000001b3;

/// The state after each byte of `bytes` is folded into `state`: xor the
/// byte in, then multiply by the prime, modulo 2^64.
pub open spec fn fnv_fold(state: u64, bytes: Seq<u8>) -> u64
    decreases bytes.len(),
{
    if bytes.len() == 0 {
        state
    } else {
        (fnv_fold(state, bytes.drop_last()) ^ (bytes.last() as u64)).wrapping_mul(FNV_PRIME)
    }
}

/// The lowercase hexadecimal digit of `d`, below 16.
pub open spec fn hex_char(d: nat) -> char {
    if d < 10 {
        (('0' as u32) + d) as char
    } else {
        (('a' as u32) + (d - 10)) as char
    }
}

/// The last `n` hexadecimal digits of `v`, zero-padded.
pub open spec fn hex_digits(v: nat, n: nat) -> Seq<char>
    decreases n,
{
    if n == 0 {
        Seq::empty()
    } else {
        hex_digits(v / 16, (n - 1) as nat).push(hex_char(v % 16))
    }
}

fn hex_digit(d: u64) -> (c: char)
    requires
        d < 16,
    ensures
        c == hex_char(d as nat),
{
    match d {
        0 => '0',
        1 => '1',
        2 => '2',
        3 => '3',
        4 => '4',
        5 => '5',
        6 => '6',
        7 => '7',
        8 => '8',
        9 => '9',
        10 => 'a',
        11 => 'b',
        12 => 'c',
        13 => 'd',
        14 => 'e',
        _ => 'f',
    }
}

fn push_hex(v: u64, n: u8, out: &mut Vec<char>)
    ensures
        final(out)@ == old(out)@ + hex_digits(v as nat, n as nat),
    decreases n,
{
    if n > 0 {
        push_hex(v / 16, n - 1, out);
        out.push(hex_digit(v % 16));
        assert(final(out)@ =~= old(out)@ + hex_digits(v as nat, n as nat));
    } else {
        assert(final(out)@ =~= old(out)@ + hex_digits(v as nat, n as nat));
    }
}

/// An FNV-1a hasher.
pub struct Fnv64 {
    state: u64,
}

impl View for Fnv64 {
    type V = u64;

    closed spec fn view(&self) -> u64 {
        self.state
    }
}

impl Fnv64 {
    /// A hasher that has seen nothing.
    pub fn new() -> (h: Self)
        ensures
            h@ == FNV_OFFSET_BASIS,
    {
        Fnv64 { state: FNV_OFFSET_BASIS }
    }

    /// Folds `bytes` in, in order.
    pub fn update(&mut self, bytes: &[u8])
        ensures
            final(self)@ == fnv_fold(old(self)@, bytes@),
    {
        let mut i: usize = 0;
        while i < bytes.len()
            invariant
                i <= bytes@.len(),
                self.state == fnv_fold(old(self)@, bytes@.subrange(0, i as int)),
            decreases bytes@.len() - i,
        {
            assert(bytes@.subrange(0, i + 1).drop_last() =~= bytes@.subrange(0, i as int));
            self.state = (self.state ^ (bytes[i] as u64)).wrapping_mul(FNV_PRIME);
            i = i + 1;
        }
        assert(bytes@.subrange(0, bytes@.len() as int) =~= bytes@);
    }

    /// The hash as sixteen lowercase hexadecimal digits.
    pub fn finish_hex(&self) -> (r: String)
        ensures
            r@ == hex_digits(self@ as nat, 16),
    {
        let mut digits: Vec<char> = Vec::new();
        push_hex(self.state, 16, &mut digits);
        assert(digits@ =~= hex_digits(self@ as nat, 16));
        crate::text::string_from_chars(&digits)
    }
}

#[verifier::external_type_specification]
#[verifier::external_body]
pub struct ExPathBuf(std::path::PathBuf);

/// A file and the hash of its contents.
#[derive(Debug, PartialEq, Eq)]
pub struct FileHash {
    pub path: std::path::PathBuf,
    pub hash_hex: String,
}

/// The record for the file at `path`, whose contents are `contents`.
pub fn file_hash(path: std::path::PathBuf, contents: &[u8]) -> (r: FileHash)
    ensures
        r.path == path,
        r.hash_hex@ == hex_digits(fnv_fold(FNV_OFFSET_BASIS, contents@) as nat, 16),
{
    let mut h = Fnv64::new();
    h.update(contents);
    FileHash { path, hash_hex: h.finish_hex() }
}

} // verus!
