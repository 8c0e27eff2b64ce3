//! The Adler-32 and CRC-32 checksums.

use vstd::prelude::*;

verus! {

/// The 32-bit word that a signed number stands for.
pub open spec fn word(n: i32) -> u32 {
    (if n < 0 {
        n + 0x1_0000_0000
    } else {
        n as int
    }) as u32
}

/// Takes a signed number for the word it stands for.
fn to_word(n: i32) -> (r: u32)
    ensures
        r == word(n),
        r == n || r == n + 0x1_0000_0000,
{
    assert(n < 0 ==> (n as u32) == n + 0x1_0000_0000) by (bit_vector);
    assert(n >= 0 ==> (n as u32) == n) by (bit_vector);
    #[verifier::truncate]
    (n as u32)
}

////////// Adler-32

/// The modulus of Adler-32: the largest prime below two to the sixteen.
pub const ADLER_BASE: u32 = 65521;

/// The two sums of Adler-32: the sum of the bytes, and the sum of the values that
/// the first sum has had.
#[verifier::ext_equal]
pub struct AdlerSums {
    pub a: nat,
    pub b: nat,
}

impl AdlerSums {
    /// The sums that a word holds in its lower and in its upper half.
    pub open spec fn of(value: u32) -> AdlerSums {
        AdlerSums { a: (value % 0x1_0000) as nat, b: (value / 0x1_0000) as nat }
    }

    /// Both sums fit in half a word.
    pub open spec fn fit(self) -> bool {
        self.a < 0x1_0000 && self.b < 0x1_0000
    }

    /// The word that holds the sums.
    pub open spec fn value(self) -> u32 {
        (self.b * 0x1_0000 + self.a) as u32
    }

    /// The sums after more bytes.
    pub open spec fn updated(self, data: Seq<u8>) -> AdlerSums
        decreases data.len(),
    {
        if data.len() == 0 {
            AdlerSums { a: self.a % ADLER_BASE as nat, b: self.b % ADLER_BASE as nat }
        } else {
            let before = self.updated(data.drop_last());
            let a = (before.a + data.last() as nat) % ADLER_BASE as nat;
            AdlerSums { a, b: (before.b + a) % ADLER_BASE as nat }
        }
    }

    /// The sums stay below the modulus.
    pub proof fn lemma_updated_fit(self, data: Seq<u8>)
        ensures
            self.updated(data).a < ADLER_BASE,
            self.updated(data).b < ADLER_BASE,
    {
    }
}

/// The Adler-32 checksum of `data`, continued from the checksum `value`.
pub open spec fn adler_checksum(value: u32, data: Seq<u8>) -> u32 {
    AdlerSums::of(value).updated(data).value()
}

/// The sums that an Adler-32 context holds.
pub uninterp spec fn adler_sums(hasher: adler32::RollingAdler32) -> AdlerSums;

/// `adler32::RollingAdler32`, of which `adler_sums` says what it holds.
#[verifier::external_type_specification]
#[verifier::external_body]
pub struct ExRollingAdler32(adler32::RollingAdler32);

/// `adler32::RollingAdler32::from_value`: a context with the sums that the word
/// holds.
#[verifier::external_body]
fn adler_from_value(value: u32) -> (hasher: adler32::RollingAdler32)
    ensures
        adler_sums(hasher) == AdlerSums::of(value),
{
    adler32::RollingAdler32::from_value(value)
}

/// `adler32::RollingAdler32::update_buffer`: the sums go on over the bytes. They
/// are reduced even if there are none. It does not overflow from sums that fit.
#[verifier::external_body]
fn adler_update(hasher: &mut adler32::RollingAdler32, data: &[u8])
    requires
        adler_sums(*old(hasher)).fit(),
    ensures
        adler_sums(*final(hasher)) == adler_sums(*old(hasher)).updated(data@),
{
    hasher.update_buffer(data)
}

/// `adler32::RollingAdler32::hash`: the word that holds the sums.
#[verifier::external_body]
fn adler_hash(hasher: &adler32::RollingAdler32) -> (value: u32)
    requires
        adler_sums(*hasher).fit(),
    ensures
        value == adler_sums(*hasher).value(),
{
    hasher.hash()
}

/// Compute an Adler-32 checksum of data.
pub fn zlib_adler32(data: &[u8], begin_state: Option<i32>) -> (checksum: u32)
    ensures
        checksum == adler_checksum(word(begin_state.unwrap_or(1)), data@),
{
    let begin_state: i32 = begin_state.unwrap_or(1);
    let mut hasher = adler_from_value(to_word(begin_state));
    adler_update(&mut hasher, data);
    proof {
        AdlerSums::of(word(begin_state)).lemma_updated_fit(data@);
    }
    adler_hash(&hasher)
}

////////// CRC-32

/// The polynomial of CRC-32, with its bits reversed.
pub const CRC_POLYNOMIAL: u32 = 0xedb8_8320;

/// The remainder after `bits` more bits, which are the lowest of `state`.
pub open spec fn crc_shifted(state: u32, bits: nat) -> u32
    decreases bits,
{
    if bits == 0 {
        state
    } else {
        let next = if state & 1 == 1 {
            (state >> 1) ^ CRC_POLYNOMIAL
        } else {
            state >> 1
        };
        crc_shifted(next, (bits - 1) as nat)
    }
}

/// The remainder after more bytes.
pub open spec fn crc_updated(state: u32, data: Seq<u8>) -> u32
    decreases data.len(),
{
    if data.len() == 0 {
        state
    } else {
        crc_shifted(crc_updated(state, data.drop_last()) ^ (data.last() as u32), 8)
    }
}

/// The CRC-32 checksum of `data`, continued from the checksum `value`. A checksum
/// is the complement of the remainder.
pub open spec fn crc_checksum(value: u32, data: Seq<u8>) -> u32 {
    !crc_updated(!value, data)
}

/// What a CRC-32 context holds: the checksum so far, and how many bytes it has
/// been given.
#[verifier::ext_equal]
pub struct CrcState {
    pub value: u32,
    pub amount: nat,
}

/// What a CRC-32 context holds.
pub uninterp spec fn crc_state(hasher: crc32fast::Hasher) -> CrcState;

/// `crc32fast::Hasher`, of which `crc_state` says what it holds.
#[verifier::external_type_specification]
#[verifier::external_body]
pub struct ExHasher(crc32fast::Hasher);

/// `crc32fast::Hasher::new_with_initial`: a context that starts from the
/// checksum `value`.
#[verifier::external_body]
fn crc_new_with_initial(value: u32) -> (hasher: crc32fast::Hasher)
    ensures
        crc_state(hasher) == (CrcState { value, amount: 0 }),
{
    crc32fast::Hasher::new_with_initial(value)
}

/// `crc32fast::Hasher::update`: the checksum goes on over the bytes. It panics
/// when the number of bytes overflows.
#[verifier::external_body]
fn crc_update(hasher: &mut crc32fast::Hasher, data: &[u8])
    requires
        crc_state(*old(hasher)).amount + data@.len() <= u64::MAX,
    ensures
        crc_state(*final(hasher)) == (CrcState {
            value: crc_checksum(crc_state(*old(hasher)).value, data@),
            amount: crc_state(*old(hasher)).amount + data@.len(),
        }),
{
    hasher.update(data)
}

/// `crc32fast::Hasher::finalize`: the checksum.
#[verifier::external_body]
fn crc_finalize(hasher: crc32fast::Hasher) -> (value: u32)
    ensures
        value == crc_state(hasher).value,
{
    hasher.finalize()
}

/// Compute a CRC-32 checksum of data.
pub fn zlib_crc32(data: &[u8], begin_state: Option<i32>) -> (checksum: u32)
    ensures
        checksum == crc_checksum(word(begin_state.unwrap_or(0)), data@),
{
    let begin_state: i32 = begin_state.unwrap_or(0);
    let mut hasher = crc_new_with_initial(to_word(begin_state));
    proof {
        assert(data@.len() == data.len());
    }
    crc_update(&mut hasher, data);
    crc_finalize(hasher)
}

} // verus!
