//! Pseudo-random numbers and fresh ids.
use crate::clock::since_epoch;
use vstd::prelude::*;

verus! {

/// The version of the id that a number is.
pub open spec fn version_of(n: u128) -> u128 {
    (n >> 76) & 0xf
}

/// The version of the id that a number is.
pub(crate) fn id_version(n: u128) -> (r: u128)
    ensures
        r == version_of(n),
{
    (n >> 76) & 0xf
}

/// Calls `uuid::Uuid::now_v7` for the number that the id is (`as_u128`). It depends on the
/// clock and on chance; its version does not.
#[verifier::external_body]
pub(crate) fn fresh_v7() -> (r: u128)
    ensures
        version_of(r) == 7,
{
    uuid::Uuid::now_v7().as_u128()
}

/// Calls `uuid::Uuid::new_v4` for the number that the id is (`as_u128`). It is random; its
/// version is not.
#[verifier::external_body]
pub(crate) fn fresh_v4() -> (r: u128)
    ensures
        version_of(r) == 4,
{
    uuid::Uuid::new_v4().as_u128()
}

/// A hexadecimal digit.
pub open spec fn hex_digit(d: u128) -> char {
    if d < 10 {
        (48 + d) as char
    } else {
        (87 + d) as char
    }
}

/// How many hyphens stand before a place of a written id.
pub open spec fn hyphens_before(i: int) -> int {
    if i <= 8 {
        0
    } else if i <= 13 {
        1
    } else if i <= 18 {
        2
    } else if i <= 23 {
        3
    } else {
        4
    }
}

/// How an id is written: its 32 hexadecimal digits, the most significant first, with hyphens
/// behind the first 8, 12, 16 and 20 of them.
pub open spec fn uuid_text(n: u128) -> Seq<char> {
    Seq::new(
        36,
        |i: int|
            if i == 8 || i == 13 || i == 18 || i == 23 {
                '-'
            } else {
                hex_digit((n >> ((4 * (31 - (i - hyphens_before(i)))) as u128)) & 0xf)
            },
    )
}

/// How `uuid` reads an id, or the words of its error.
pub uninterp spec fn uuid_read(s: Seq<char>) -> Result<u128, Seq<char>>;

/// Calls `uuid::Uuid::parse_str`. What it gives depends on the text alone.
#[verifier::external_body]
pub(crate) fn parse_uuid(s: &str) -> (r: Result<u128, String>)
    ensures
        (match r {
            Ok(n) => uuid_read(s@) == Ok::<u128, Seq<char>>(n),
            Err(e) => uuid_read(s@) == Err::<u128, Seq<char>>(e@),
        }),
{
    uuid::Uuid::parse_str(s).map(|u| u.as_u128()).map_err(|e| e.to_string())
}

/// Calls `uuid::Uuid::from_u128` and `to_string`: the id in lower case with its hyphens,
/// which reads back as the number.
#[verifier::external_body]
pub(crate) fn hyphenated(n: u128) -> (r: String)
    ensures
        r@ == uuid_text(n),
        (uuid_read(r@) == Ok::<u128, Seq<char>>(n)),
{
    uuid::Uuid::from_u128(n).to_string()
}

/// Whether a text is a written id of a version, which reads back as the number it was made
/// of.
pub open spec fn is_uuid_text(s: Seq<char>, version: u128) -> bool {
    exists|n: u128|
        version_of(n) == version && s == #[trigger] uuid_text(n) && uuid_read(s) == Ok::<
            u128,
            Seq<char>,
        >(n)
}

/// A written id has 36 characters with hyphens at four places, and its
/// version is the digit behind the second of them.
pub proof fn law_uuid_text(s: Seq<char>, version: u128)
    requires
        is_uuid_text(s, version),
    ensures
        s.len() == 36,
        s[8] == '-' && s[13] == '-' && s[18] == '-' && s[23] == '-',
        s[14] == hex_digit(version),
{
    let n = choose|n: u128| version_of(n) == version && s == #[trigger] uuid_text(n);
    assert(s == uuid_text(n));
    assert(hyphens_before(14) == 2);
}

/// The byte of a number at a place, the most significant first.
pub open spec fn byte_of(n: u128, i: int) -> u8 {
    ((n >> ((8 * (15 - i)) as u128)) & 0xff) as u8
}

/// The bytes of a number, the most significant first: the bytes of the id that it is.
pub open spec fn id_bytes(n: u128) -> Seq<u8> {
    Seq::new(16, |i: int| byte_of(n, i))
}

/// The bytes of the id that a number is.
pub(crate) fn to_id_bytes(n: u128) -> (r: Vec<u8>)
    ensures
        r@ == id_bytes(n),
{
    let mut out: Vec<u8> = Vec::new();
    for i in 0..16u32
        invariant
            out@.len() == i,
            forall|j: int| 0 <= j < i ==> #[trigger] out@[j] == byte_of(n, j),
    {
        let shift: u128 = (8 * (15 - i)) as u128;
        out.push(((n >> shift) & 0xff) as u8);
    }
    assert(out@ =~= id_bytes(n));
    out
}

/// A fresh id, in order of time.
pub(crate) fn fresh_uuid7() -> (r: String)
    ensures
        is_uuid_text(r@, 7),
{
    let n = fresh_v7();
    hyphenated(n)
}

/// A fresh random id.
pub(crate) fn fresh_uuid4() -> (r: String)
    ensures
        is_uuid_text(r@, 4),
{
    let n = fresh_v4();
    hyphenated(n)
}

/// The number that follows another in the sequence.
pub open spec fn following(state: u32) -> u32 {
    ((1103515245 * ((state + 12345) % 0x1_0000_0000)) % 0x1_0000_0000) as u32
}

/// A linear congruential generator.
#[derive(Debug)]
struct UnitIntervalGenerator {
    state: u32,
}

impl UnitIntervalGenerator {
    fn next(&mut self) -> (r: u32)
        ensures
            r == following(old(self).state),
            final(self).state == r,
    {
        let sum = self.state.wrapping_add(12345);
        self.state = sum.wrapping_mul(1103515245);
        proof {
            let s = old(self).state;
            assert(sum == (s + 12345) % 0x1_0000_0000);
            assert(sum * 1103515245 == 1103515245 * sum) by (nonlinear_arith);
        }
        self.state
    }
}

/// The number that a reading of the clock in nanoseconds gives.
pub open spec fn seed_of(reading: Option<u128>) -> u32 {
    match reading {
        Some(n) => n as u32,
        None => 621429,
    }
}

/// Pseudo-random numbers.
#[derive(Debug)]
pub struct Random {
    uig: UnitIntervalGenerator,
}

/// Ten to the power of `n`.
pub open spec fn pow10(n: nat) -> nat
    decreases n,
{
    if n == 0 {
        1
    } else {
        10 * pow10((n - 1) as nat)
    }
}

/// How many digits a number has.
pub open spec fn digit_count(n: nat) -> nat
    decreases n,
{
    if n < 10 {
        1
    } else {
        1 + digit_count(n / 10)
    }
}

/// What is left of a number when its first `len` digits are dropped; a number with no more
/// digits than that stays whole.
pub open spec fn tail_digits(n: u32, len: nat) -> nat {
    if digit_count(n as nat) > len {
        n as nat % pow10((digit_count(n as nat) - len) as nat)
    } else {
        n as nat
    }
}

fn count_digits(n: u32) -> (r: u32)
    ensures
        r == digit_count(n as nat),
        1 <= r <= 10,
{
    let mut rest: u32 = n;
    let mut count: u32 = 1;
    assert(n <= 4294967295);
    let ghost mut limit: nat = 4294967295;
    while rest >= 10
        invariant
            1 <= count <= 10,
            digit_count(n as nat) == digit_count(rest as nat) + (count - 1),
            rest as nat <= limit,
            count == 1 ==> limit <= 4294967295,
            count == 2 ==> limit <= 429496729,
            count == 3 ==> limit <= 42949672,
            count == 4 ==> limit <= 4294967,
            count == 5 ==> limit <= 429496,
            count == 6 ==> limit <= 42949,
            count == 7 ==> limit <= 4294,
            count == 8 ==> limit <= 429,
            count == 9 ==> limit <= 42,
            count == 10 ==> limit <= 4,
        decreases rest,
    {
        rest = rest / 10;
        count = count + 1;
        proof {
            limit = limit / 10;
        }
    }
    count
}

fn power_of_ten(n: u32) -> (r: u64)
    requires
        n <= 10,
    ensures
        r == pow10(n as nat),
        r > 0,
{
    let mut r: u64 = 1;
    let mut i: u32 = 0;
    while i < n
        invariant
            i <= n <= 10,
            r == pow10(i as nat),
            i == 0 ==> r == 1,
            i == 1 ==> r == 10,
            i == 2 ==> r == 100,
            i == 3 ==> r == 1000,
            i == 4 ==> r == 10000,
            i == 5 ==> r == 100000,
            i == 6 ==> r == 1000000,
            i == 7 ==> r == 10000000,
            i == 8 ==> r == 100000000,
            i == 9 ==> r == 1000000000,
            i == 10 ==> r == 10000000000,
        decreases n - i,
    {
        r = 10 * r;
        i = i + 1;
    }
    r
}

impl Random {
    /// The last number given.
    pub closed spec fn state(&self) -> u32 {
        self.uig.state
    }

    /// Numbers that follow a given one.
    pub fn seeded(seed: u32) -> (r: Self)
        ensures
            r.state() == seed,
    {
        Random { uig: UnitIntervalGenerator { state: seed } }
    }

    /// Numbers that follow one made from the clock.
    pub fn new() -> (r: Self)
        ensures
            exists|reading: Option<u128>| r.state() == #[trigger] seed_of(reading),
    {
        let reading = since_epoch();
        let r = match reading {
            Some(n) => Random::seeded(n as u32),
            None => Random::seeded(621429),
        };
        assert(r.state() == seed_of(reading));
        r
    }

    /// The next number.
    pub fn next_u32(&mut self) -> (r: u32)
        ensures
            r == following(old(self).state()),
            final(self).state() == r,
    {
        self.uig.next()
    }

    /// A fresh id, in order of time.
    pub fn new_uuid7(&mut self) -> (r: String)
        ensures
            is_uuid_text(r@, 7),
            final(self).state() == old(self).state(),
    {
        fresh_uuid7()
    }

    /// The next number without its first `len` digits; whole where it has no more than
    /// that.
    pub fn num_of_len(&mut self, len: usize) -> (r: u32)
        ensures
            r == tail_digits(following(old(self).state()), len as nat),
            final(self).state() == following(old(self).state()),
    {
        let n = self.next_u32();
        let count = count_digits(n);
        if count as usize <= len {
            return n;
        }
        let p = power_of_ten(count - len as u32);
        assert((n as u64) % p <= n as u64) by (nonlinear_arith)
            requires
                p > 0,
        ;
        ((n as u64) % p) as u32
    }
}

} // verus!
