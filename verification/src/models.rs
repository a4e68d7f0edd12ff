//! The plain values that the wallet's tables and queries are made of.
use vstd::prelude::*;

verus! {

/// The integer that a `u64` becomes when it is stored in a signed 64-bit column: values above
/// `i64::MAX` wrap round to the negative numbers.
pub open spec fn as_signed(n: u64) -> i64 {
    if n <= i64::MAX {
        n as i64
    } else {
        (n - 0x1_0000_0000_0000_0000) as i64
    }
}

/// The `u64` that a signed 64-bit column is read back as; the inverse of [`as_signed`].
pub open spec fn as_unsigned(n: i64) -> u64 {
    if n >= 0 {
        n as u64
    } else {
        (n + 0x1_0000_0000_0000_0000) as u64
    }
}

/// Converts an unsigned value to its signed column value.
pub fn to_signed(n: u64) -> (r: i64)
    ensures
        r == as_signed(n),
{
    let r: i64 = n as i64;
    assert(n <= 0x7fff_ffff_ffff_ffff ==> (n as i64) == n) by (bit_vector);
    assert(n > 0x7fff_ffff_ffff_ffff ==> (n as i64) == n - 0x1_0000_0000_0000_0000) by (bit_vector);
    r
}

/// Converts a signed column value back to the unsigned value it stands for.
pub fn to_unsigned(n: i64) -> (r: u64)
    ensures
        r == as_unsigned(n),
{
    let r: u64 = n as u64;
    assert(n >= 0 ==> (n as u64) == n) by (bit_vector);
    assert(n < 0 ==> (n as u64) == n + 0x1_0000_0000_0000_0000) by (bit_vector);
    r
}

/// An amount of the wallet's currency, in its smallest unit.
#[derive(Clone, Copy, Debug, PartialEq, Eq, Structural, PartialOrd, Ord, Hash)]
pub struct MicroMinotari(pub u64);

impl MicroMinotari {
    pub fn as_u64(&self) -> (r: u64)
        ensures
            r == self.0,
    {
        self.0
    }

    /// The sum of the two amounts, or the largest amount there is where the sum is larger.
    pub fn saturating_add(&self, other: MicroMinotari) -> (r: MicroMinotari)
        ensures
            r == saturating_sum(*self, other),
    {
        MicroMinotari(self.0.saturating_add(other.0))
    }
}

pub open spec fn saturating_sum(a: MicroMinotari, b: MicroMinotari) -> MicroMinotari {
    if a.0 + b.0 <= u64::MAX {
        MicroMinotari((a.0 + b.0) as u64)
    } else {
        MicroMinotari(u64::MAX)
    }
}

impl From<u64> for MicroMinotari {
    fn from(value: u64) -> (r: Self) {
        MicroMinotari(value)
    }
}

impl vstd::std_specs::convert::FromSpecImpl<u64> for MicroMinotari {
    open spec fn obeys_from_spec() -> bool {
        true
    }

    open spec fn from_spec(value: u64) -> Self {
        MicroMinotari(value)
    }
}

/// The identifier of the transaction that an output belongs to.
#[derive(Clone, Copy, Debug, PartialEq, Eq, Structural, Hash)]
pub struct TxId(pub u64);

/// A 32-byte hash: of an output, of a block, or a payment reference.
#[derive(Clone, Copy, Debug, PartialEq, Eq, Hash)]
pub struct FixedHash(pub [u8; 32]);

impl View for FixedHash {
    type V = Seq<u8>;

    open spec fn view(&self) -> Seq<u8> {
        self.0@
    }
}

impl FixedHash {
    pub fn as_slice(&self) -> (r: &[u8])
        ensures
            r@ == self@,
    {
        vstd::array::array_as_slice(&self.0)
    }

    pub fn to_vec(&self) -> (r: Vec<u8>)
        ensures
            r@ == self@,
    {
        copy_slice(self.as_slice())
    }
}

/// The number of bytes in a [`FixedHash`].
pub const HASH_LENGTH: usize = 32;

/// Reads a hash off the front of a byte string; `None` where the bytes do not reach.
pub fn leading_hash(data: &[u8]) -> (r: Option<FixedHash>)
    ensures
        match r {
            Some(hash) => data@.len() >= HASH_LENGTH && hash@ == data@.take(HASH_LENGTH as int),
            None => data@.len() < HASH_LENGTH,
        },
{
    if data.len() < HASH_LENGTH {
        return None;
    }
    let mut hash: [u8; 32] = [0u8; 32];
    let mut i: usize = 0;
    while i < HASH_LENGTH
        invariant
            i <= HASH_LENGTH,
            HASH_LENGTH <= data@.len(),
            hash@.len() == HASH_LENGTH,
            forall|j: int| 0 <= j < i ==> hash@[j] == data@[j],
        decreases HASH_LENGTH - i,
    {
        hash[i] = data[i];
        i = i + 1;
    }
    assert(hash@ =~= data@.take(HASH_LENGTH as int));
    Some(FixedHash(hash))
}

/// Copies a byte slice into a vector.
pub fn copy_slice(bytes: &[u8]) -> (r: Vec<u8>)
    ensures
        r@ == bytes@,
{
    vstd::slice::slice_to_vec(bytes)
}

/// Compares two byte strings.
pub fn bytes_equal(a: &[u8], b: &[u8]) -> (r: bool)
    ensures
        r == (a@ == b@),
{
    if a.len() != b.len() {
        return false;
    }
    let mut i: usize = 0;
    while i < a.len()
        invariant
            i <= a.len(),
            a@.len() == b@.len(),
            forall|j: int| 0 <= j < i ==> a@[j] == b@[j],
        decreases a.len() - i,
    {
        if a[i] != b[i] {
            return false;
        }
        i = i + 1;
    }
    assert(a@ =~= b@);
    true
}

/// What an optional text column holds.
pub open spec fn text(t: Option<String>) -> Option<Seq<char>> {
    match t {
        Some(s) => Some(s@),
        None => None,
    }
}

/// What an optional byte column holds.
pub open spec fn bytes(b: Option<Vec<u8>>) -> Option<Seq<u8>> {
    match b {
        Some(v) => Some(v@),
        None => None,
    }
}

pub fn copy_text(t: &Option<String>) -> (r: Option<String>)
    ensures
        text(r) == text(*t),
{
    match t {
        Some(s) => Some(s.clone()),
        None => None,
    }
}

pub fn copy_bytes(b: &Option<Vec<u8>>) -> (r: Option<Vec<u8>>)
    ensures
        bytes(r) == bytes(*b),
{
    match b {
        Some(v) => Some(copy_slice(v.as_slice())),
        None => None,
    }
}

/// Whether an optional text column holds the given text.
pub fn text_is(t: &Option<String>, wanted: &str) -> (r: bool)
    ensures
        r == (text(*t) == Some(wanted@)),
{
    match t {
        Some(s) => {
            let w = wanted.to_owned();
            *s == w
        },
        None => false,
    }
}

/// The decimal digits of a number, without leading zeros.
pub open spec fn decimal(n: nat) -> Seq<char>
    decreases n,
{
    if n < 10 {
        seq![(('0' as u32) + n) as char]
    } else {
        decimal(n / 10).push((('0' as u32) + n % 10) as char)
    }
}

fn digit_text(digit: u64) -> (r: &'static str)
    requires
        digit < 10,
    ensures
        r@ == seq![(('0' as u32) + digit) as char],
{
    proof {
        reveal_strlit("0");
        reveal_strlit("1");
        reveal_strlit("2");
        reveal_strlit("3");
        reveal_strlit("4");
        reveal_strlit("5");
        reveal_strlit("6");
        reveal_strlit("7");
        reveal_strlit("8");
        reveal_strlit("9");
    }
    let r = match digit {
        0 => "0",
        1 => "1",
        2 => "2",
        3 => "3",
        4 => "4",
        5 => "5",
        6 => "6",
        7 => "7",
        8 => "8",
        _ => "9",
    };
    assert(r@ =~= seq![(('0' as u32) + digit) as char]);
    r
}

/// Writes a number in decimal.
pub fn number_to_string(n: u64) -> (r: String)
    ensures
        r@ == decimal(n as nat),
    decreases n,
{
    if n < 10 {
        digit_text(n).to_owned()
    } else {
        let front = number_to_string(n / 10);
        let ghost digits = front@;
        let r = front.concat(digit_text(n % 10));
        assert(r@ =~= digits.push((('0' as u32) + n % 10) as char));
        r
    }
}

/// The first second that a [`UtcTime`] can hold: 1 January of the year -262143.
pub const MIN_UTC_SECONDS: i64 = -8_334_601_228_800;

/// The last second that a [`UtcTime`] can hold: 31 December of the year 262142, 23:59:59.
pub const MAX_UTC_SECONDS: i64 = 8_210_266_876_799;

/// Whether a number of seconds since 1 January 1970 is a representable point in time.
pub open spec fn representable(seconds: int) -> bool {
    MIN_UTC_SECONDS <= seconds <= MAX_UTC_SECONDS
}

/// A point in time: seconds since 1 January 1970 00:00:00 UTC, and nanoseconds into the second.
#[derive(Clone, Copy, Debug, PartialEq, Eq, Structural)]
pub struct UtcTime {
    pub seconds: i64,
    pub nanos: u32,
}

impl UtcTime {
    pub open spec fn wf(self) -> bool {
        representable(self.seconds as int) && self.nanos < 1_000_000_000
    }
}

/// Where an output stands in its life.
#[derive(Clone, Copy, Debug, PartialEq, Eq, Structural)]
pub enum OutputStatus {
    /// Free to be spent.
    Unspent,
    /// Set aside for a pending transaction.
    Locked,
    /// Consumed by a transaction.
    Spent,
}

/// The text that stands for a status in the database.
pub open spec fn status_text(status: OutputStatus) -> Seq<char> {
    match status {
        OutputStatus::Unspent => "UNSPENT"@,
        OutputStatus::Locked => "LOCKED"@,
        OutputStatus::Spent => "SPENT"@,
    }
}

impl OutputStatus {
    pub fn to_string(&self) -> (r: String)
        ensures
            r@ == status_text(*self),
    {
        match self {
            OutputStatus::Unspent => "UNSPENT".to_owned(),
            OutputStatus::Locked => "LOCKED".to_owned(),
            OutputStatus::Spent => "SPENT".to_owned(),
        }
    }

    /// Reads a status back from its text; `None` where the text stands for no status.
    pub fn from_text(name: &str) -> (r: Option<OutputStatus>)
        ensures
            match r {
                Some(status) => status_text(status) == name@,
                None => forall|status: OutputStatus| status_text(status) != name@,
            },
    {
        let given = name.to_owned();
        let unspent = "UNSPENT".to_owned();
        let locked = "LOCKED".to_owned();
        let spent = "SPENT".to_owned();
        if given == unspent {
            Some(OutputStatus::Unspent)
        } else if given == locked {
            Some(OutputStatus::Locked)
        } else if given == spent {
            Some(OutputStatus::Spent)
        } else {
            None
        }
    }
}

} // verus!
