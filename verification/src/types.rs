//! Fixed-size identifiers, currency names, fee rates and wide counters.

use vstd::prelude::*;

verus! {

/// An Ed25519 public key. Identifies a party.
pub type PublicKey = [u8; 32];

/// An Ed25519 signature.
pub type Signature = [u8; 64];

/// A SHA-512/256 digest.
pub type HashResult = [u8; 32];

/// Identifies a request, a payment or a session.
pub type Uid = [u8; 16];

/// A random nonce.
pub type RandValue = [u8; 16];

/// A keyed digest that the payer attaches to a request.
pub type HmacResult = [u8; 32];

/// The secret that opens a hashed lock.
pub type PlainLock = [u8; 32];

/// A lock that only the matching plain lock opens.
pub type HashedLock = [u8; 32];

/// Largest debt that a channel may be configured with. Keeps every balance
/// computation inside `i128`.
pub const MAX_FUNDER_DEBT: u128 = 0x7fff_ffff_ffff_ffff_ffff_ffff_ffff_ffff;

/// Longest currency name, in bytes.
pub const MAX_CURRENCY_LEN: usize = 16;

/// Lexicographic order on byte strings of one length.
pub open spec fn bytes_lt(a: Seq<u8>, b: Seq<u8>) -> bool {
    exists|i: int|
        0 <= i < a.len() && i < b.len() && a[i] < b[i] && a.subrange(0, i) == b.subrange(0, i)
}

/// Two byte strings of one length are equal, or exactly one is below the other.
pub proof fn lemma_bytes_lt_total(a: Seq<u8>, b: Seq<u8>)
    requires
        a.len() == b.len(),
    ensures
        a == b || bytes_lt(a, b) || bytes_lt(b, a),
        !(bytes_lt(a, b) && bytes_lt(b, a)),
        !(bytes_lt(a, b) && a == b),
{
    if bytes_lt(a, b) && bytes_lt(b, a) {
        let i = choose|i: int|
            0 <= i < a.len() && i < b.len() && a[i] < b[i] && a.subrange(0, i) == b.subrange(0, i);
        let j = choose|j: int|
            0 <= j < b.len() && j < a.len() && b[j] < a[j] && b.subrange(0, j) == a.subrange(0, j);
        if i < j {
            assert(b.subrange(0, j)[i] == a.subrange(0, j)[i]);
        } else if j < i {
            assert(a.subrange(0, i)[j] == b.subrange(0, i)[j]);
        }
    }
    if a != b {
        assert(a.subrange(0, a.len() as int) =~= a);
        assert(b.subrange(0, a.len() as int) =~= b);
        lemma_first_difference(a, b, a.len() as int);
    }
}

proof fn lemma_first_difference(a: Seq<u8>, b: Seq<u8>, n: int)
    requires
        a.len() == b.len(),
        0 <= n <= a.len(),
        a.subrange(0, n) != b.subrange(0, n),
    ensures
        bytes_lt(a, b) || bytes_lt(b, a),
    decreases n,
{
    if n == 0 {
        assert(a.subrange(0, 0) =~= b.subrange(0, 0));
    } else if a.subrange(0, n - 1) != b.subrange(0, n - 1) {
        lemma_first_difference(a, b, n - 1);
    } else if a[n - 1] == b[n - 1] {
        assert(a.subrange(0, n) =~= a.subrange(0, n - 1).push(a[n - 1]));
        assert(b.subrange(0, n) =~= b.subrange(0, n - 1).push(b[n - 1]));
    } else if a[n - 1] < b[n - 1] {
        assert(0 <= n - 1 < a.len() && a[n - 1] < b[n - 1] && a.subrange(0, n - 1) == b.subrange(
            0,
            n - 1,
        ));
    } else {
        assert(0 <= n - 1 < b.len() && b[n - 1] < a[n - 1] && b.subrange(0, n - 1) == a.subrange(
            0,
            n - 1,
        ));
    }
}

/// The lexicographic order is transitive.
pub proof fn lemma_bytes_lt_trans(a: Seq<u8>, b: Seq<u8>, c: Seq<u8>)
    requires
        bytes_lt(a, b),
        bytes_lt(b, c),
    ensures
        bytes_lt(a, c),
{
    let i = choose|i: int|
        0 <= i < a.len() && i < b.len() && a[i] < b[i] && a.subrange(0, i) == b.subrange(0, i);
    let j = choose|j: int|
        0 <= j < b.len() && j < c.len() && b[j] < c[j] && b.subrange(0, j) == c.subrange(0, j);
    let k = if i <= j { i } else { j };
    assert(a.subrange(0, k) =~= c.subrange(0, k)) by {
        assert forall|x: int| 0 <= x < k implies a[x] == c[x] by {
            assert(a.subrange(0, i)[x] == b.subrange(0, i)[x]);
            assert(b.subrange(0, j)[x] == c.subrange(0, j)[x]);
        }
    }
    if i < j {
        assert(b.subrange(0, j)[i] == c.subrange(0, j)[i]);
    } else if j < i {
        assert(a.subrange(0, i)[j] == b.subrange(0, i)[j]);
    }
    assert(0 <= k < a.len() && k < c.len() && a[k] < c[k] && a.subrange(0, k) == c.subrange(0, k));
}

/// Whether two byte arrays hold the same bytes.
pub fn array_eq<const N: usize>(a: &[u8; N], b: &[u8; N]) -> (r: bool)
    ensures
        r == (*a == *b),
{
    let mut i: usize = 0;
    while i < N
        invariant
            0 <= i <= N,
            forall|j: int| 0 <= j < i ==> a@[j] == b@[j],
        decreases N - i,
    {
        if a[i] != b[i] {
            return false;
        }
        i += 1;
    }
    assert(a@ =~= b@);
    assert(*a == *b);
    true
}

/// Whether `a` comes before `b` in lexicographic order.
pub fn array_lt<const N: usize>(a: &[u8; N], b: &[u8; N]) -> (r: bool)
    ensures
        r == bytes_lt(a@, b@),
{
    let mut i: usize = 0;
    while i < N
        invariant
            0 <= i <= N,
            a@.subrange(0, i as int) == b@.subrange(0, i as int),
        decreases N - i,
    {
        if a[i] < b[i] {
            return true;
        }
        if a[i] > b[i] {
            proof {
                assert(bytes_lt(b@, a@));
                lemma_bytes_lt_total(a@, b@);
            }
            return false;
        }
        proof {
            assert(a@.subrange(0, i + 1) =~= a@.subrange(0, i as int).push(a@[i as int]));
            assert(b@.subrange(0, i + 1) =~= b@.subrange(0, i as int).push(b@[i as int]));
        }
        i += 1;
    }
    proof {
        assert(a@ =~= a@.subrange(0, N as int));
        assert(b@ =~= b@.subrange(0, N as int));
        lemma_bytes_lt_total(a@, b@);
    }
    false
}

/// Whether a byte may stand in a currency name: an ASCII letter or digit.
pub open spec fn is_currency_byte(b: u8) -> bool {
    (0x30 <= b <= 0x39) || (0x41 <= b <= 0x5a) || (0x61 <= b <= 0x7a)
}

/// Whether a byte string is a currency name: one to sixteen letters and digits.
pub open spec fn is_currency_name(name: Seq<u8>) -> bool {
    &&& 1 <= name.len() <= MAX_CURRENCY_LEN
    &&& forall|i: int| 0 <= i < name.len() ==> is_currency_byte(#[trigger] name[i])
}

/// A unit of account: a short printable name. Two currencies are the same
/// value exactly when their names are equal.
#[derive(Clone, Copy, Debug, PartialEq, Eq, Hash)]
pub struct Currency {
    len: u8,
    bytes: [u8; 16],
}

impl View for Currency {
    type V = Seq<u8>;

    /// The name.
    closed spec fn view(&self) -> Seq<u8> {
        self.bytes@.subrange(0, self.len as int)
    }
}

impl Currency {
    /// What holds of every currency that executable code can reach: the name
    /// is a currency name, and zero bytes pad it.
    #[verifier::type_invariant]
    pub closed spec fn wf(self) -> bool {
        &&& 1 <= self.len <= 16
        &&& forall|i: int| 0 <= i < self.len ==> is_currency_byte(#[trigger] self.bytes@[i])
        &&& forall|i: int| self.len <= i < 16 ==> self.bytes@[i] == 0
    }

    /// The name padded with zero bytes to sixteen: the key by which
    /// currencies are ordered.
    pub closed spec fn key(&self) -> Seq<u8> {
        self.bytes@
    }

    /// Makes a currency of a name; `None` when the bytes are no currency name.
    pub fn from_bytes(name: &[u8]) -> (r: Option<Currency>)
        ensures
            r.is_some() == is_currency_name(name@),
            r.is_some() ==> r.unwrap()@ == name@ && r.unwrap().wf(),
    {
        let n = name.len();
        if n < 1 || n > 16 {
            return None;
        }
        let mut bytes: [u8; 16] = [0u8; 16];
        let mut i: usize = 0;
        while i < n
            invariant
                0 <= i <= n,
                n == name@.len(),
                1 <= n <= 16,
                forall|j: int| 0 <= j < i ==> bytes@[j] == name@[j],
                forall|j: int| 0 <= j < i ==> is_currency_byte(#[trigger] name@[j]),
                forall|j: int| i <= j < 16 ==> bytes@[j] == 0,
            decreases n - i,
        {
            let b = name[i];
            let ok = (0x30 <= b && b <= 0x39) || (0x41 <= b && b <= 0x5a) || (0x61 <= b && b
                <= 0x7a);
            if !ok {
                return None;
            }
            bytes[i] = b;
            i += 1;
        }
        let c = Currency { len: n as u8, bytes };
        assert(c@ =~= name@);
        Some(c)
    }

    /// The name, as bytes.
    pub fn as_bytes(&self) -> (r: Vec<u8>)
        ensures
            r@ == self@,
            1 <= r@.len() <= MAX_CURRENCY_LEN,
    {
        proof {
            use_type_invariant(self);
        }
        let mut r: Vec<u8> = Vec::new();
        let mut i: usize = 0;
        let n = self.len as usize;
        while i < n
            invariant
                0 <= i <= n,
                n == self.len,
                n <= 16,
                r@ == self.bytes@.subrange(0, i as int),
            decreases n - i,
        {
            r.push(self.bytes[i]);
            assert(self.bytes@.subrange(0, i + 1) =~= self.bytes@.subrange(0, i as int).push(
                self.bytes@[i as int],
            ));
            i += 1;
        }
        r
    }

    /// Whether two currencies are the same.
    pub fn same(&self, other: &Currency) -> (r: bool)
        ensures
            r == (*self == *other),
    {
        self.len == other.len && array_eq(&self.bytes, &other.bytes)
    }

    /// Whether this currency is ordered before the other.
    pub fn before(&self, other: &Currency) -> (r: bool)
        ensures
            r == bytes_lt(self.key(), other.key()),
    {
        array_lt(&self.bytes, &other.bytes)
    }

    /// Well-formed currencies with one key are one currency.
    pub proof fn lemma_key_decides(a: Currency, b: Currency)
        requires
            a.wf(),
            b.wf(),
            a.key() == b.key(),
        ensures
            a == b,
    {
        assert(a.bytes@.len() == 16 && b.bytes@.len() == 16);
        if a.len < b.len {
            assert(is_currency_byte(b.bytes@[a.len as int]));
            assert(a.bytes@[a.len as int] == 0);
        } else if b.len < a.len {
            assert(is_currency_byte(a.bytes@[b.len as int]));
            assert(b.bytes@[b.len as int] == 0);
        }
        assert(a.len == b.len);
        assert(a.bytes == b.bytes);
    }

    /// Of two well-formed currencies that differ, exactly one is ordered
    /// before the other.
    pub proof fn lemma_order_total(a: Currency, b: Currency)
        requires
            a.wf(),
            b.wf(),
        ensures
            a == b || bytes_lt(a.key(), b.key()) || bytes_lt(b.key(), a.key()),
            !(bytes_lt(a.key(), b.key()) && bytes_lt(b.key(), a.key())),
            !(bytes_lt(a.key(), b.key()) && a == b),
    {
        assert(a.bytes@.len() == 16 && b.bytes@.len() == 16);
        lemma_bytes_lt_total(a.key(), b.key());
        if a.key() == b.key() {
            Currency::lemma_key_decides(a, b);
        }
    }

}

/// An affine fee: what a node charges for forwarding an amount.
#[derive(Clone, Copy, Debug, PartialEq, Eq, Structural)]
pub struct Rate {
    /// Charged per credit forwarded, in units of 2^-32 of a credit.
    pub mul: u32,
    /// Charged per request, whatever its amount.
    pub add: u32,
}

impl Rate {
    /// The fee for forwarding `amount`, as a mathematical integer.
    pub open spec fn fee(&self, amount: u128) -> int {
        (amount as int * self.mul as int) / 0x1_0000_0000 + self.add as int
    }

    /// The rate that charges nothing.
    pub fn new() -> (r: Rate)
        ensures
            r.mul == 0,
            r.add == 0,
    {
        Rate { mul: 0, add: 0 }
    }

    /// The fee for forwarding `amount`; `None` when it does not fit in `u128`.
    pub fn calc_fee(&self, amount: u128) -> (r: Option<u128>)
        ensures
            r.is_some() == (self.fee(amount) <= u128::MAX),
            r.is_some() ==> r.unwrap() == self.fee(amount),
    {
        let hi: u128 = amount / 0x1_0000_0000_0000_0000;
        let lo: u128 = amount % 0x1_0000_0000_0000_0000;
        let m: u128 = self.mul as u128;
        assert(hi * m <= 0xffff_ffff_ffff_ffff * 0xffff_ffff) by (nonlinear_arith)
            requires
                hi <= 0xffff_ffff_ffff_ffff,
                m <= 0xffff_ffff,
        ;
        assert(lo * m <= 0xffff_ffff_ffff_ffff * 0xffff_ffff) by (nonlinear_arith)
            requires
                lo <= 0xffff_ffff_ffff_ffff,
                m <= 0xffff_ffff,
        ;
        let a: u128 = hi * m;
        let b: u128 = lo * m;
        let q: u128 = a * 0x1_0000_0000 + b / 0x1_0000_0000;
        assert(q == (amount as int * m as int) / 0x1_0000_0000) by (nonlinear_arith)
            requires
                amount == hi * 0x1_0000_0000_0000_0000 + lo,
                a == hi * m,
                b == lo * m,
                q == a * 0x1_0000_0000 + b / 0x1_0000_0000,
        {
            assert(amount * m == (a * 0x1_0000_0000) * 0x1_0000_0000 + b);
            assert(((a * 0x1_0000_0000) * 0x1_0000_0000 + b) / 0x1_0000_0000 == a * 0x1_0000_0000
                + b / 0x1_0000_0000);
        }
        q.checked_add(self.add as u128)
    }
}

/// A counter of 256 bits, wide enough that sums of `u128` amounts never
/// leave it in practice.
#[derive(Clone, Copy, Debug, PartialEq, Eq, Structural)]
pub struct U256 {
    /// The upper 128 bits.
    pub hi: u128,
    /// The lower 128 bits.
    pub lo: u128,
}

impl U256 {
    /// The number that the counter holds.
    pub open spec fn value(&self) -> nat {
        (self.hi as nat) * 0x1_0000_0000_0000_0000_0000_0000_0000_0000 + self.lo as nat
    }

    /// Zero.
    pub fn zero() -> (r: U256)
        ensures
            r.value() == 0,
    {
        U256 { hi: 0, lo: 0 }
    }

    /// The counter that holds `x`.
    pub fn from_u128(x: u128) -> (r: U256)
        ensures
            r.value() == x,
    {
        U256 { hi: 0, lo: x }
    }

    /// The largest counter.
    pub open spec fn max() -> U256 {
        U256 { hi: u128::MAX, lo: u128::MAX }
    }

    /// The sum, or the largest counter where the sum leaves 256 bits.
    pub open spec fn add_sat(&self, x: u128) -> U256 {
        if self.lo + x <= u128::MAX {
            U256 { hi: self.hi, lo: (self.lo + x) as u128 }
        } else if self.hi < u128::MAX {
            U256 {
                hi: (self.hi + 1) as u128,
                lo: (self.lo + x - 0x1_0000_0000_0000_0000_0000_0000_0000_0000) as u128,
            }
        } else {
            U256::max()
        }
    }

    /// Adds an amount, stopping at the largest counter.
    pub fn saturating_add_u128(&self, x: u128) -> (r: U256)
        ensures
            r == self.add_sat(x),
    {
        if x <= u128::MAX - self.lo {
            U256 { hi: self.hi, lo: self.lo + x }
        } else if self.hi < u128::MAX {
            U256 { hi: self.hi + 1, lo: x - (u128::MAX - self.lo) - 1 }
        } else {
            U256 { hi: u128::MAX, lo: u128::MAX }
        }
    }

    /// Adds an amount; `None` when the sum leaves 256 bits.
    pub fn checked_add_u128(&self, x: u128) -> (r: Option<U256>)
        ensures
            r.is_some() == (self.value() + x
                < 0x1_0000_0000_0000_0000_0000_0000_0000_0000
                * 0x1_0000_0000_0000_0000_0000_0000_0000_0000),
            r.is_some() ==> r.unwrap().value() == self.value() + x,
    {
        if x <= u128::MAX - self.lo {
            Some(U256 { hi: self.hi, lo: self.lo + x })
        } else if self.hi < u128::MAX {
            Some(U256 { hi: self.hi + 1, lo: x - (u128::MAX - self.lo) - 1 })
        } else {
            None
        }
    }
}

} // verus!
