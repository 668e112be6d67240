//! The byte encoding of saved values: integers little-endian, booleans as
//! one byte, and byte strings behind a 64-bit length.

use vstd::prelude::*;

verus! {

/// Why a value could not be loaded.
#[derive(Copy, Clone, Debug, PartialEq, Eq, Structural)]
pub enum LoadError {
    /// The input ends before the value does.
    UnexpectedEnd,
    /// The input holds a length that this machine cannot address.
    TooLong,
    /// The input does not end with the footer of a saved state.
    BadFooter,
    /// The input holds a table of another size than the one to load into.
    Mismatch,
}

/// The `n` low bytes of `v`, least significant first.
pub open spec fn le_bytes(v: u64, n: nat) -> Seq<u8>
    decreases n,
{
    if n == 0 {
        Seq::empty()
    } else {
        seq![(v % 256) as u8] + le_bytes(v / 256, (n - 1) as nat)
    }
}

/// The number that the bytes `bytes` spell, least significant first.
pub open spec fn le_value(bytes: Seq<u8>) -> nat
    decreases bytes.len(),
{
    if bytes.len() == 0 {
        0
    } else {
        bytes[0] as nat + 256 * le_value(bytes.skip(1))
    }
}

/// Reading back the `n` low bytes of `v` gives `v` modulo `256^n`; for
/// the widths of the integer types that is the value itself.
pub proof fn lemma_le_roundtrip(v: u64, n: nat)
    ensures
        le_bytes(v, n).len() == n,
        le_value(le_bytes(v, n)) == v as nat % vstd::arithmetic::power::pow(256, n) as nat,
    decreases n,
{
    vstd::arithmetic::power::lemma_pow_positive(256, n);
    if n == 0 {
        vstd::arithmetic::power::lemma_pow0(256);
    } else {
        let rest = le_bytes(v / 256, (n - 1) as nat);
        lemma_le_roundtrip(v / 256, (n - 1) as nat);
        assert(le_bytes(v, n).skip(1) =~= rest);
        vstd::arithmetic::power::lemma_pow_positive(256, (n - 1) as nat);
        vstd::arithmetic::power::lemma_pow1(256);
        vstd::arithmetic::power::lemma_pow_adds(256, 1, (n - 1) as nat);
        let p = vstd::arithmetic::power::pow(256, (n - 1) as nat);
        assert(vstd::arithmetic::power::pow(256, n) == 256 * p);
        let q = v as int / 256;
        assert(v as int == 256 * q + v as int % 256);
        vstd::arithmetic::div_mod::lemma_fundamental_div_mod(q, p);
        assert(q == p * (q / p) + q % p);
        let r = v as int % 256 + 256 * (q % p);
        assert(0 <= r < 256 * p) by (nonlinear_arith)
            requires
                0 <= v as int % 256 < 256,
                0 <= q % p < p,
                r == v as int % 256 + 256 * (q % p),
        ;
        assert(v as int == (256 * p) * (q / p) + r) by (nonlinear_arith)
            requires
                v as int == 256 * q + v as int % 256,
                q == p * (q / p) + q % p,
                r == v as int % 256 + 256 * (q % p),
        ;
        vstd::arithmetic::div_mod::lemma_fundamental_div_mod_converse(
            v as int,
            256 * p,
            q / p,
            r,
        );
    }
}

/// Appends the `n` low bytes of `v` to `out`, least significant first.
pub fn push_le(out: &mut Vec<u8>, v: u64, n: usize)
    ensures
        final(out)@ == old(out)@ + le_bytes(v, n as nat),
{
    let mut rest = v;
    let mut i: usize = 0;
    let ghost start = out@;
    proof {
        assert(out@ == start + le_bytes(v, 0)) by {
            assert(le_bytes(v, 0) =~= Seq::<u8>::empty());
            assert(start + Seq::<u8>::empty() =~= start);
        }
    }
    while i < n
        invariant
            i <= n,
            out@ + le_bytes(rest, (n - i) as nat) == start + le_bytes(v, n as nat),
        decreases n - i,
    {
        proof {
            assert(out@.push((rest % 256) as u8) + le_bytes(rest / 256, (n - i - 1) as nat) =~= out@
                + le_bytes(rest, (n - i) as nat));
        }
        out.push((rest % 256) as u8);
        rest = rest / 256;
        i = i + 1;
    }
    proof {
        assert(le_bytes(rest, 0) =~= Seq::<u8>::empty());
        assert(out@ + Seq::<u8>::empty() =~= out@);
    }
}

/// Reads the number that `n` bytes of `input` from `at` on spell, least
/// significant first.
pub fn read_le(input: &[u8], at: usize, n: usize) -> (r: Result<u64, LoadError>)
    requires
        n <= 8,
    ensures
        r == (if at + n <= input@.len() {
            Ok::<u64, LoadError>(le_value(input@.subrange(at as int, at + n)) as u64)
        } else {
            Err::<u64, LoadError>(LoadError::UnexpectedEnd)
        }),
        r is Ok ==> le_value(input@.subrange(at as int, at + n)) <= u64::MAX,
{
    if at > input.len() || n > input.len() - at {
        return Err(LoadError::UnexpectedEnd);
    }
    let mut value: u64 = 0;
    let mut i: usize = n;
    proof {
        assert(input@.subrange(at + n, at + n) =~= Seq::<u8>::empty());
        vstd::arithmetic::power::lemma_pow0(256);
    }
    while i > 0
        invariant
            i <= n <= 8,
            at + n <= input@.len() <= usize::MAX,
            value == le_value(input@.subrange(at + i, at + n)),
            value < vstd::arithmetic::power::pow(256, (n - i) as nat),
        decreases i,
    {
        i = i - 1;
        proof {
            let tail = input@.subrange(at + i + 1, at + n);
            let whole = input@.subrange(at + i, at + n);
            assert(whole.skip(1) =~= tail);
            assert(whole[0] == input@[at + i]);
            vstd::arithmetic::power::lemma_pow1(256);
            vstd::arithmetic::power::lemma_pow_adds(256, 1, (n - i - 1) as nat);
            lemma_pow256_bound((n - i) as nat);
        }
        value = value * 256 + input[at + i] as u64;
    }
    Ok(value)
}

/// `256^k` fits in 64 bits for `k` up to 8, with `256^8` one beyond them.
pub proof fn lemma_pow256_bound(k: nat)
    requires
        k <= 8,
    ensures
        vstd::arithmetic::power::pow(256, k) <= 0x1_0000_0000_0000_0000,
        k == 1 ==> vstd::arithmetic::power::pow(256, k) == 0x100,
        k == 2 ==> vstd::arithmetic::power::pow(256, k) == 0x1_0000,
        k == 4 ==> vstd::arithmetic::power::pow(256, k) == 0x1_0000_0000,
        k == 8 ==> vstd::arithmetic::power::pow(256, k) == 0x1_0000_0000_0000_0000,
    decreases k,
{
    vstd::arithmetic::power::lemma_pow0(256);
    if k > 0 {
        lemma_pow256_bound((k - 1) as nat);
        vstd::arithmetic::power::lemma_pow1(256);
        vstd::arithmetic::power::lemma_pow_adds(256, 1, (k - 1) as nat);
        if k >= 2 {
            lemma_pow256_bound((k - 2) as nat);
            vstd::arithmetic::power::lemma_pow_adds(256, 1, (k - 2) as nat);
        }
        if k >= 4 {
            lemma_pow256_bound((k - 3) as nat);
            lemma_pow256_bound((k - 4) as nat);
            vstd::arithmetic::power::lemma_pow_adds(256, 1, (k - 3) as nat);
            vstd::arithmetic::power::lemma_pow_adds(256, 1, (k - 4) as nat);
        }
        if k == 8 {
            lemma_pow256_bound(4);
            vstd::arithmetic::power::lemma_pow_adds(256, 4, 4);
        }
    }
}


/// A value that can be written to and read back from a saved state.
pub trait Savable: View + Sized {
    /// The bytes that stand for `v`.
    spec fn encoding(v: Self::V) -> Seq<u8>;

    /// The value that the start of `bytes` stands for, with the number of
    /// bytes it takes; or why there is none. Where the bytes do not say
    /// how a value is built, it is built as `shape` is.
    spec fn decoding(shape: Self::V, bytes: Seq<u8>) -> Result<(Self::V, nat), LoadError>;

    /// Appends the bytes that stand for the value to `out`.
    fn save(&self, out: &mut Vec<u8>)
        ensures
            final(out)@ == old(out)@ + Self::encoding(self@),
    ;

    /// Replaces the value by the one that `input` holds at `at`, and
    /// returns the position behind it. On an error the value stays as it was.
    fn load(&mut self, input: &[u8], at: usize) -> (r: Result<usize, LoadError>)
        requires
            at <= input@.len(),
        ensures
            match Self::decoding(old(self)@, input@.skip(at as int)) {
                Ok((v, n)) => r == Ok::<usize, LoadError>((at + n) as usize) && at + n
                    <= input@.len() && final(self)@ == v,
                Err(e) => r == Err::<usize, LoadError>(e) && final(self)@ == old(self)@,
            },
    ;
}

/// The value that the first `n` bytes of `bytes` spell, if there are that many.
pub open spec fn le_decoding(bytes: Seq<u8>, n: nat) -> Result<(nat, nat), LoadError> {
    if bytes.len() >= n {
        Ok((le_value(bytes.subrange(0, n as int)), n))
    } else {
        Err(LoadError::UnexpectedEnd)
    }
}

/// Reads `n` bytes at `at` as a number.
fn load_le(input: &[u8], at: usize, n: usize) -> (r: Result<u64, LoadError>)
    requires
        n <= 8,
        at <= input@.len(),
    ensures
        match le_decoding(input@.skip(at as int), n as nat) {
            Ok((v, m)) => r == Ok::<u64, LoadError>(v as u64) && v <= u64::MAX && at + n
                <= input@.len() <= usize::MAX,
            Err(e) => r == Err::<u64, LoadError>(e),
        },
{
    let _ = input.len();
    proof {
        if at + n <= input@.len() {
            assert(input@.skip(at as int).subrange(0, n as int) =~= input@.subrange(
                at as int,
                at + n,
            ));
        }
    }
    read_le(input, at, n)
}

impl Savable for bool {
    open spec fn encoding(v: bool) -> Seq<u8> {
        seq![if v { 1u8 } else { 0u8 }]
    }

    open spec fn decoding(shape: bool, bytes: Seq<u8>) -> Result<(bool, nat), LoadError> {
        if bytes.len() >= 1 {
            Ok((bytes[0] > 0, 1))
        } else {
            Err(LoadError::UnexpectedEnd)
        }
    }

    fn save(&self, out: &mut Vec<u8>) {
        out.push(if *self { 1 } else { 0 });
        proof {
            assert(out@ =~= old(out)@ + Self::encoding(*self));
        }
    }

    fn load(&mut self, input: &[u8], at: usize) -> (r: Result<usize, LoadError>) {
        if at >= input.len() {
            return Err(LoadError::UnexpectedEnd);
        }
        *self = input[at] > 0;
        Ok(at + 1)
    }
}

impl Savable for u8 {
    open spec fn encoding(v: u8) -> Seq<u8> {
        seq![v]
    }

    open spec fn decoding(shape: u8, bytes: Seq<u8>) -> Result<(u8, nat), LoadError> {
        if bytes.len() >= 1 {
            Ok((bytes[0], 1))
        } else {
            Err(LoadError::UnexpectedEnd)
        }
    }

    fn save(&self, out: &mut Vec<u8>) {
        out.push(*self);
        proof {
            assert(out@ =~= old(out)@ + Self::encoding(*self));
        }
    }

    fn load(&mut self, input: &[u8], at: usize) -> (r: Result<usize, LoadError>) {
        if at >= input.len() {
            return Err(LoadError::UnexpectedEnd);
        }
        *self = input[at];
        Ok(at + 1)
    }
}

impl Savable for u16 {
    open spec fn encoding(v: u16) -> Seq<u8> {
        le_bytes(v as u64, 2)
    }

    open spec fn decoding(shape: u16, bytes: Seq<u8>) -> Result<(u16, nat), LoadError> {
        match le_decoding(bytes, 2) {
            Ok((v, n)) => Ok((v as u16, n)),
            Err(e) => Err(e),
        }
    }

    fn save(&self, out: &mut Vec<u8>) {
        push_le(out, *self as u64, 2);
    }

    fn load(&mut self, input: &[u8], at: usize) -> (r: Result<usize, LoadError>) {
        match load_le(input, at, 2) {
            Ok(v) => {
                proof {
                    lemma_le_bound(input@.subrange(at as int, at + 2));
                    lemma_pow256_bound(2);
                    assert(input@.skip(at as int).subrange(0, 2) =~= input@.subrange(
                        at as int,
                        at + 2,
                    ));
                }
                *self = v as u16;
                Ok(at + 2)
            },
            Err(e) => Err(e),
        }
    }
}

impl Savable for u32 {
    open spec fn encoding(v: u32) -> Seq<u8> {
        le_bytes(v as u64, 4)
    }

    open spec fn decoding(shape: u32, bytes: Seq<u8>) -> Result<(u32, nat), LoadError> {
        match le_decoding(bytes, 4) {
            Ok((v, n)) => Ok((v as u32, n)),
            Err(e) => Err(e),
        }
    }

    fn save(&self, out: &mut Vec<u8>) {
        push_le(out, *self as u64, 4);
    }

    fn load(&mut self, input: &[u8], at: usize) -> (r: Result<usize, LoadError>) {
        match load_le(input, at, 4) {
            Ok(v) => {
                proof {
                    lemma_le_bound(input@.subrange(at as int, at + 4));
                    lemma_pow256_bound(4);
                    assert(input@.skip(at as int).subrange(0, 4) =~= input@.subrange(
                        at as int,
                        at + 4,
                    ));
                }
                *self = v as u32;
                Ok(at + 4)
            },
            Err(e) => Err(e),
        }
    }
}

impl Savable for u64 {
    open spec fn encoding(v: u64) -> Seq<u8> {
        le_bytes(v, 8)
    }

    open spec fn decoding(shape: u64, bytes: Seq<u8>) -> Result<(u64, nat), LoadError> {
        match le_decoding(bytes, 8) {
            Ok((v, n)) => Ok((v as u64, n)),
            Err(e) => Err(e),
        }
    }

    fn save(&self, out: &mut Vec<u8>) {
        push_le(out, *self, 8);
    }

    fn load(&mut self, input: &[u8], at: usize) -> (r: Result<usize, LoadError>) {
        match load_le(input, at, 8) {
            Ok(v) => {
                *self = v;
                Ok(at + 8)
            },
            Err(e) => Err(e),
        }
    }
}

/// A machine word is saved as 64 bits.
impl Savable for usize {
    open spec fn encoding(v: usize) -> Seq<u8> {
        le_bytes(v as u64, 8)
    }

    open spec fn decoding(shape: usize, bytes: Seq<u8>) -> Result<(usize, nat), LoadError> {
        match le_decoding(bytes, 8) {
            Ok((v, n)) => if v <= usize::MAX {
                Ok((v as usize, n))
            } else {
                Err(LoadError::TooLong)
            },
            Err(e) => Err(e),
        }
    }

    fn save(&self, out: &mut Vec<u8>) {
        push_le(out, *self as u64, 8);
    }

    fn load(&mut self, input: &[u8], at: usize) -> (r: Result<usize, LoadError>) {
        match load_le(input, at, 8) {
            Ok(v) => {
                if v > usize::MAX as u64 {
                    return Err(LoadError::TooLong);
                }
                *self = v as usize;
                Ok(at + 8)
            },
            Err(e) => Err(e),
        }
    }
}

/// A byte string is saved as its length in 64 bits, then its bytes.
impl Savable for Vec<u8> {
    open spec fn encoding(v: Seq<u8>) -> Seq<u8> {
        le_bytes(v.len() as u64, 8) + v
    }

    open spec fn decoding(shape: Seq<u8>, bytes: Seq<u8>) -> Result<(Seq<u8>, nat), LoadError> {
        match le_decoding(bytes, 8) {
            Ok((len, n)) => if len > usize::MAX {
                Err(LoadError::TooLong)
            } else if bytes.len() < 8 + len {
                Err(LoadError::UnexpectedEnd)
            } else {
                Ok((bytes.subrange(8, 8 + len as int), 8 + len))
            },
            Err(e) => Err(e),
        }
    }

    fn save(&self, out: &mut Vec<u8>) {
        push_le(out, self.len() as u64, 8);
        let ghost mid = out@;
        let mut i: usize = 0;
        while i < self.len()
            invariant
                i <= self.len(),
                out@ == mid + self@.subrange(0, i as int),
            decreases self.len() - i,
        {
            out.push(self[i]);
            proof {
                assert(out@ =~= mid + self@.subrange(0, i + 1));
            }
            i = i + 1;
        }
        proof {
            assert(self@.subrange(0, self.len() as int) =~= self@);
            assert(out@ =~= old(out)@ + Self::encoding(self@));
        }
    }

    fn load(&mut self, input: &[u8], at: usize) -> (r: Result<usize, LoadError>) {
        match load_le(input, at, 8) {
            Err(e) => Err(e),
            Ok(len) => {
                if len > usize::MAX as u64 {
                    return Err(LoadError::TooLong);
                }
                let len = len as usize;
                if input.len() - at - 8 < len {
                    return Err(LoadError::UnexpectedEnd);
                }
                let mut bytes: Vec<u8> = Vec::new();
                let mut i: usize = 0;
                while i < len
                    invariant
                        i <= len,
                        at + 8 + len <= input@.len() <= usize::MAX,
                        bytes@ == input@.subrange(at + 8, at + 8 + i),
                    decreases len - i,
                {
                    bytes.push(input[at + 8 + i]);
                    proof {
                        assert(bytes@ =~= input@.subrange(at + 8, at + 8 + i + 1));
                    }
                    i = i + 1;
                }
                proof {
                    assert(input@.skip(at as int).subrange(8, 8 + len) =~= input@.subrange(
                        at + 8,
                        at + 8 + len,
                    ));
                }
                *self = bytes;
                Ok(at + 8 + len)
            },
        }
    }
}

/// The number that `bytes` spell is below `256` to the power of their count.
pub proof fn lemma_le_bound(bytes: Seq<u8>)
    ensures
        le_value(bytes) < vstd::arithmetic::power::pow(256, bytes.len()),
    decreases bytes.len(),
{
    vstd::arithmetic::power::lemma_pow0(256);
    if bytes.len() > 0 {
        lemma_le_bound(bytes.skip(1));
        vstd::arithmetic::power::lemma_pow1(256);
        vstd::arithmetic::power::lemma_pow_adds(256, 1, (bytes.len() - 1) as nat);
        let p = vstd::arithmetic::power::pow(256, (bytes.len() - 1) as nat);
        let t = le_value(bytes.skip(1));
        assert(bytes[0] as nat + 256 * t < 256 * p) by (nonlinear_arith)
            requires
                bytes[0] < 256,
                t < p,
        ;
    }
}

/// Loads a value of type `T` from `input` at `at`, starting from `start`.
pub fn read_value<T: Savable>(start: T, input: &[u8], at: usize) -> (r: Result<(T, usize), LoadError>)
    requires
        at <= input@.len(),
    ensures
        match T::decoding(start@, input@.skip(at as int)) {
            Ok((v, n)) => r is Ok && r->Ok_0.0@ == v && r->Ok_0.1 == at + n,
            Err(e) => r == Err::<(T, usize), LoadError>(e),
        },
{
    let _ = input.len();
    let mut t = start;
    match t.load(input, at) {
        Ok(next) => Ok((t, next)),
        Err(e) => Err(e),
    }
}


/// The byte at offset `o` of `b`.
pub open spec fn u8_at(b: Seq<u8>, o: int) -> u8 {
    b[o]
}

/// The flag at offset `o` of `b`: set unless the byte is zero.
pub open spec fn flag_at(b: Seq<u8>, o: int) -> bool {
    b[o] > 0
}

/// The 16-bit number at offset `o` of `b`.
pub open spec fn u16_at(b: Seq<u8>, o: int) -> u16 {
    le_value(b.subrange(o, o + 2)) as u16
}

/// The 32-bit number at offset `o` of `b`.
pub open spec fn u32_at(b: Seq<u8>, o: int) -> u32 {
    le_value(b.subrange(o, o + 4)) as u32
}

/// The 64-bit number at offset `o` of `b`.
pub open spec fn u64_at(b: Seq<u8>, o: int) -> u64 {
    le_value(b.subrange(o, o + 8)) as u64
}

/// The byte that stands for a flag.
pub open spec fn flag_bytes(f: bool) -> Seq<u8> {
    seq![if f { 1u8 } else { 0u8 }]
}

/// Appends a byte.
pub fn put_u8(out: &mut Vec<u8>, v: u8)
    ensures
        final(out)@ == old(out)@ + seq![v],
{
    out.push(v);
    proof {
        assert(out@ =~= old(out)@ + seq![v]);
    }
}

/// Appends the byte that stands for a flag.
pub fn put_flag(out: &mut Vec<u8>, v: bool)
    ensures
        final(out)@ == old(out)@ + flag_bytes(v),
{
    out.push(if v { 1 } else { 0 });
    proof {
        assert(out@ =~= old(out)@ + flag_bytes(v));
    }
}

/// Appends a 16-bit number, low byte first.
pub fn put_u16(out: &mut Vec<u8>, v: u16)
    ensures
        final(out)@ == old(out)@ + le_bytes(v as u64, 2),
{
    push_le(out, v as u64, 2);
}

/// Appends a 32-bit number, lowest byte first.
pub fn put_u32(out: &mut Vec<u8>, v: u32)
    ensures
        final(out)@ == old(out)@ + le_bytes(v as u64, 4),
{
    push_le(out, v as u64, 4);
}

/// Appends a 64-bit number, lowest byte first.
pub fn put_u64(out: &mut Vec<u8>, v: u64)
    ensures
        final(out)@ == old(out)@ + le_bytes(v, 8),
{
    push_le(out, v, 8);
}

/// The byte at `at`.
pub fn get_u8(input: &[u8], at: usize) -> (r: u8)
    requires
        at + 1 <= input@.len(),
    ensures
        r == u8_at(input@, at as int),
{
    input[at]
}

/// The flag at `at`.
pub fn get_flag(input: &[u8], at: usize) -> (r: bool)
    requires
        at + 1 <= input@.len(),
    ensures
        r == flag_at(input@, at as int),
{
    input[at] > 0
}

/// The 16-bit number at `at`.
pub fn get_u16(input: &[u8], at: usize) -> (r: u16)
    requires
        at + 2 <= input@.len(),
    ensures
        r == u16_at(input@, at as int),
{
    proof {
        lemma_le_bound(input@.subrange(at as int, at + 2));
        lemma_pow256_bound(2);
    }
    match read_le(input, at, 2) {
        Ok(v) => v as u16,
        Err(_) => 0,
    }
}

/// The 32-bit number at `at`.
pub fn get_u32(input: &[u8], at: usize) -> (r: u32)
    requires
        at + 4 <= input@.len(),
    ensures
        r == u32_at(input@, at as int),
{
    proof {
        lemma_le_bound(input@.subrange(at as int, at + 4));
        lemma_pow256_bound(4);
    }
    match read_le(input, at, 4) {
        Ok(v) => v as u32,
        Err(_) => 0,
    }
}

/// The 64-bit number at `at`.
pub fn get_u64(input: &[u8], at: usize) -> (r: u64)
    requires
        at + 8 <= input@.len(),
    ensures
        r == u64_at(input@, at as int),
{
    match read_le(input, at, 8) {
        Ok(v) => v,
        Err(_) => 0,
    }
}

/// A number of `n` bytes is read back from where its bytes stand.
pub proof fn lemma_number_at(pre: Seq<u8>, v: u64, n: nat, post: Seq<u8>)
    requires
        n == 2 || n == 4 || n == 8,
        n == 2 ==> v <= 0xFFFF,
        n == 4 ==> v <= 0xFFFF_FFFF,
    ensures
        le_value((pre + le_bytes(v, n) + post).subrange(pre.len() as int, pre.len() + n as int)) == v,
        le_bytes(v, n).len() == n,
{
    lemma_le_roundtrip(v, n);
    lemma_pow256_bound(n);
    let p = vstd::arithmetic::power::pow(256, n) as nat;
    assert(v as nat % p == v) by {
        assert(v < p);
        vstd::arithmetic::div_mod::lemma_small_mod(v as nat, p);
    }
    assert((pre + le_bytes(v, n) + post).subrange(pre.len() as int, pre.len() + n as int) =~= le_bytes(
        v,
        n,
    ));
}


/// A byte string as it is saved: its length in 64 bits, then its bytes.
pub open spec fn blob_bytes(bs: Seq<u8>) -> Seq<u8> {
    le_bytes(bs.len() as u64, 8) + bs
}

/// The byte string that `b` holds at offset `o`, with the offset behind it.
pub open spec fn blob_at(b: Seq<u8>, o: int) -> Result<(Seq<u8>, int), LoadError> {
    if o + 8 > b.len() {
        Err(LoadError::UnexpectedEnd)
    } else if u64_at(b, o) > usize::MAX {
        Err(LoadError::TooLong)
    } else if o + 8 + u64_at(b, o) > b.len() {
        Err(LoadError::UnexpectedEnd)
    } else {
        Ok((b.subrange(o + 8, o + 8 + u64_at(b, o)), o + 8 + u64_at(b, o)))
    }
}

/// Appends a byte string as it is saved.
pub fn put_blob(out: &mut Vec<u8>, bs: &Vec<u8>)
    ensures
        final(out)@ == old(out)@ + blob_bytes(bs@),
{
    put_u64(out, bs.len() as u64);
    let ghost mid = out@;
    let mut i: usize = 0;
    while i < bs.len()
        invariant
            i <= bs.len(),
            out@ == mid + bs@.subrange(0, i as int),
        decreases bs.len() - i,
    {
        out.push(bs[i]);
        proof {
            assert(out@ =~= mid + bs@.subrange(0, i + 1));
        }
        i = i + 1;
    }
    proof {
        assert(bs@.subrange(0, bs.len() as int) =~= bs@);
        assert(out@ =~= old(out)@ + blob_bytes(bs@));
    }
}

/// Reads the byte string that `input` holds at `at`; returns it with the
/// position behind it.
pub fn get_blob(input: &[u8], at: usize) -> (r: Result<(Vec<u8>, usize), LoadError>)
    requires
        at <= input@.len(),
    ensures
        match blob_at(input@, at as int) {
            Ok((bs, next)) => r is Ok && r->Ok_0.0@ == bs && r->Ok_0.1 == next && next
                <= input@.len(),
            Err(e) => r == Err::<(Vec<u8>, usize), LoadError>(e),
        },
{
    if input.len() - at < 8 {
        return Err(LoadError::UnexpectedEnd);
    }
    let len = get_u64(input, at);
    if len > usize::MAX as u64 {
        return Err(LoadError::TooLong);
    }
    let len = len as usize;
    if input.len() - at - 8 < len {
        return Err(LoadError::UnexpectedEnd);
    }
    let mut bytes: Vec<u8> = Vec::new();
    let mut i: usize = 0;
    while i < len
        invariant
            i <= len,
            at + 8 + len <= input@.len() <= usize::MAX,
            bytes@ == input@.subrange(at + 8, at + 8 + i),
        decreases len - i,
    {
        bytes.push(input[at + 8 + i]);
        proof {
            assert(bytes@ =~= input@.subrange(at + 8, at + 8 + i + 1));
        }
        i = i + 1;
    }
    Ok((bytes, at + 8 + len))
}

/// A byte string is read back from where its bytes stand.
pub proof fn lemma_blob_at(pre: Seq<u8>, bs: Seq<u8>, post: Seq<u8>)
    requires
        bs.len() <= usize::MAX,
    ensures
        blob_at(pre + blob_bytes(bs) + post, pre.len() as int) == Ok::<(Seq<u8>, int), LoadError>(
            (bs, pre.len() as int + blob_bytes(bs).len()),
        ),
        blob_bytes(bs).len() == 8 + bs.len(),
{
    let whole = pre + blob_bytes(bs) + post;
    lemma_number_at(pre, bs.len() as u64, 8, bs + post);
    assert(whole =~= pre + le_bytes(bs.len() as u64, 8) + (bs + post));
    assert(whole.subrange(pre.len() as int + 8, pre.len() as int + 8 + bs.len()) =~= bs);
}


/// Joining byte strings does not depend on how the joins are grouped.
pub proof fn lemma_concat_assoc(x: Seq<u8>, y: Seq<u8>, z: Seq<u8>)
    ensures
        (x + y) + z == x + (y + z),
{
    assert((x + y) + z =~= x + (y + z));
}

} // verus!
