//! Saving and loading of values through the `byteorder` crate: integers
//! little-endian, sequences behind their length in 64 bits.

use crate::serialization::{le_bytes, le_value, LoadError};
use byteorder::{LittleEndian, ReadBytesExt, WriteBytesExt};
use vstd::prelude::*;

verus! {

/// Calls `WriteBytesExt::write_u8` of `byteorder` on a vector. Claimed:
/// the byte is appended. Writing to a vector does not fail.
#[verifier::external_body]
fn write_u8(writer: &mut Vec<u8>, v: u8)
    ensures
        final(writer)@ == old(writer)@.push(v),
{
    writer.write_u8(v).expect("Could not save u8");
}

/// Calls `WriteBytesExt::write_u16::<LittleEndian>` of `byteorder` on a
/// vector. Claimed: the two bytes of `v` are appended, low byte first.
#[verifier::external_body]
fn write_u16(writer: &mut Vec<u8>, v: u16)
    ensures
        final(writer)@ == old(writer)@ + le_bytes(v as u64, 2),
{
    writer.write_u16::<LittleEndian>(v).expect("Could not save u16");
}

/// Calls `WriteBytesExt::write_u32::<LittleEndian>` of `byteorder` on a
/// vector. Claimed: the four bytes of `v` are appended, lowest byte first.
#[verifier::external_body]
fn write_u32(writer: &mut Vec<u8>, v: u32)
    ensures
        final(writer)@ == old(writer)@ + le_bytes(v as u64, 4),
{
    writer.write_u32::<LittleEndian>(v).expect("Could not save u32");
}

/// Calls `WriteBytesExt::write_u64::<LittleEndian>` of `byteorder` on a
/// vector. Claimed: the eight bytes of `v` are appended, lowest byte first.
#[verifier::external_body]
fn write_u64(writer: &mut Vec<u8>, v: u64)
    ensures
        final(writer)@ == old(writer)@ + le_bytes(v, 8),
{
    writer.write_u64::<LittleEndian>(v).expect("Could not save u64");
}

/// Calls `ReadBytesExt::read_u8` of `byteorder` on the bytes from `at` on.
/// Claimed: the byte at `at`, or nothing if the bytes end there.
#[verifier::external_body]
fn read_u8(reader: &[u8], at: usize) -> (r: Option<u8>)
    requires
        at <= reader@.len(),
    ensures
        r == (if at + 1 <= reader@.len() {
            Some(reader@[at as int])
        } else {
            None
        }),
{
    let mut rest = &reader[at..];
    rest.read_u8().ok()
}

/// Calls `ReadBytesExt::read_u16::<LittleEndian>` of `byteorder` on the
/// bytes from `at` on. Claimed: the number that the two bytes at `at`
/// spell, low byte first, or nothing if fewer than two bytes are left.
#[verifier::external_body]
fn read_u16(reader: &[u8], at: usize) -> (r: Option<u16>)
    requires
        at <= reader@.len(),
    ensures
        r == (if at + 2 <= reader@.len() {
            Some(le_value(reader@.subrange(at as int, at + 2)) as u16)
        } else {
            None
        }),
{
    let mut rest = &reader[at..];
    rest.read_u16::<LittleEndian>().ok()
}

/// Calls `ReadBytesExt::read_u32::<LittleEndian>` of `byteorder` on the
/// bytes from `at` on. Claimed: the number that the four bytes at `at`
/// spell, lowest byte first, or nothing if fewer than four bytes are left.
#[verifier::external_body]
fn read_u32(reader: &[u8], at: usize) -> (r: Option<u32>)
    requires
        at <= reader@.len(),
    ensures
        r == (if at + 4 <= reader@.len() {
            Some(le_value(reader@.subrange(at as int, at + 4)) as u32)
        } else {
            None
        }),
{
    let mut rest = &reader[at..];
    rest.read_u32::<LittleEndian>().ok()
}

/// Calls `ReadBytesExt::read_u64::<LittleEndian>` of `byteorder` on the
/// bytes from `at` on. Claimed: the number that the eight bytes at `at`
/// spell, lowest byte first, or nothing if fewer than eight bytes are left.
#[verifier::external_body]
fn read_u64(reader: &[u8], at: usize) -> (r: Option<u64>)
    requires
        at <= reader@.len(),
    ensures
        r == (if at + 8 <= reader@.len() {
            Some(le_value(reader@.subrange(at as int, at + 8)) as u64)
        } else {
            None
        }),
{
    let mut rest = &reader[at..];
    rest.read_u64::<LittleEndian>().ok()
}

/// A value that can be saved to bytes and built back from them.
pub trait NewSavable: Sized {
    /// The mathematical value.
    type Model;

    /// The mathematical value of `self`.
    spec fn model(&self) -> Self::Model;

    /// The bytes that stand for `m`.
    spec fn encoded(m: Self::Model) -> Seq<u8>;

    /// The value that the start of `bytes` stands for, with the number of
    /// bytes it takes; or why there is none.
    spec fn parsed(bytes: Seq<u8>) -> Result<(Self::Model, nat), LoadError>;

    /// Appends the bytes that stand for the value to `writer`.
    fn save(&self, writer: &mut Vec<u8>)
        ensures
            final(writer)@ == old(writer)@ + Self::encoded(self.model()),
    ;

    /// Builds the value that `reader` holds at `at`; returns it with the
    /// position behind it.
    fn load(reader: &[u8], at: usize) -> (r: Result<(Self, usize), LoadError>)
        requires
            at <= reader@.len(),
        ensures
            match Self::parsed(reader@.skip(at as int)) {
                Ok((m, n)) => r is Ok && r->Ok_0.0.model() == m && r->Ok_0.1 == at + n && at + n
                    <= reader@.len(),
                Err(e) => r == Err::<(Self, usize), LoadError>(e),
            },
    ;
}

/// The number that the first `n` bytes of `bytes` spell, if there are that many.
pub open spec fn number_parsed(bytes: Seq<u8>, n: nat) -> Result<(nat, nat), LoadError> {
    if bytes.len() >= n {
        Ok((le_value(bytes.subrange(0, n as int)), n))
    } else {
        Err(LoadError::UnexpectedEnd)
    }
}

impl NewSavable for bool {
    type Model = bool;

    open spec fn model(&self) -> bool {
        *self
    }

    open spec fn encoded(m: bool) -> Seq<u8> {
        seq![if m { 1u8 } else { 0u8 }]
    }

    open spec fn parsed(bytes: Seq<u8>) -> Result<(bool, nat), LoadError> {
        if bytes.len() >= 1 {
            Ok((bytes[0] > 0, 1))
        } else {
            Err(LoadError::UnexpectedEnd)
        }
    }

    fn save(&self, writer: &mut Vec<u8>) {
        write_u8(writer, if *self { 1 } else { 0 });
        proof {
            assert(writer@ =~= old(writer)@ + Self::encoded(*self));
        }
    }

    fn load(reader: &[u8], at: usize) -> (r: Result<(bool, usize), LoadError>) {
        let _ = reader.len();
        match read_u8(reader, at) {
            Some(byte) => Ok((byte > 0, at + 1)),
            None => Err(LoadError::UnexpectedEnd),
        }
    }
}

impl NewSavable for u8 {
    type Model = u8;

    open spec fn model(&self) -> u8 {
        *self
    }

    open spec fn encoded(m: u8) -> Seq<u8> {
        seq![m]
    }

    open spec fn parsed(bytes: Seq<u8>) -> Result<(u8, nat), LoadError> {
        if bytes.len() >= 1 {
            Ok((bytes[0], 1))
        } else {
            Err(LoadError::UnexpectedEnd)
        }
    }

    fn save(&self, writer: &mut Vec<u8>) {
        write_u8(writer, *self);
        proof {
            assert(writer@ =~= old(writer)@ + Self::encoded(*self));
        }
    }

    fn load(reader: &[u8], at: usize) -> (r: Result<(u8, usize), LoadError>) {
        let _ = reader.len();
        match read_u8(reader, at) {
            Some(byte) => Ok((byte, at + 1)),
            None => Err(LoadError::UnexpectedEnd),
        }
    }
}

impl NewSavable for u16 {
    type Model = u16;

    open spec fn model(&self) -> u16 {
        *self
    }

    open spec fn encoded(m: u16) -> Seq<u8> {
        le_bytes(m as u64, 2)
    }

    open spec fn parsed(bytes: Seq<u8>) -> Result<(u16, nat), LoadError> {
        match number_parsed(bytes, 2) {
            Ok((v, n)) => Ok((v as u16, n)),
            Err(e) => Err(e),
        }
    }

    fn save(&self, writer: &mut Vec<u8>) {
        write_u16(writer, *self);
    }

    fn load(reader: &[u8], at: usize) -> (r: Result<(u16, usize), LoadError>) {
        let _ = reader.len();
        proof {
            if at + 2 <= reader@.len() {
                assert(reader@.skip(at as int).subrange(0, 2) =~= reader@.subrange(
                    at as int,
                    at + 2,
                ));
            }
        }
        match read_u16(reader, at) {
            Some(v) => Ok((v, at + 2)),
            None => Err(LoadError::UnexpectedEnd),
        }
    }
}

impl NewSavable for u32 {
    type Model = u32;

    open spec fn model(&self) -> u32 {
        *self
    }

    open spec fn encoded(m: u32) -> Seq<u8> {
        le_bytes(m as u64, 4)
    }

    open spec fn parsed(bytes: Seq<u8>) -> Result<(u32, nat), LoadError> {
        match number_parsed(bytes, 4) {
            Ok((v, n)) => Ok((v as u32, n)),
            Err(e) => Err(e),
        }
    }

    fn save(&self, writer: &mut Vec<u8>) {
        write_u32(writer, *self);
    }

    fn load(reader: &[u8], at: usize) -> (r: Result<(u32, usize), LoadError>) {
        let _ = reader.len();
        proof {
            if at + 4 <= reader@.len() {
                assert(reader@.skip(at as int).subrange(0, 4) =~= reader@.subrange(
                    at as int,
                    at + 4,
                ));
            }
        }
        match read_u32(reader, at) {
            Some(v) => Ok((v, at + 4)),
            None => Err(LoadError::UnexpectedEnd),
        }
    }
}

impl NewSavable for u64 {
    type Model = u64;

    open spec fn model(&self) -> u64 {
        *self
    }

    open spec fn encoded(m: u64) -> Seq<u8> {
        le_bytes(m, 8)
    }

    open spec fn parsed(bytes: Seq<u8>) -> Result<(u64, nat), LoadError> {
        match number_parsed(bytes, 8) {
            Ok((v, n)) => Ok((v as u64, n)),
            Err(e) => Err(e),
        }
    }

    fn save(&self, writer: &mut Vec<u8>) {
        write_u64(writer, *self);
    }

    fn load(reader: &[u8], at: usize) -> (r: Result<(u64, usize), LoadError>) {
        let _ = reader.len();
        proof {
            if at + 8 <= reader@.len() {
                assert(reader@.skip(at as int).subrange(0, 8) =~= reader@.subrange(
                    at as int,
                    at + 8,
                ));
            }
        }
        match read_u64(reader, at) {
            Some(v) => Ok((v, at + 8)),
            None => Err(LoadError::UnexpectedEnd),
        }
    }
}

/// A machine word is saved as 64 bits.
impl NewSavable for usize {
    type Model = usize;

    open spec fn model(&self) -> usize {
        *self
    }

    open spec fn encoded(m: usize) -> Seq<u8> {
        le_bytes(m as u64, 8)
    }

    open spec fn parsed(bytes: Seq<u8>) -> Result<(usize, nat), LoadError> {
        match number_parsed(bytes, 8) {
            Ok((v, n)) => if v as u64 <= usize::MAX {
                Ok((v as u64 as usize, n))
            } else {
                Err(LoadError::TooLong)
            },
            Err(e) => Err(e),
        }
    }

    fn save(&self, writer: &mut Vec<u8>) {
        write_u64(writer, *self as u64);
    }

    fn load(reader: &[u8], at: usize) -> (r: Result<(usize, usize), LoadError>) {
        match <u64 as NewSavable>::load(reader, at) {
            Ok((v, next)) => {
                if v > usize::MAX as u64 {
                    Err(LoadError::TooLong)
                } else {
                    Ok((v as usize, next))
                }
            },
            Err(e) => Err(e),
        }
    }
}

/// The bytes that stand for the items `ms`, one after another.
pub open spec fn items_encoded<T: NewSavable>(ms: Seq<T::Model>) -> Seq<u8>
    decreases ms.len(),
{
    if ms.len() == 0 {
        Seq::empty()
    } else {
        items_encoded::<T>(ms.drop_last()) + T::encoded(ms.last())
    }
}

/// The first `count` items that `bytes` hold one after another, with the
/// number of bytes they take; or why the first of them that fails does.
pub open spec fn items_parsed<T: NewSavable>(bytes: Seq<u8>, count: nat) -> Result<
    (Seq<T::Model>, nat),
    LoadError,
>
    decreases count,
{
    if count == 0 {
        Ok((Seq::empty(), 0))
    } else {
        match items_parsed::<T>(bytes, (count - 1) as nat) {
            Err(e) => Err(e),
            Ok((ms, n)) => if n > bytes.len() {
                Err(LoadError::UnexpectedEnd)
            } else {
                match T::parsed(bytes.skip(n as int)) {
                    Err(e) => Err(e),
                    Ok((m, c)) => Ok((ms.push(m), n + c)),
                }
            },
        }
    }
}

/// The mathematical values of the items of `s`.
pub open spec fn models<T: NewSavable>(s: Seq<T>) -> Seq<T::Model> {
    Seq::new(s.len(), |i: int| s[i].model())
}

/// A sequence is saved as its length in 64 bits, then its items.
impl<T: NewSavable> NewSavable for Vec<T> {
    type Model = Seq<T::Model>;

    open spec fn model(&self) -> Seq<T::Model> {
        models::<T>(self@)
    }

    open spec fn encoded(m: Seq<T::Model>) -> Seq<u8> {
        le_bytes(m.len() as u64, 8) + items_encoded::<T>(m)
    }

    open spec fn parsed(bytes: Seq<u8>) -> Result<(Seq<T::Model>, nat), LoadError> {
        match <usize as NewSavable>::parsed(bytes) {
            Err(e) => Err(e),
            Ok((count, n)) => match items_parsed::<T>(bytes.skip(8), count as nat) {
                Err(e) => Err(e),
                Ok((ms, c)) => Ok((ms, 8 + c)),
            },
        }
    }

    fn save(&self, writer: &mut Vec<u8>) {
        self.len().save(writer);
        let ghost mid = writer@;
        let mut i: usize = 0;
        proof {
            assert(models::<T>(self@.subrange(0, 0)) =~= Seq::<T::Model>::empty());
            assert(mid + Seq::<u8>::empty() =~= mid);
        }
        while i < self.len()
            invariant
                i <= self.len(),
                writer@ == mid + items_encoded::<T>(models::<T>(self@.subrange(0, i as int))),
            decreases self.len() - i,
        {
            let ghost before = models::<T>(self@.subrange(0, i as int));
            self[i].save(writer);
            proof {
                let after = models::<T>(self@.subrange(0, i + 1));
                assert(after.drop_last() =~= before);
                assert(after.last() == self@[i as int].model());
                assert(writer@ =~= mid + items_encoded::<T>(after));
            }
            i = i + 1;
        }
        proof {
            assert(self@.subrange(0, self.len() as int) =~= self@);
            assert(writer@ =~= old(writer)@ + Self::encoded(self.model()));
        }
    }

    fn load(reader: &[u8], at: usize) -> (r: Result<(Vec<T>, usize), LoadError>) {
        let (count, start) = match <usize as NewSavable>::load(reader, at) {
            Ok(pair) => pair,
            Err(e) => {
                return Err(e);
            },
        };
        let ghost bytes = reader@.skip(at as int).skip(8);
        proof {
            assert(bytes =~= reader@.skip(start as int));
        }
        let mut result: Vec<T> = Vec::new();
        let mut pos: usize = start;
        let mut i: usize = 0;
        proof {
            assert(models::<T>(result@) =~= Seq::<T::Model>::empty());
        }
        while i < count
            invariant
                i <= count,
                start <= pos <= reader@.len(),
                bytes == reader@.skip(start as int),
                bytes == reader@.skip(at as int).skip(8),
                <usize as NewSavable>::parsed(reader@.skip(at as int)) == Ok::<
                    (usize, nat),
                    LoadError,
                >((count, 8nat)),
                items_parsed::<T>(bytes, i as nat) == Ok::<(Seq<T::Model>, nat), LoadError>(
                    (models::<T>(result@), (pos - start) as nat),
                ),
            decreases count - i,
        {
            proof {
                assert(bytes.skip(pos - start) =~= reader@.skip(pos as int));
            }
            match T::load(reader, pos) {
                Err(e) => {
                    proof {
                        assert(T::parsed(bytes.skip(pos - start)) == Err::<(T::Model, nat), LoadError>(e));
                        assert(items_parsed::<T>(bytes, (i + 1) as nat) == Err::<
                            (Seq<T::Model>, nat),
                            LoadError,
                        >(e));
                        lemma_items_parsed_fails::<T>(bytes, (i + 1) as nat, count as nat);
                    }
                    return Err(e);
                },
                Ok((item, next)) => {
                    let ghost before = models::<T>(result@);
                    result.push(item);
                    proof {
                        assert(models::<T>(result@) =~= before.push(item.model()));
                    }
                    pos = next;
                },
            }
            i = i + 1;
        }
        Ok((result, pos))
    }
}

/// Once the first `k` items fail to parse, so do the first `count` for
/// every `count` from `k` on, for the same reason.
pub proof fn lemma_items_parsed_fails<T: NewSavable>(bytes: Seq<u8>, k: nat, count: nat)
    requires
        k <= count,
        items_parsed::<T>(bytes, k) is Err,
    ensures
        items_parsed::<T>(bytes, count) == items_parsed::<T>(bytes, k),
    decreases count,
{
    if count > k {
        lemma_items_parsed_fails::<T>(bytes, k, (count - 1) as nat);
    }
}

/// Builds a value of type `T` from `reader` at `at`.
pub fn load<T: NewSavable>(reader: &[u8], at: usize) -> (r: Result<(T, usize), LoadError>)
    requires
        at <= reader@.len(),
    ensures
        match T::parsed(reader@.skip(at as int)) {
            Ok((m, n)) => r is Ok && r->Ok_0.0.model() == m && r->Ok_0.1 == at + n && at + n
                <= reader@.len(),
            Err(e) => r == Err::<(T, usize), LoadError>(e),
        },
{
    T::load(reader, at)
}

/// Appends the bytes that stand for `item` to `writer`.
pub fn save<T: NewSavable>(writer: &mut Vec<u8>, item: T)
    ensures
        final(writer)@ == old(writer)@ + T::encoded(item.model()),
{
    item.save(writer)
}

} // verus!
