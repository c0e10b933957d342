//! The bytes of integers in memory.
use vstd::prelude::*;

verus! {

/// The order in which a machine keeps the bytes of an integer.
#[derive(Clone, Copy, Debug, PartialEq, Eq, Structural)]
pub enum ByteOrder {
    /// The lowest byte comes first.
    Little,
    /// The highest byte comes first.
    Big,
}

/// The bytes of a 16-bit integer.
pub open spec fn u16_bytes(value: u16, order: ByteOrder) -> Seq<u8> {
    let low = (value % 0x100) as u8;
    let high = (value / 0x100) as u8;
    match order {
        ByteOrder::Little => seq![low, high],
        ByteOrder::Big => seq![high, low],
    }
}

/// The bytes of a 32-bit integer.
pub open spec fn u32_bytes(value: u32, order: ByteOrder) -> Seq<u8> {
    let b0 = (value % 0x100) as u8;
    let b1 = (value / 0x100 % 0x100) as u8;
    let b2 = (value / 0x1_0000 % 0x100) as u8;
    let b3 = (value / 0x100_0000) as u8;
    match order {
        ByteOrder::Little => seq![b0, b1, b2, b3],
        ByteOrder::Big => seq![b3, b2, b1, b0],
    }
}

/// The bytes of 32-bit integers, one after the other.
pub open spec fn words_bytes(words: Seq<u32>, order: ByteOrder) -> Seq<u8>
    decreases words.len(),
{
    if words.len() == 0 {
        Seq::empty()
    } else {
        words_bytes(words.drop_last(), order) + u32_bytes(words.last(), order)
    }
}

/// Appends the bytes of a 16-bit integer.
pub fn push_u16(bytes: &mut Vec<u8>, value: u16, order: ByteOrder)
    ensures
        final(bytes)@ == old(bytes)@ + u16_bytes(value, order),
{
    let low: u8 = (value % 0x100) as u8;
    let high: u8 = (value / 0x100) as u8;
    match order {
        ByteOrder::Little => {
            bytes.push(low);
            bytes.push(high);
        },
        ByteOrder::Big => {
            bytes.push(high);
            bytes.push(low);
        },
    }
}

/// Appends the bytes of a 32-bit integer.
pub fn push_u32(bytes: &mut Vec<u8>, value: u32, order: ByteOrder)
    ensures
        final(bytes)@ == old(bytes)@ + u32_bytes(value, order),
{
    let b0: u8 = (value % 0x100) as u8;
    let b1: u8 = (value / 0x100 % 0x100) as u8;
    let b2: u8 = (value / 0x1_0000 % 0x100) as u8;
    let b3: u8 = (value / 0x100_0000) as u8;
    match order {
        ByteOrder::Little => {
            bytes.push(b0);
            bytes.push(b1);
            bytes.push(b2);
            bytes.push(b3);
        },
        ByteOrder::Big => {
            bytes.push(b3);
            bytes.push(b2);
            bytes.push(b1);
            bytes.push(b0);
        },
    }
}

/// The bytes of 32-bit integers, one after the other.
pub fn words_to_bytes(words: &Vec<u32>, order: ByteOrder) -> (bytes: Vec<u8>)
    ensures
        bytes@ == words_bytes(words@, order),
        bytes@.len() == 4 * words@.len(),
{
    let mut bytes: Vec<u8> = Vec::new();
    let mut next: usize = 0;
    while next < words.len()
        invariant
            next <= words.len(),
            bytes@ == words_bytes(words@.take(next as int), order),
            bytes@.len() == 4 * next,
        decreases words.len() - next,
    {
        push_u32(&mut bytes, words[next], order);
        proof {
            assert(words@.take(next + 1).drop_last() == words@.take(next as int));
        }
        next = next + 1;
    }
    proof {
        assert(words@.take(next as int) == words@);
    }
    bytes
}

/// Words can be read back from their bytes: different words have different bytes.
pub proof fn words_bytes_is_injective(a: Seq<u32>, b: Seq<u32>, order: ByteOrder)
    requires
        words_bytes(a, order) == words_bytes(b, order),
    ensures
        a == b,
    decreases a.len(),
{
    lemma_words_bytes_len(a, order);
    lemma_words_bytes_len(b, order);
    assert(a.len() == b.len());
    if a.len() > 0 {
        let all = words_bytes(a, order);
        let split = all.len() - 4;
        lemma_words_bytes_len(a.drop_last(), order);
        lemma_words_bytes_len(b.drop_last(), order);
        assert(all.take(split) =~= words_bytes(a.drop_last(), order));
        assert(all.take(split) =~= words_bytes(b.drop_last(), order));
        words_bytes_is_injective(a.drop_last(), b.drop_last(), order);
        assert(all.skip(split) =~= u32_bytes(a.last(), order));
        assert(all.skip(split) =~= u32_bytes(b.last(), order));
        let x = u32_bytes(a.last(), order);
        let y = u32_bytes(b.last(), order);
        assert(x[0] == y[0] && x[1] == y[1] && x[2] == y[2] && x[3] == y[3]);
        assert(a.last() == b.last());
        assert(a =~= a.drop_last().push(a.last()));
        assert(b =~= b.drop_last().push(b.last()));
    }
}

proof fn lemma_words_bytes_len(words: Seq<u32>, order: ByteOrder)
    ensures
        words_bytes(words, order).len() == 4 * words.len(),
    decreases words.len(),
{
    if words.len() > 0 {
        lemma_words_bytes_len(words.drop_last(), order);
    }
}

/// The bytes of a 16-bit integer are its digits to the base 256, the lowest first or last.
pub proof fn u16_bytes_are_digits(value: u16)
    ensures
        ({
            let little = u16_bytes(value, ByteOrder::Little);
            let big = u16_bytes(value, ByteOrder::Big);
            &&& little.len() == 2 && big.len() == 2
            &&& little[0] + 256 * little[1] == value
            &&& big[1] + 256 * big[0] == value
        }),
{
}

/// The bytes of a 32-bit integer are its digits to the base 256, the lowest first or last.
pub proof fn u32_bytes_are_digits(value: u32)
    ensures
        ({
            let little = u32_bytes(value, ByteOrder::Little);
            let big = u32_bytes(value, ByteOrder::Big);
            &&& little.len() == 4 && big.len() == 4
            &&& little[0] + 256 * little[1] + 65536 * little[2] + 16777216 * little[3] == value
            &&& big[3] + 256 * big[2] + 65536 * big[1] + 16777216 * big[0] == value
        }),
{
}

/// The bytes of 32-bit integers are four for each, and those of each stand at four times its place.
pub proof fn word_stands_at_its_place(words: Seq<u32>, order: ByteOrder, place: int)
    requires
        0 <= place < words.len(),
    ensures
        words_bytes(words, order).len() == 4 * words.len(),
        words_bytes(words, order).subrange(4 * place, 4 * place + 4) == u32_bytes(
            words[place],
            order,
        ),
    decreases words.len(),
{
    lemma_words_bytes_len(words, order);
    lemma_words_bytes_len(words.drop_last(), order);
    let all = words_bytes(words, order);
    if place < words.len() - 1 {
        word_stands_at_its_place(words.drop_last(), order, place);
        assert(all.subrange(4 * place, 4 * place + 4) =~= words_bytes(
            words.drop_last(),
            order,
        ).subrange(4 * place, 4 * place + 4));
    } else {
        assert(all.subrange(4 * place, 4 * place + 4) =~= u32_bytes(words[place], order));
    }
}

} // verus!
