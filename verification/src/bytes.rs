//! Numbers as bytes, in the order in which the machine keeps them.

use crate::player::GpuRect;
use vstd::prelude::*;

verus! {

/// Which byte of a number comes first in memory.
#[derive(Clone, Copy, Debug, PartialEq, Eq, Structural)]
pub enum ByteOrder {
    /// The lowest.
    Little,
    /// The highest.
    Big,
}

/// The four bytes of a number.
pub open spec fn word_bytes(order: ByteOrder, x: u32) -> Seq<u8> {
    let b0 = (x % 256) as u8;
    let b1 = (x / 256 % 256) as u8;
    let b2 = (x / 65536 % 256) as u8;
    let b3 = (x / 16777216) as u8;
    match order {
        ByteOrder::Little => seq![b0, b1, b2, b3],
        ByteOrder::Big => seq![b3, b2, b1, b0],
    }
}

/// The number that four bytes stand for.
pub open spec fn word_of(order: ByteOrder, s: Seq<u8>) -> int {
    match order {
        ByteOrder::Little => s[0] + 256 * s[1] + 65536 * s[2] + 16777216 * s[3],
        ByteOrder::Big => s[3] + 256 * s[2] + 65536 * s[1] + 16777216 * s[0],
    }
}

/// The bytes of a number stand for it.
pub proof fn law_word_bytes_round_trip(order: ByteOrder, x: u32)
    ensures
        word_bytes(order, x).len() == 4,
        word_of(order, word_bytes(order, x)) == x,
{
}

/// In the order that starts with the lowest byte, each byte counts 256 times the one before it; in
/// the other order it is the other way round.
pub proof fn law_bytes_are_positional(x: u32)
    ensures
        ({
            let b = word_bytes(ByteOrder::Little, x);
            &&& b.len() == 4
            &&& x == b[0] + 256 * (b[1] + 256 * (b[2] + 256 * b[3]))
        }),
        word_bytes(ByteOrder::Big, x) == word_bytes(ByteOrder::Little, x).reverse(),
{
    assert(word_bytes(ByteOrder::Big, x) =~= word_bytes(ByteOrder::Little, x).reverse());
}

/// `u32::to_ne_bytes`: the bytes of the number in the order of the machine, which is one of the
/// two. Which one it is depends on the machine and is left unsaid.
#[verifier::external_body]
fn native_bytes(x: u32) -> (r: [u8; 4])
    ensures
        r@ == word_bytes(ByteOrder::Little, x) || r@ == word_bytes(ByteOrder::Big, x),
{
    x.to_ne_bytes()
}

/// The order that the bytes of the number one show.
pub open spec fn order_shown(one: Seq<u8>) -> ByteOrder {
    if one[0] == 1 {
        ByteOrder::Little
    } else {
        ByteOrder::Big
    }
}

/// The bytes of the number one show their order.
pub proof fn law_one_shows_the_order(order: ByteOrder)
    ensures
        order_shown(word_bytes(order, 1)) == order,
{
}

/// The order that the bytes of the number one show.
pub fn order_from_one(one: [u8; 4]) -> (order: ByteOrder)
    ensures
        order == order_shown(one@),
{
    if one[0] == 1 {
        ByteOrder::Little
    } else {
        ByteOrder::Big
    }
}

/// The order in which the machine keeps the bytes of a number. Nothing is stated of it, as it
/// depends on the machine.
pub(crate) fn native_order() -> ByteOrder {
    order_from_one(native_bytes(1))
}

/// Appends the four bytes of a number.
pub fn push_word(bytes: &mut Vec<u8>, order: ByteOrder, x: u32)
    ensures
        final(bytes)@ == old(bytes)@ + word_bytes(order, x),
{
    let b0: u8 = (x % 256) as u8;
    let b1: u8 = (x / 256 % 256) as u8;
    let b2: u8 = (x / 65536 % 256) as u8;
    let b3: u8 = (x / 16777216) as u8;
    match order {
        ByteOrder::Little => {
            bytes.push(b0);
            bytes.push(b1);
            bytes.push(b2);
            bytes.push(b3);
        },
        ByteOrder::Big => {
            bytes.push(b3);
            bytes.push(b2);
            bytes.push(b1);
            bytes.push(b0);
        },
    }
    assert(bytes@ =~= old(bytes)@ + word_bytes(order, x));
}

/// The uniform block of a compute pass: width, height, number of rectangles, padding.
pub open spec fn dimension_block(order: ByteOrder, width: u32, height: u32, rects: nat) -> Seq<u8> {
    word_bytes(order, width) + word_bytes(order, height) + word_bytes(
        order,
        (rects % 0x1_0000_0000) as u32,
    ) + word_bytes(order, 0)
}

/// The uniform block holds width, height and number of rectangles, four bytes each, and four zeros.
pub proof fn law_dimension_block_is_read_in_words(
    order: ByteOrder,
    width: u32,
    height: u32,
    rects: nat,
)
    requires
        rects <= u32::MAX,
    ensures
        ({
            let b = dimension_block(order, width, height, rects);
            &&& b.len() == 16
            &&& b.subrange(0, 4) == word_bytes(order, width)
            &&& b.subrange(4, 8) == word_bytes(order, height)
            &&& b.subrange(8, 12) == word_bytes(order, rects as u32)
            &&& b.subrange(12, 16) == seq![0u8, 0u8, 0u8, 0u8]
        }),
{
    let b = dimension_block(order, width, height, rects);
    assert(b.subrange(0, 4) =~= word_bytes(order, width));
    assert(b.subrange(4, 8) =~= word_bytes(order, height));
    assert(b.subrange(8, 12) =~= word_bytes(order, rects as u32));
    assert(b.subrange(12, 16) =~= seq![0u8, 0u8, 0u8, 0u8]);
}

/// The uniform block of a compute pass.
pub fn dimension_bytes(order: ByteOrder, width: u32, height: u32, rects: usize) -> (bytes: Vec<u8>)
    ensures
        bytes@ == dimension_block(order, width, height, rects as nat),
        bytes.len() == 16,
{
    let mut bytes: Vec<u8> = Vec::new();
    let count: u32 = (rects as u64 % 0x1_0000_0000) as u32;
    push_word(&mut bytes, order, width);
    push_word(&mut bytes, order, height);
    push_word(&mut bytes, order, count);
    push_word(&mut bytes, order, 0);
    assert(bytes@ =~= dimension_block(order, width, height, rects as nat));
    bytes
}

/// The bytes of the first `n` numbers of a rectangle.
pub open spec fn value_bytes(order: ByteOrder, rect: GpuRect, n: nat) -> Seq<u8>
    decreases n,
{
    if n == 0 {
        Seq::empty()
    } else {
        value_bytes(order, rect, (n - 1) as nat) + word_bytes(order, rect.values@[n - 1].bits)
    }
}

/// The bytes of some rectangles, of eight numbers each.
pub open spec fn rect_block(order: ByteOrder, rects: Seq<GpuRect>) -> Seq<u8>
    decreases rects.len(),
{
    if rects.len() == 0 {
        Seq::empty()
    } else {
        rect_block(order, rects.drop_last()) + value_bytes(order, rects.last(), 8)
    }
}

proof fn lemma_value_bytes_len(order: ByteOrder, rect: GpuRect, n: nat)
    ensures
        value_bytes(order, rect, n).len() == 4 * n,
    decreases n,
{
    if n > 0 {
        lemma_value_bytes_len(order, rect, (n - 1) as nat);
    }
}

/// A rectangle takes 32 bytes.
pub proof fn law_rect_block_size(order: ByteOrder, rects: Seq<GpuRect>)
    ensures
        rect_block(order, rects).len() == 32 * rects.len(),
    decreases rects.len(),
{
    if rects.len() > 0 {
        law_rect_block_size(order, rects.drop_last());
        lemma_value_bytes_len(order, rects.last(), 8);
    }
}

proof fn lemma_value_bytes_at(order: ByteOrder, rect: GpuRect, n: nat, k: int)
    requires
        0 <= k < n,
    ensures
        value_bytes(order, rect, n).subrange(4 * k, 4 * k + 4) == word_bytes(
            order,
            rect.values@[k].bits,
        ),
    decreases n,
{
    lemma_value_bytes_len(order, rect, n);
    lemma_value_bytes_len(order, rect, (n - 1) as nat);
    let all = value_bytes(order, rect, n);
    let before = value_bytes(order, rect, (n - 1) as nat);
    if k < n - 1 {
        lemma_value_bytes_at(order, rect, (n - 1) as nat, k);
        assert(all.subrange(4 * k, 4 * k + 4) =~= before.subrange(4 * k, 4 * k + 4));
    } else {
        assert(all.subrange(4 * k, 4 * k + 4) =~= word_bytes(order, rect.values@[k].bits));
    }
}

/// Number `k` of rectangle `r` is read from the four bytes at `32 * r + 4 * k`.
pub proof fn law_rect_block_is_read_in_words(
    order: ByteOrder,
    rects: Seq<GpuRect>,
    r: int,
    k: int,
)
    requires
        0 <= r < rects.len(),
        0 <= k < 8,
    ensures
        rect_block(order, rects).subrange(32 * r + 4 * k, 32 * r + 4 * k + 4) == word_bytes(
            order,
            rects[r].values@[k].bits,
        ),
    decreases rects.len(),
{
    law_rect_block_size(order, rects);
    law_rect_block_size(order, rects.drop_last());
    let all = rect_block(order, rects);
    let before = rect_block(order, rects.drop_last());
    let last = value_bytes(order, rects.last(), 8);
    lemma_value_bytes_len(order, rects.last(), 8);
    let at = 32 * r + 4 * k;
    if r < rects.len() - 1 {
        law_rect_block_is_read_in_words(order, rects.drop_last(), r, k);
        assert(all.subrange(at, at + 4) =~= before.subrange(at, at + 4));
    } else {
        lemma_value_bytes_at(order, rects.last(), 8, k);
        assert(all.subrange(at, at + 4) =~= last.subrange(4 * k, 4 * k + 4));
    }
}

/// The bytes of some rectangles.
pub fn rect_bytes(order: ByteOrder, rects: &Vec<GpuRect>) -> (bytes: Vec<u8>)
    ensures
        bytes@ == rect_block(order, rects@),
{
    let mut bytes: Vec<u8> = Vec::new();
    let mut i: usize = 0;
    while i < rects.len()
        invariant
            i <= rects.len(),
            bytes@ == rect_block(order, rects@.take(i as int)),
        decreases rects.len() - i,
    {
        let rect = rects[i];
        let ghost before = bytes@;
        let mut k: usize = 0;
        assert(before + value_bytes(order, rect, 0) =~= before);
        while k < 8
            invariant
                k <= 8,
                bytes@ == before + value_bytes(order, rect, k as nat),
            decreases 8 - k,
        {
            push_word(&mut bytes, order, rect.values[k].bits);
            k = k + 1;
            assert(bytes@ =~= before + value_bytes(order, rect, k as nat));
        }
        assert(rects@.take(i + 1).drop_last() =~= rects@.take(i as int));
        i = i + 1;
    }
    assert(rects@.take(i as int) =~= rects@);
    bytes
}

} // verus!
