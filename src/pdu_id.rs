//! Storage keys (`pdu_id`s) of a room's events.
//!
//! A key is `room_id || 0xFF || count as 8 big-endian bytes`. An event
//! inserted after an older one reuses that one's count and adds a run of
//! `0x01` bytes, one longer for each further insertion after the same count.
//! Byte-wise lexicographic order of the keys of one room is the order in
//! which its events are read.

use vstd::prelude::*;
use vstd::string::*;

verus! {

/// Byte that separates the room id from the count.
pub const ROOM_SEPARATOR: u8 = 0xff;

/// Byte appended to the key of an event placed after an older event.
pub const INSERT_MARKER: u8 = 1;

/// 256 raised to `k`.
pub open spec fn pow256(k: nat) -> nat
    decreases k,
{
    if k == 0 {
        1
    } else {
        256 * pow256((k - 1) as nat)
    }
}

/// The `len` lowest base-256 digits of `n`, most significant first.
pub open spec fn be_digits(n: nat, len: nat) -> Seq<u8>
    decreases len,
{
    if len == 0 {
        Seq::empty()
    } else {
        be_digits(n / 256, (len - 1) as nat).push((n % 256) as u8)
    }
}

/// A count as eight big-endian bytes.
pub open spec fn count_bytes(count: u64) -> Seq<u8> {
    be_digits(count as nat, 8)
}

/// Key of an event appended with a fresh count.
pub open spec fn append_key(room: Seq<u8>, count: u64) -> Seq<u8> {
    room.push(ROOM_SEPARATOR) + count_bytes(count)
}

/// `n` insertion markers.
pub open spec fn markers(n: nat) -> Seq<u8> {
    Seq::new(n, |_i: int| INSERT_MARKER)
}

/// Key of an event inserted after the event that holds `old_count`, when
/// `prior` events were inserted after that count before it.
pub open spec fn insert_key(room: Seq<u8>, old_count: u64, prior: nat) -> Seq<u8> {
    append_key(room, old_count) + markers(prior + 1)
}

/// Strict lexicographic order on byte strings.
pub open spec fn lex_lt(a: Seq<u8>, b: Seq<u8>) -> bool
    decreases a.len(),
{
    if a.len() == 0 {
        b.len() > 0
    } else if b.len() == 0 {
        false
    } else if a[0] != b[0] {
        a[0] < b[0]
    } else {
        lex_lt(a.drop_first(), b.drop_first())
    }
}

fn push_be_digits(out: &mut Vec<u8>, n: u64, len: usize)
    ensures
        final(out)@ == old(out)@ + be_digits(n as nat, len as nat),
    decreases len,
{
    if len == 0 {
        assert(old(out)@ + be_digits(n as nat, 0) =~= old(out)@);
    } else {
        let ghost before = out@;
        push_be_digits(out, n / 256, len - 1);
        out.push((n % 256) as u8);
        assert(out@ =~= before + be_digits(n as nat, len as nat));
    }
}

/// Key of an event appended to the room with the fresh count `count`.
pub fn append_pdu_id(room_id: &str, count: u64) -> (r: Vec<u8>)
    ensures
        r@ == append_key(room_id.spec_bytes(), count),
{
    let mut key = room_id.as_bytes_vec();
    key.push(ROOM_SEPARATOR);
    push_be_digits(&mut key, count, 8);
    key
}

/// Key of an event placed after the event that holds `old_count` and after
/// the `prior` events already inserted there, before the event that holds
/// the next count.
pub fn insert_pdu_id(room_id: &str, old_count: u64, prior: usize) -> (r: Vec<u8>)
    ensures
        r@ == insert_key(room_id.spec_bytes(), old_count, prior as nat),
{
    let mut key = append_pdu_id(room_id, old_count);
    let ghost base = key@;
    let mut i: usize = 0;
    while i < prior
        invariant
            i <= prior,
            key@ == base + markers(i as nat),
        decreases prior - i,
    {
        key.push(INSERT_MARKER);
        assert(base + markers((i + 1) as nat) =~= (base + markers(i as nat)).push(INSERT_MARKER));
        i += 1;
    }
    key.push(INSERT_MARKER);
    assert(base + markers((prior + 1) as nat) =~= (base + markers(prior as nat)).push(INSERT_MARKER));
    key
}

proof fn lemma_pow256_8()
    ensures
        pow256(8) == 0x1_0000_0000_0000_0000,
{
    reveal_with_fuel(pow256, 9);
}

/// A common prefix does not change the order.
proof fn lemma_lex_common_prefix(p: Seq<u8>, a: Seq<u8>, b: Seq<u8>)
    ensures
        lex_lt(p + a, p + b) == lex_lt(a, b),
    decreases p.len(),
{
    if p.len() == 0 {
        assert(p + a =~= a);
        assert(p + b =~= b);
    } else {
        assert((p + a).drop_first() =~= p.drop_first() + a);
        assert((p + b).drop_first() =~= p.drop_first() + b);
        lemma_lex_common_prefix(p.drop_first(), a, b);
    }
}

/// Comparing two strings of equal length, each with one byte more.
proof fn lemma_lex_push(a: Seq<u8>, b: Seq<u8>, x: u8, y: u8)
    requires
        a.len() == b.len(),
    ensures
        lex_lt(a.push(x), b.push(y)) == (lex_lt(a, b) || (a == b && x < y)),
    decreases a.len(),
{
    if a.len() == 0 {
        assert(a =~= b);
        assert(a.push(x).drop_first() =~= Seq::<u8>::empty());
        assert(b.push(y).drop_first() =~= Seq::<u8>::empty());
        assert(!lex_lt(Seq::<u8>::empty(), Seq::<u8>::empty()));
        assert(!lex_lt(a, b));
    } else {
        assert(a.push(x).drop_first() =~= a.drop_first().push(x));
        assert(b.push(y).drop_first() =~= b.drop_first().push(y));
        lemma_lex_push(a.drop_first(), b.drop_first(), x, y);
        if a[0] == b[0] {
            if a.drop_first() == b.drop_first() {
                assert(a =~= b) by {
                    assert forall|i: int| 0 <= i < a.len() implies a[i] == b[i] by {
                        if i > 0 {
                            assert(a[i] == a.drop_first()[i - 1]);
                            assert(b[i] == b.drop_first()[i - 1]);
                        }
                    }
                }
            }
        } else {
            assert(a != b);
        }
    }
}

/// Between strings of equal length, the order survives any extension.
proof fn lemma_lex_extend(a: Seq<u8>, b: Seq<u8>, s: Seq<u8>, t: Seq<u8>)
    requires
        a.len() == b.len(),
        lex_lt(a, b),
    ensures
        lex_lt(a + s, b + t),
    decreases a.len(),
{
    assert((a + s)[0] == a[0]);
    assert((b + t)[0] == b[0]);
    if a[0] == b[0] {
        assert((a + s).drop_first() =~= a.drop_first() + s);
        assert((b + t).drop_first() =~= b.drop_first() + t);
        lemma_lex_extend(a.drop_first(), b.drop_first(), s, t);
    }
}

proof fn lemma_be_digits_len(n: nat, len: nat)
    ensures
        be_digits(n, len).len() == len,
    decreases len,
{
    if len > 0 {
        lemma_be_digits_len(n / 256, (len - 1) as nat);
    }
}

/// Big-endian digits of equal length order as the numbers do.
proof fn lemma_be_digits_order(x: nat, y: nat, len: nat)
    requires
        x < pow256(len),
        y < pow256(len),
    ensures
        lex_lt(be_digits(x, len), be_digits(y, len)) == (x < y),
        (be_digits(x, len) == be_digits(y, len)) == (x == y),
    decreases len,
{
    if len == 0 {
        assert(x == 0 && y == 0);
    } else {
        let p = pow256((len - 1) as nat);
        let (qx, rx) = (x / 256, x % 256);
        let (qy, ry) = (y / 256, y % 256);
        assert(qx < p) by (nonlinear_arith)
            requires
                x < 256 * p,
                qx == x / 256,
        ;
        assert(qy < p) by (nonlinear_arith)
            requires
                y < 256 * p,
                qy == y / 256,
        ;
        lemma_be_digits_order(qx, qy, (len - 1) as nat);
        lemma_be_digits_len(qx, (len - 1) as nat);
        lemma_be_digits_len(qy, (len - 1) as nat);
        let dx = be_digits(qx, (len - 1) as nat);
        let dy = be_digits(qy, (len - 1) as nat);
        lemma_lex_push(dx, dy, rx as u8, ry as u8);
        assert(x == 256 * qx + rx && y == 256 * qy + ry);
        assert((rx as u8) == rx && (ry as u8) == ry);
        if dx.push(rx as u8) == dy.push(ry as u8) {
            assert(dx =~= dy) by {
                assert forall|i: int| 0 <= i < dx.len() implies dx[i] == dy[i] by {
                    assert(dx[i] == dx.push(rx as u8)[i]);
                    assert(dy[i] == dy.push(ry as u8)[i]);
                }
            }
            assert(dx.push(rx as u8)[dx.len() as int] == rx);
            assert(dy.push(ry as u8)[dy.len() as int] == ry);
        }
    }
}

/// Keys appended to one room are ordered as their counts.
pub proof fn lemma_append_keys_ordered(room: Seq<u8>, c1: u64, c2: u64)
    ensures
        lex_lt(append_key(room, c1), append_key(room, c2)) == (c1 < c2),
{
    lemma_pow256_8();
    lemma_be_digits_order(c1 as nat, c2 as nat, 8);
    lemma_lex_common_prefix(room.push(ROOM_SEPARATOR), count_bytes(c1), count_bytes(c2));
}

/// An inserted key lies strictly after the key of the count it was placed
/// after, and strictly before the key of the next count.
pub proof fn lemma_insert_key_between(room: Seq<u8>, old_count: u64, prior: nat)
    requires
        old_count < u64::MAX,
    ensures
        lex_lt(append_key(room, old_count), insert_key(room, old_count, prior)),
        lex_lt(insert_key(room, old_count, prior), append_key(room, (old_count + 1) as u64)),
{
    let a = append_key(room, old_count);
    let tail = markers(prior + 1);
    assert(a + Seq::<u8>::empty() =~= a);
    lemma_lex_common_prefix(a, Seq::<u8>::empty(), tail);
    let p = room.push(ROOM_SEPARATOR);
    let next = (old_count + 1) as u64;
    lemma_pow256_8();
    lemma_be_digits_order(old_count as nat, next as nat, 8);
    lemma_be_digits_len(old_count as nat, 8);
    lemma_be_digits_len(next as nat, 8);
    lemma_lex_extend(count_bytes(old_count), count_bytes(next), tail, Seq::<u8>::empty());
    assert(count_bytes(next) + Seq::<u8>::empty() =~= count_bytes(next));
    assert(insert_key(room, old_count, prior) =~= p + (count_bytes(old_count) + tail));
    lemma_lex_common_prefix(p, count_bytes(old_count) + tail, count_bytes(next));
}

/// Insertions after the same count never share a key: a later insertion
/// (more `prior` insertions) gets a strictly greater key.
pub proof fn lemma_insert_keys_distinct(room: Seq<u8>, old_count: u64, prior1: nat, prior2: nat)
    requires
        prior1 < prior2,
    ensures
        insert_key(room, old_count, prior1) != insert_key(room, old_count, prior2),
        lex_lt(insert_key(room, old_count, prior1), insert_key(room, old_count, prior2)),
{
    let k1 = insert_key(room, old_count, prior1);
    let rest = markers((prior2 - prior1) as nat);
    assert(insert_key(room, old_count, prior2) =~= k1 + rest);
    assert(k1 + Seq::<u8>::empty() =~= k1);
    lemma_lex_common_prefix(k1, Seq::<u8>::empty(), rest);
    assert(k1.len() < (k1 + rest).len());
}

} // verus!
