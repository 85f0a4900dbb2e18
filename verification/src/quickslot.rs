//! The quickslot codec.
//!
//! Exactly ten slots are stored back to back with no separator. Each slot is
//! one tag byte followed by its payload: tag 1 carries a 32-bit little-endian
//! item id, tag 2 a 16-bit little-endian skill id, and any other tag — 0 or a
//! value this schema does not know — is an empty slot with no payload. The
//! unknown-tag policy keeps decoding forward compatible at the cost of not
//! round-tripping an unrecognised nonzero tag.

use vstd::prelude::*;
use vstd::bytes::{spec_u16_to_le_bytes, lemma_auto_spec_u16_to_from_le_bytes, spec_u32_from_le_bytes, lemma_auto_spec_u32_to_from_le_bytes};

use crate::error::CodecError;
use crate::primitive::{dec_u8, dec_u16, dec_i32, enc_i32, u32_of_i32, read_u8, read_u16_le, read_i32_le, write_u8, write_u16_le, write_i32_le};

verus! {

/// One shortcut binding: empty, an item reference, or a skill reference.
#[derive(Clone, Copy, Debug, PartialEq, Eq, Structural)]
pub enum QuickSlot {
    Empty,
    Item(i32),
    Skill(u16),
}

impl QuickSlot {
    /// The tag byte this slot is written with.
    pub open spec fn spec_tag(self) -> u8 {
        match self {
            QuickSlot::Empty => 0,
            QuickSlot::Item(_) => 1,
            QuickSlot::Skill(_) => 2,
        }
    }

    pub fn type_value(&self) -> (r: u8)
        ensures
            r == self.spec_tag(),
    {
        match self {
            QuickSlot::Empty => 0,
            QuickSlot::Item(_) => 1,
            QuickSlot::Skill(_) => 2,
        }
    }
}

/// The on-disk form of one slot: its tag byte, then its payload bytes.
pub open spec fn enc_quickslot(q: QuickSlot) -> Seq<u8> {
    match q {
        QuickSlot::Empty => seq![0u8],
        QuickSlot::Item(id) => seq![1u8] + enc_i32(id),
        QuickSlot::Skill(id) => seq![2u8] + spec_u16_to_le_bytes(id),
    }
}

/// The on-disk form of a run of slots, in index order with no separator.
pub open spec fn enc_quickslots(qs: Seq<QuickSlot>) -> Seq<u8>
    decreases qs.len(),
{
    if qs.len() == 0 {
        Seq::empty()
    } else {
        enc_quickslot(qs[0]) + enc_quickslots(qs.skip(1))
    }
}

/// Total description of decoding one slot at `pos`.
pub open spec fn dec_quickslot(b: Seq<u8>, pos: int) -> Result<(QuickSlot, int), CodecError>
    recommends
        0 <= pos,
{
    match dec_u8(b, pos) {
        Err(e) => Err(e),
        Ok((tag, p)) => if tag == 1 {
            match dec_i32(b, p) {
                Err(e) => Err(e),
                Ok((id, p2)) => Ok((QuickSlot::Item(id), p2)),
            }
        } else if tag == 2 {
            match dec_u16(b, p) {
                Err(e) => Err(e),
                Ok((id, p2)) => Ok((QuickSlot::Skill(id), p2)),
            }
        } else {
            Ok((QuickSlot::Empty, p))
        },
    }
}

/// Total description of decoding `n` consecutive slots at `pos`.
pub open spec fn dec_quickslots(b: Seq<u8>, pos: int, n: nat) -> Result<(Seq<QuickSlot>, int), CodecError>
    recommends
        0 <= pos,
    decreases n,
{
    if n == 0 {
        Ok((Seq::empty(), pos))
    } else {
        match dec_quickslot(b, pos) {
            Err(e) => Err(e),
            Ok((q, p)) => match dec_quickslots(b, p, (n - 1) as nat) {
                Err(e) => Err(e),
                Ok((qs, p2)) => Ok((seq![q] + qs, p2)),
            },
        }
    }
}

/// A decoded slot never runs backwards, and an `Empty` result consumes
/// exactly the tag byte. Any tag outside {1, 2} — 0, or an unknown value
/// such as 7 — decodes to `Empty` with no payload consumed.
pub proof fn lemma_unknown_tag_empty(b: Seq<u8>, pos: int)
    requires
        0 <= pos < b.len(),
        b[pos] != 1,
        b[pos] != 2,
    ensures
        dec_quickslot(b, pos) == Ok::<_, CodecError>((QuickSlot::Empty, pos + 1)),
{
}

/// Decoding one slot reads back exactly what encoding wrote.
pub proof fn lemma_quickslot_enc_dec(b: Seq<u8>, pos: int, q: QuickSlot)
    requires
        0 <= pos,
        pos + enc_quickslot(q).len() <= b.len(),
        b.subrange(pos, pos + enc_quickslot(q).len()) == enc_quickslot(q),
    ensures
        dec_quickslot(b, pos) == Ok::<_, CodecError>((q, pos + enc_quickslot(q).len())),
{
    lemma_auto_spec_u16_to_from_le_bytes();
    lemma_auto_spec_u32_to_from_le_bytes();
    let e = enc_quickslot(q);
    let w = e.len();
    assert(b[pos] == b.subrange(pos, pos + w)[0]);
    match q {
        QuickSlot::Empty => {
        },
        QuickSlot::Item(id) => {
            assert(b[pos] == 1);
            assert(b.subrange(pos + 1, pos + 5) =~= enc_i32(id)) by {
                assert forall|k: int| 0 <= k < 4 implies b[pos + 1 + k] == enc_i32(id)[k] by {
                    assert(b[pos + 1 + k] == b.subrange(pos, pos + w)[1 + k]);
                    assert(e[1 + k] == enc_i32(id)[k]);
                }
            }
            assert(spec_u32_from_le_bytes(enc_i32(id)) == u32_of_i32(id));
            crate::primitive::lemma_i32_u32_round(id, 0);
        },
        QuickSlot::Skill(id) => {
            assert(b[pos] == 2);
            assert(b.subrange(pos + 1, pos + 3) =~= spec_u16_to_le_bytes(id)) by {
                assert forall|k: int| 0 <= k < 2 implies b[pos + 1 + k] == spec_u16_to_le_bytes(
                    id,
                )[k] by {
                    assert(b[pos + 1 + k] == b.subrange(pos, pos + w)[1 + k]);
                    assert(e[1 + k] == spec_u16_to_le_bytes(id)[k]);
                }
            }
        },
    }
}

/// Tag bijection: a slot's encoding — `[0]` for `Empty`, `[1]` plus the
/// little-endian 32-bit id for `Item`, `[2]` plus the little-endian 16-bit
/// id for `Skill` — decodes back to the very same slot, for every
/// representable id and whatever bytes follow.
pub proof fn lemma_quickslot_bijection(q: QuickSlot, rest: Seq<u8>)
    ensures
        dec_quickslot(enc_quickslot(q) + rest, 0) == Ok::<_, CodecError>(
            (q, enc_quickslot(q).len() as int),
        ),
{
    let b = enc_quickslot(q) + rest;
    assert(b.subrange(0, enc_quickslot(q).len() as int) =~= enc_quickslot(q));
    lemma_quickslot_enc_dec(b, 0, q);
}

/// A slot decoded from a canonical tag byte re-encodes to the bytes it was
/// read from. (A nonzero unknown tag is the one thing the codec cannot
/// round-trip; it is excluded here.)
pub proof fn lemma_quickslot_dec_enc(b: Seq<u8>, pos: int, q: QuickSlot, n: int)
    requires
        0 <= pos,
        dec_quickslot(b, pos) == Ok::<_, CodecError>((q, n)),
        b[pos] <= 2,
    ensures
        n == pos + enc_quickslot(q).len(),
        enc_quickslot(q) == b.subrange(pos, n),
        q.spec_tag() == b[pos],
        1 <= enc_quickslot(q).len() <= 5,
{
    lemma_auto_spec_u16_to_from_le_bytes();
    lemma_auto_spec_u32_to_from_le_bytes();
    let tag = b[pos];
    if tag == 1 {
        let u = spec_u32_from_le_bytes(b.subrange(pos + 1, pos + 5));
        crate::primitive::lemma_i32_u32_round(0, u);
        assert(enc_quickslot(q) =~= b.subrange(pos, n));
    } else if tag == 2 {
        assert(enc_quickslot(q) =~= b.subrange(pos, n));
    } else {
        assert(enc_quickslot(q) =~= b.subrange(pos, n));
    }
}

/// Appending one slot to a run appends its encoding.
pub proof fn lemma_enc_quickslots_push(s: Seq<QuickSlot>, q: QuickSlot)
    ensures
        enc_quickslots(s.push(q)) == enc_quickslots(s) + enc_quickslot(q),
    decreases s.len(),
{
    if s.len() == 0 {
        let t = s.push(q);
        assert(t[0] == q);
        assert(t.skip(1) =~= Seq::<QuickSlot>::empty());
        assert(enc_quickslots(Seq::<QuickSlot>::empty()) == Seq::<u8>::empty());
        assert(enc_quickslots(t) == enc_quickslot(q) + Seq::<u8>::empty());
        assert(s =~= Seq::<QuickSlot>::empty());
        assert(enc_quickslots(s.push(q)) =~= enc_quickslots(s) + enc_quickslot(q));
    } else {
        let t = s.push(q);
        assert(t[0] == s[0]);
        assert(t.skip(1) =~= s.skip(1).push(q));
        lemma_enc_quickslots_push(s.skip(1), q);
        assert(enc_quickslots(t) == enc_quickslot(t[0]) + enc_quickslots(t.skip(1)));
        assert(enc_quickslots(s) == enc_quickslot(s[0]) + enc_quickslots(s.skip(1)));
        assert(enc_quickslots(s.push(q)) =~= enc_quickslots(s) + enc_quickslot(q));
    }
}

/// Decoding a run of slots reads back exactly what encoding wrote; the
/// tag bytes encoding writes are always canonical.
pub proof fn lemma_quickslots_enc_dec(b: Seq<u8>, pos: int, qs: Seq<QuickSlot>)
    requires
        0 <= pos,
        pos + enc_quickslots(qs).len() <= b.len(),
        b.subrange(pos, pos + enc_quickslots(qs).len()) == enc_quickslots(qs),
    ensures
        dec_quickslots(b, pos, qs.len()) == Ok::<_, CodecError>(
            (qs, pos + enc_quickslots(qs).len()),
        ),
        quickslots_canonical(b, pos, qs.len()),
    decreases qs.len(),
{
    let full = enc_quickslots(qs);
    let len = full.len();
    if qs.len() == 0 {
        assert(qs =~= Seq::<QuickSlot>::empty());
    } else {
        let e = enc_quickslot(qs[0]);
        let w = e.len() as int;
        let rest = enc_quickslots(qs.skip(1));
        assert(full == e + rest);
        assert(b.subrange(pos, pos + w) =~= e) by {
            assert forall|k: int| 0 <= k < w implies b[pos + k] == e[k] by {
                assert(b[pos + k] == b.subrange(pos, pos + len)[k]);
                assert(full[k] == e[k]);
            }
        }
        lemma_quickslot_enc_dec(b, pos, qs[0]);
        assert(b.subrange(pos + w, pos + len) =~= rest) by {
            assert forall|k: int| 0 <= k < rest.len() implies b[pos + w + k] == rest[k] by {
                assert(b[pos + w + k] == b.subrange(pos, pos + len)[w + k]);
                assert(full[w + k] == rest[k]);
            }
        }
        lemma_quickslots_enc_dec(b, pos + w, qs.skip(1));
        assert(seq![qs[0]] + qs.skip(1) =~= qs);
        assert(b[pos] == e[0]);
        assert(e[0] == qs[0].spec_tag());
        assert(b[pos] <= 2);
    }
}

/// The slot tags under a successful decode of `n` slots at `pos` are all
/// canonical, i.e. in {0, 1, 2}.
pub open spec fn quickslots_canonical(b: Seq<u8>, pos: int, n: nat) -> bool
    recommends
        0 <= pos,
    decreases n,
{
    if n == 0 {
        true
    } else {
        match dec_quickslot(b, pos) {
            Err(e) => true,
            Ok((q, p)) => b[pos] <= 2 && quickslots_canonical(b, p, (n - 1) as nat),
        }
    }
}

/// A run of slots decoded from canonical tag bytes re-encodes to the bytes
/// it was read from.
pub proof fn lemma_quickslots_dec_enc(b: Seq<u8>, pos: int, n: nat, qs: Seq<QuickSlot>, end: int)
    requires
        0 <= pos <= b.len(),
        dec_quickslots(b, pos, n) == Ok::<_, CodecError>((qs, end)),
        quickslots_canonical(b, pos, n),
    ensures
        qs.len() == n,
        pos <= end <= b.len(),
        enc_quickslots(qs) == b.subrange(pos, end),
    decreases n,
{
    if n == 0 {
        assert(b.subrange(pos, pos) =~= Seq::<u8>::empty());
    } else {
        let (q, p) = dec_quickslot(b, pos)->Ok_0;
        lemma_quickslot_dec_enc(b, pos, q, p);
        let (qs1, end1) = dec_quickslots(b, p, (n - 1) as nat)->Ok_0;
        lemma_quickslots_dec_enc(b, p, (n - 1) as nat, qs1, end1);
        assert(qs == seq![q] + qs1);
        assert(qs[0] == q);
        assert(qs.skip(1) =~= qs1);
        assert(enc_quickslots(qs) == enc_quickslot(q) + enc_quickslots(qs1));
        assert(enc_quickslots(qs) =~= b.subrange(pos, end));
    }
}

/// Cutting the input anywhere inside an encoded run of slots makes decoding
/// that run fail with `TruncatedInput`.
pub proof fn lemma_quickslots_truncated(b: Seq<u8>, pos: int, qs: Seq<QuickSlot>)
    requires
        0 <= pos <= b.len(),
        b.len() - pos < enc_quickslots(qs).len(),
        b.subrange(pos, b.len() as int) == enc_quickslots(qs).subrange(0, b.len() - pos),
    ensures
        dec_quickslots(b, pos, qs.len()) == Err::<(Seq<QuickSlot>, int), _>(
            CodecError::TruncatedInput,
        ),
    decreases qs.len(),
{
    lemma_auto_spec_u16_to_from_le_bytes();
    lemma_auto_spec_u32_to_from_le_bytes();
    let avail = b.len() - pos;
    let full = enc_quickslots(qs);
    assert(qs.len() > 0);
    let e = enc_quickslot(qs[0]);
    let w = e.len() as int;
    let rest = enc_quickslots(qs.skip(1));
    assert(full == e + rest);
    assert(1 <= w <= 5);
    assert forall|k: int| 0 <= k < avail implies b[pos + k] == #[trigger] full[k] by {
        assert(b[pos + k] == b.subrange(pos, b.len() as int)[k]);
        assert(b.subrange(pos, b.len() as int)[k] == enc_quickslots(qs).subrange(0, avail)[k]);
        assert(enc_quickslots(qs).subrange(0, avail)[k] == full[k]);
    }
    if avail < w {
        if avail == 0 {
        } else {
            assert(b[pos] == full[0]);
            assert(full[0] == e[0]);
            assert(e[0] == qs[0].spec_tag());
            match qs[0] {
                QuickSlot::Empty => {
                    assert(false);
                },
                QuickSlot::Item(id) => {
                    assert(b[pos] == 1);
                    assert(pos + 1 + 4 > b.len());
                },
                QuickSlot::Skill(id) => {
                    assert(b[pos] == 2);
                    assert(pos + 1 + 2 > b.len());
                },
            }
        }
    } else {
        assert(b.subrange(pos, pos + w) =~= e) by {
            assert(forall|k: int| 0 <= k < w ==> b[pos + k] == #[trigger] full[k]);
            assert(forall|k: int| 0 <= k < w ==> #[trigger] full[k] == e[k]);
        }
        lemma_quickslot_enc_dec(b, pos, qs[0]);
        assert(b.subrange(pos + w, b.len() as int) =~= rest.subrange(0, avail - w)) by {
            assert forall|k: int|
                0 <= k < avail - w implies #[trigger] b.subrange(pos + w, b.len() as int)[k]
                == rest.subrange(0, avail - w)[k] by {
                assert(b[pos + w + k] == full[w + k]);
                assert(full[w + k] == rest[k]);
            }
        }
        lemma_quickslots_truncated(b, pos + w, qs.skip(1));
    }
}

pub fn read_quickslot(data: &[u8], pos: usize) -> (r: Result<(QuickSlot, usize), CodecError>)
    ensures
        crate::primitive::res_matches(dec_quickslot(data@, pos as int), r),
{
    let (tag, p) = match read_u8(data, pos) {
        Ok(v) => v,
        Err(e) => {
            return Err(e);
        },
    };
    if tag == 1 {
        match read_i32_le(data, p) {
            Ok((id, p2)) => Ok((QuickSlot::Item(id), p2)),
            Err(e) => Err(e),
        }
    } else if tag == 2 {
        match read_u16_le(data, p) {
            Ok((id, p2)) => Ok((QuickSlot::Skill(id), p2)),
            Err(e) => Err(e),
        }
    } else {
        Ok((QuickSlot::Empty, p))
    }
}

/// Reads the fixed run of ten slots.
pub fn read_quickslots(data: &[u8], pos: usize) -> (r: Result<(Vec<QuickSlot>, usize), CodecError>)
    ensures
        match dec_quickslots(data@, pos as int, 10) {
            Ok((qs, n)) => r matches Ok((v, rn)) && v@ == qs && rn as int == n,
            Err(e) => r matches Err(e2) && e2 == e,
        },
{
    let mut slots: Vec<QuickSlot> = Vec::new();
    let mut cur: usize = pos;
    let mut i: usize = 0;
    while i < 10
        invariant
            i <= 10,
            slots@.len() == i,
            match dec_quickslots(data@, cur as int, (10 - i) as nat) {
                Ok((qs, n)) => dec_quickslots(data@, pos as int, 10) == Ok::<_, CodecError>(
                    (slots@ + qs, n),
                ),
                Err(e) => dec_quickslots(data@, pos as int, 10) == Err::<
                    (Seq<QuickSlot>, int),
                    _,
                >(e),
            },
        decreases 10 - i,
    {
        let ghost m = (10 - i) as nat;
        match read_quickslot(data, cur) {
            Ok((q, p)) => {
                proof {
                    let (qspec, pspec) = dec_quickslot(data@, cur as int)->Ok_0;
                    match dec_quickslots(data@, pspec, (m - 1) as nat) {
                        Ok((qs1, n1)) => {
                            assert(dec_quickslots(data@, cur as int, m) == Ok::<_, CodecError>(
                                (seq![qspec] + qs1, n1),
                            ));
                            assert(slots@ + (seq![qspec] + qs1) =~= (slots@ + seq![qspec]) + qs1);
                            assert(slots@.push(qspec) =~= slots@ + seq![qspec]);
                        },
                        Err(e1) => {
                            assert(dec_quickslots(data@, cur as int, m) == Err::<
                                (Seq<QuickSlot>, int),
                                _,
                            >(e1));
                        },
                    }
                }
                slots.push(q);
                cur = p;
            },
            Err(e) => {
                proof {
                    assert(dec_quickslots(data@, cur as int, m) == Err::<
                        (Seq<QuickSlot>, int),
                        _,
                    >(e));
                }
                return Err(e);
            },
        }
        i = i + 1;
    }
    proof {
        assert(slots@ + Seq::<QuickSlot>::empty() =~= slots@);
    }
    Ok((slots, cur))
}

pub fn write_quickslot(out: &mut Vec<u8>, q: &QuickSlot)
    ensures
        final(out)@ == old(out)@ + enc_quickslot(*q),
{
    match q {
        QuickSlot::Empty => {
            write_u8(out, 0);
            assert(out@ =~= old(out)@ + enc_quickslot(*q));
        },
        QuickSlot::Item(id) => {
            write_u8(out, 1);
            write_i32_le(out, *id);
            assert(out@ =~= old(out)@ + enc_quickslot(*q));
        },
        QuickSlot::Skill(id) => {
            write_u8(out, 2);
            write_u16_le(out, *id);
            assert(out@ =~= old(out)@ + enc_quickslot(*q));
        },
    }
}

/// Writes every slot of the run, in index order.
pub fn write_quickslots(out: &mut Vec<u8>, qs: &Vec<QuickSlot>)
    ensures
        final(out)@ == old(out)@ + enc_quickslots(qs@),
{
    proof {
        assert(qs@.subrange(0, 0) =~= Seq::<QuickSlot>::empty());
        assert(old(out)@ + enc_quickslots(qs@.subrange(0, 0)) =~= old(out)@);
    }
    let n = qs.len();
    let mut i: usize = 0;
    while i < n
        invariant
            i <= n,
            n == qs@.len(),
            out@ == old(out)@ + enc_quickslots(qs@.subrange(0, i as int)),
        decreases n - i,
    {
        write_quickslot(out, &qs[i]);
        proof {
            assert(qs@.subrange(0, i + 1) =~= qs@.subrange(0, i as int).push(qs@[i as int]));
            lemma_enc_quickslots_push(qs@.subrange(0, i as int), qs@[i as int]);
            assert(old(out)@ + enc_quickslots(qs@.subrange(0, i + 1)) =~= (old(out)@
                + enc_quickslots(qs@.subrange(0, i as int))) + enc_quickslot(qs@[i as int]));
        }
        i = i + 1;
    }
    proof {
        assert(qs@.subrange(0, n as int) =~= qs@);
    }
}

} // verus!
