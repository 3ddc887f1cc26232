use crate::building::Building;
use crate::money::Money;
use crate::state::State;
use crate::upgrade::{kind_view, KindView, Upgrade, UpgradeKind};
use vstd::prelude::*;
use vstd::utf8::{char_is_scalar, char_u32_cast};

verus! {

// ---------------------------------------------------------------------------
// Views: the full content of a save state, at the level of character
// sequences and limb sequences, so that exact (field-for-field) round
// tripping can be stated.
// ---------------------------------------------------------------------------
pub struct UpgradeView {
    pub name: Seq<char>,
    pub description: Seq<char>,
    pub cost: Seq<u32>,
    pub level: Seq<u32>,
    pub kind: KindView,
}

pub struct BuildingView {
    pub name: Seq<char>,
    pub shekels_per_second: Seq<u32>,
    pub cost: Seq<u32>,
    pub level: Seq<u32>,
}

pub struct StateView {
    pub shekel_count: Seq<u32>,
    pub taxation_upgrade: UpgradeView,
    pub thievery_upgrade: UpgradeView,
    pub building_types: Seq<BuildingView>,
}

pub open spec fn upgrade_view(u: &Upgrade) -> UpgradeView {
    UpgradeView {
        name: u.name@,
        description: u.description@,
        cost: u.cost.rep(),
        level: u.level.rep(),
        kind: kind_view(&u.kind),
    }
}

pub open spec fn building_view(b: &Building) -> BuildingView {
    BuildingView {
        name: b.name@,
        shekels_per_second: b.shekels_per_second.rep(),
        cost: b.cost.rep(),
        level: b.level.rep(),
    }
}

pub open spec fn state_view(s: &State) -> StateView {
    StateView {
        shekel_count: s.shekel_count.rep(),
        taxation_upgrade: upgrade_view(&s.taxation_upgrade),
        thievery_upgrade: upgrade_view(&s.thievery_upgrade),
        building_types: Seq::new(s.building_types@.len(), |i: int| building_view(&s.building_types@[i])),
    }
}

// ---------------------------------------------------------------------------
// The serialized form: a stream of 64-bit tokens. A limb sequence or a
// character sequence is written as its length followed by one token per
// element; an upgrade kind as a tag token followed by its parameter; the
// state as balance, the two upgrades, then the building count followed by
// the buildings.
// ---------------------------------------------------------------------------
pub open spec fn enc_limbs(rep: Seq<u32>) -> Seq<u64> {
    seq![rep.len() as u64] + rep.map(|i: int, d: u32| d as u64)
}

pub open spec fn enc_chars(s: Seq<char>) -> Seq<u64> {
    seq![s.len() as u64] + s.map(|i: int, c: char| (c as u32) as u64)
}

pub open spec fn enc_kind(k: KindView) -> Seq<u64> {
    match k {
        KindView::Power(base) => seq![0u64] + enc_limbs(base),
        KindView::Multiplier(factor) => seq![1u64] + enc_limbs(factor),
    }
}

pub open spec fn enc_upgrade(u: UpgradeView) -> Seq<u64> {
    enc_chars(u.name) + enc_chars(u.description) + enc_limbs(u.cost) + enc_limbs(u.level)
        + enc_kind(u.kind)
}

pub open spec fn enc_building(b: BuildingView) -> Seq<u64> {
    enc_chars(b.name) + enc_limbs(b.shekels_per_second) + enc_limbs(b.cost) + enc_limbs(b.level)
}

pub open spec fn enc_buildings(bs: Seq<BuildingView>) -> Seq<u64>
    decreases bs.len(),
{
    if bs.len() == 0 {
        Seq::empty()
    } else {
        enc_building(bs[0]) + enc_buildings(bs.skip(1))
    }
}

pub open spec fn enc_state(v: StateView) -> Seq<u64> {
    enc_limbs(v.shekel_count) + enc_upgrade(v.taxation_upgrade) + enc_upgrade(v.thievery_upgrade)
        + seq![v.building_types.len() as u64] + enc_buildings(v.building_types)
}

/// A token that denotes a Unicode scalar value.
pub open spec fn is_char_code(t: u64) -> bool {
    t < 0xD800 || (0xE000 <= t && t <= 0x10FFFF)
}

// ---------------------------------------------------------------------------
// The total decoders, at the specification level. Each takes the stream and
// a position and yields the decoded view and the position after it, or
// nothing when the stream there is not well formed.
// ---------------------------------------------------------------------------
pub open spec fn dec_limbs(s: Seq<u64>, i: int) -> Option<(Seq<u32>, int)> {
    if 0 <= i < s.len() && s[i] <= usize::MAX as u64 && i + 1 + s[i] <= s.len() && (forall|j: int|
        0 <= j < s[i] ==> #[trigger] s[i + 1 + j] <= u32::MAX as u64) {
        Some((Seq::new(s[i] as nat, |j: int| s[i + 1 + j] as u32), i + 1 + s[i] as int))
    } else {
        None
    }
}

pub open spec fn dec_chars(s: Seq<u64>, i: int) -> Option<(Seq<char>, int)> {
    if 0 <= i < s.len() && s[i] <= usize::MAX as u64 && i + 1 + s[i] <= s.len() && (forall|j: int|
        0 <= j < s[i] ==> is_char_code(#[trigger] s[i + 1 + j])) {
        Some(
            (Seq::new(s[i] as nat, |j: int| (s[i + 1 + j] as u32) as char), i + 1 + s[i] as int),
        )
    } else {
        None
    }
}

pub open spec fn dec_kind(s: Seq<u64>, i: int) -> Option<(KindView, int)> {
    if 0 <= i < s.len() && (s[i] == 0 || s[i] == 1) {
        match dec_limbs(s, i + 1) {
            Some((param, j)) => Some(
                (
                    if s[i] == 0 {
                        KindView::Power(param)
                    } else {
                        KindView::Multiplier(param)
                    },
                    j,
                ),
            ),
            None => None,
        }
    } else {
        None
    }
}

pub open spec fn dec_upgrade(s: Seq<u64>, i: int) -> Option<(UpgradeView, int)> {
    match dec_chars(s, i) {
        Some((name, j1)) => match dec_chars(s, j1) {
            Some((description, j2)) => match dec_limbs(s, j2) {
                Some((cost, j3)) => match dec_limbs(s, j3) {
                    Some((level, j4)) => match dec_kind(s, j4) {
                        Some((kind, j5)) => Some(
                            (UpgradeView { name, description, cost, level, kind }, j5),
                        ),
                        None => None,
                    },
                    None => None,
                },
                None => None,
            },
            None => None,
        },
        None => None,
    }
}

pub open spec fn dec_building(s: Seq<u64>, i: int) -> Option<(BuildingView, int)> {
    match dec_chars(s, i) {
        Some((name, j1)) => match dec_limbs(s, j1) {
            Some((shekels_per_second, j2)) => match dec_limbs(s, j2) {
                Some((cost, j3)) => match dec_limbs(s, j3) {
                    Some((level, j4)) => Some(
                        (BuildingView { name, shekels_per_second, cost, level }, j4),
                    ),
                    None => None,
                },
                None => None,
            },
            None => None,
        },
        None => None,
    }
}

pub open spec fn dec_buildings(s: Seq<u64>, i: int, count: nat) -> Option<(Seq<BuildingView>, int)>
    decreases count,
{
    if count == 0 {
        Some((Seq::empty(), i))
    } else {
        match dec_building(s, i) {
            Some((b, j)) => match dec_buildings(s, j, (count - 1) as nat) {
                Some((rest, j2)) => Some((seq![b] + rest, j2)),
                None => None,
            },
            None => None,
        }
    }
}

pub open spec fn dec_state(s: Seq<u64>) -> Option<StateView> {
    match dec_limbs(s, 0) {
        Some((shekel_count, j1)) => match dec_upgrade(s, j1) {
            Some((taxation_upgrade, j2)) => match dec_upgrade(s, j2) {
                Some((thievery_upgrade, j3)) => {
                    if j3 < s.len() && s[j3] <= usize::MAX as u64 {
                        match dec_buildings(s, j3 + 1, s[j3] as nat) {
                            Some((building_types, _j4)) => Some(
                                StateView {
                                    shekel_count,
                                    taxation_upgrade,
                                    thievery_upgrade,
                                    building_types,
                                },
                            ),
                            None => None,
                        }
                    } else {
                        None
                    }
                },
                None => None,
            },
            None => None,
        },
        None => None,
    }
}

// ---------------------------------------------------------------------------
// The machine limits the serialized form imposes: every sequence written
// with a length prefix must have a length that fits in `usize`. Values built
// by executable code always satisfy them.
// ---------------------------------------------------------------------------
pub open spec fn wf_kind_view(k: KindView) -> bool {
    match k {
        KindView::Power(base) => base.len() <= usize::MAX,
        KindView::Multiplier(factor) => factor.len() <= usize::MAX,
    }
}

pub open spec fn wf_upgrade_view(u: UpgradeView) -> bool {
    &&& u.name.len() <= usize::MAX
    &&& u.description.len() <= usize::MAX
    &&& u.cost.len() <= usize::MAX
    &&& u.level.len() <= usize::MAX
    &&& wf_kind_view(u.kind)
}

pub open spec fn wf_building_view(b: BuildingView) -> bool {
    &&& b.name.len() <= usize::MAX
    &&& b.shekels_per_second.len() <= usize::MAX
    &&& b.cost.len() <= usize::MAX
    &&& b.level.len() <= usize::MAX
}

pub open spec fn wf_state_view(v: StateView) -> bool {
    &&& v.shekel_count.len() <= usize::MAX
    &&& wf_upgrade_view(v.taxation_upgrade)
    &&& wf_upgrade_view(v.thievery_upgrade)
    &&& v.building_types.len() <= usize::MAX
    &&& forall|i: int|
        0 <= i < v.building_types.len() ==> wf_building_view(#[trigger] v.building_types[i])
}

// ---------------------------------------------------------------------------
// Decoding inverts encoding, wherever the encoded form stands in the stream.
// ---------------------------------------------------------------------------
pub proof fn lemma_dec_enc_limbs(rep: Seq<u32>, pre: Seq<u64>, suf: Seq<u64>)
    requires
        rep.len() <= usize::MAX,
    ensures
        dec_limbs(pre + enc_limbs(rep) + suf, pre.len() as int) == Some(
            (rep, (pre.len() + enc_limbs(rep).len()) as int),
        ),
{
    let s = pre + enc_limbs(rep) + suf;
    let i = pre.len() as int;
    assert(enc_limbs(rep).len() == 1 + rep.len());
    assert(s[i] == enc_limbs(rep)[0]);
    assert(s[i] == rep.len() as u64);
    assert forall|j: int| 0 <= j < s[i] implies #[trigger] s[i + 1 + j] == rep[j] as u64 by {
        assert(s[i + 1 + j] == enc_limbs(rep)[1 + j]);
        assert(enc_limbs(rep)[1 + j] == rep.map(|x: int, d: u32| d as u64)[j]);
    }
    assert(i + 1 + s[i] <= s.len());
    let decoded = Seq::new(s[i] as nat, |j: int| s[i + 1 + j] as u32);
    assert(decoded =~= rep);
    assert(i + 1 + s[i] as int == pre.len() + enc_limbs(rep).len());
}

pub proof fn lemma_dec_enc_chars(cs: Seq<char>, pre: Seq<u64>, suf: Seq<u64>)
    requires
        cs.len() <= usize::MAX,
    ensures
        dec_chars(pre + enc_chars(cs) + suf, pre.len() as int) == Some(
            (cs, (pre.len() + enc_chars(cs).len()) as int),
        ),
{
    let s = pre + enc_chars(cs) + suf;
    let i = pre.len() as int;
    assert(enc_chars(cs).len() == 1 + cs.len());
    assert(s[i] == enc_chars(cs)[0]);
    assert(s[i] == cs.len() as u64);
    assert forall|j: int| 0 <= j < s[i] implies #[trigger] s[i + 1 + j] == (cs[j] as u32) as u64 by {
        assert(s[i + 1 + j] == enc_chars(cs)[1 + j]);
        assert(enc_chars(cs)[1 + j] == cs.map(|x: int, c: char| (c as u32) as u64)[j]);
    }
    assert forall|j: int| 0 <= j < s[i] implies is_char_code(#[trigger] s[i + 1 + j]) by {
        char_is_scalar(cs[j]);
        assert(vstd::utf8::is_scalar(cs[j] as u32));
        assert(cs[j] as u32 <= 0x10FFFF && !(0xD800 <= cs[j] as u32 <= 0xDFFF));
        assert(s[i + 1 + j] == (cs[j] as u32) as u64);
    }
    assert(i + 1 + s[i] <= s.len());
    let decoded = Seq::new(s[i] as nat, |j: int| (s[i + 1 + j] as u32) as char);
    assert forall|j: int| 0 <= j < cs.len() implies decoded[j] == cs[j] by {
        char_is_scalar(cs[j]);
        char_u32_cast(cs[j], cs[j] as u32);
        assert(s[i + 1 + j] == (cs[j] as u32) as u64);
        assert(((cs[j] as u32) as u64) as u32 == cs[j] as u32);
    }
    assert(decoded =~= cs);
    assert(i + 1 + s[i] as int == pre.len() + enc_chars(cs).len());
}

pub proof fn lemma_dec_enc_kind(k: KindView, pre: Seq<u64>, suf: Seq<u64>)
    requires
        wf_kind_view(k),
    ensures
        dec_kind(pre + enc_kind(k) + suf, pre.len() as int) == Some(
            (k, (pre.len() + enc_kind(k).len()) as int),
        ),
{
    let s = pre + enc_kind(k) + suf;
    let i = pre.len() as int;
    match k {
        KindView::Power(base) => {
            assert(s[i] == enc_kind(k)[0]);
            assert(s[i] == 0u64);
            assert(s =~= (pre + seq![0u64]) + enc_limbs(base) + suf);
            lemma_dec_enc_limbs(base, pre + seq![0u64], suf);
        },
        KindView::Multiplier(factor) => {
            assert(s[i] == enc_kind(k)[0]);
            assert(s[i] == 1u64);
            assert(s =~= (pre + seq![1u64]) + enc_limbs(factor) + suf);
            lemma_dec_enc_limbs(factor, pre + seq![1u64], suf);
        },
    }
}

#[verifier::rlimit(60)]
pub proof fn lemma_dec_enc_upgrade(u: UpgradeView, pre: Seq<u64>, suf: Seq<u64>)
    requires
        wf_upgrade_view(u),
    ensures
        dec_upgrade(pre + enc_upgrade(u) + suf, pre.len() as int) == Some(
            (u, (pre.len() + enc_upgrade(u).len()) as int),
        ),
{
    let e1 = enc_chars(u.name);
    let e2 = enc_chars(u.description);
    let e3 = enc_limbs(u.cost);
    let e4 = enc_limbs(u.level);
    let e5 = enc_kind(u.kind);
    let s = pre + enc_upgrade(u) + suf;
    assert(s =~= pre + e1 + (e2 + e3 + e4 + e5 + suf));
    lemma_dec_enc_chars(u.name, pre, e2 + e3 + e4 + e5 + suf);
    assert(s =~= (pre + e1) + e2 + (e3 + e4 + e5 + suf));
    lemma_dec_enc_chars(u.description, pre + e1, e3 + e4 + e5 + suf);
    assert(s =~= (pre + e1 + e2) + e3 + (e4 + e5 + suf));
    lemma_dec_enc_limbs(u.cost, pre + e1 + e2, e4 + e5 + suf);
    assert(s =~= (pre + e1 + e2 + e3) + e4 + (e5 + suf));
    lemma_dec_enc_limbs(u.level, pre + e1 + e2 + e3, e5 + suf);
    assert(s =~= (pre + e1 + e2 + e3 + e4) + e5 + suf);
    lemma_dec_enc_kind(u.kind, pre + e1 + e2 + e3 + e4, suf);
    assert((pre + e1).len() == pre.len() + e1.len());
    assert((pre + e1 + e2).len() == pre.len() + e1.len() + e2.len());
    assert((pre + e1 + e2 + e3).len() == pre.len() + e1.len() + e2.len() + e3.len());
    assert((pre + e1 + e2 + e3 + e4).len() == pre.len() + e1.len() + e2.len() + e3.len()
        + e4.len());
    assert(enc_upgrade(u).len() == e1.len() + e2.len() + e3.len() + e4.len() + e5.len());
    let rebuilt = UpgradeView {
        name: u.name,
        description: u.description,
        cost: u.cost,
        level: u.level,
        kind: u.kind,
    };
    assert(rebuilt == u);
}

pub proof fn lemma_dec_enc_building(b: BuildingView, pre: Seq<u64>, suf: Seq<u64>)
    requires
        wf_building_view(b),
    ensures
        dec_building(pre + enc_building(b) + suf, pre.len() as int) == Some(
            (b, (pre.len() + enc_building(b).len()) as int),
        ),
{
    let e1 = enc_chars(b.name);
    let e2 = enc_limbs(b.shekels_per_second);
    let e3 = enc_limbs(b.cost);
    let e4 = enc_limbs(b.level);
    let s = pre + enc_building(b) + suf;
    assert(s =~= pre + e1 + (e2 + e3 + e4 + suf));
    lemma_dec_enc_chars(b.name, pre, e2 + e3 + e4 + suf);
    assert(s =~= (pre + e1) + e2 + (e3 + e4 + suf));
    lemma_dec_enc_limbs(b.shekels_per_second, pre + e1, e3 + e4 + suf);
    assert(s =~= (pre + e1 + e2) + e3 + (e4 + suf));
    lemma_dec_enc_limbs(b.cost, pre + e1 + e2, e4 + suf);
    assert(s =~= (pre + e1 + e2 + e3) + e4 + suf);
    lemma_dec_enc_limbs(b.level, pre + e1 + e2 + e3, suf);
    assert((pre + e1).len() == pre.len() + e1.len());
    assert((pre + e1 + e2).len() == pre.len() + e1.len() + e2.len());
    assert((pre + e1 + e2 + e3).len() == pre.len() + e1.len() + e2.len() + e3.len());
    assert(enc_building(b).len() == e1.len() + e2.len() + e3.len() + e4.len());
    let rebuilt = BuildingView {
        name: b.name,
        shekels_per_second: b.shekels_per_second,
        cost: b.cost,
        level: b.level,
    };
    assert(rebuilt == b);
}

pub proof fn lemma_dec_enc_buildings(bs: Seq<BuildingView>, pre: Seq<u64>, suf: Seq<u64>)
    requires
        forall|i: int| 0 <= i < bs.len() ==> wf_building_view(#[trigger] bs[i]),
    ensures
        dec_buildings(pre + enc_buildings(bs) + suf, pre.len() as int, bs.len()) == Some(
            (bs, (pre.len() + enc_buildings(bs).len()) as int),
        ),
    decreases bs.len(),
{
    let s = pre + enc_buildings(bs) + suf;
    if bs.len() == 0 {
        assert(enc_buildings(bs).len() == 0);
        assert(dec_buildings(s, pre.len() as int, 0) == Some(
            (Seq::<BuildingView>::empty(), pre.len() as int),
        ));
        assert(bs =~= Seq::<BuildingView>::empty());
    } else {
        let head = enc_building(bs[0]);
        let tail = enc_buildings(bs.skip(1));
        assert(enc_buildings(bs) == head + tail);
        assert(s =~= pre + head + (tail + suf));
        lemma_dec_enc_building(bs[0], pre, tail + suf);
        assert(s =~= (pre + head) + tail + suf);
        assert(forall|i: int|
            0 <= i < bs.skip(1).len() ==> wf_building_view(#[trigger] bs.skip(1)[i]));
        lemma_dec_enc_buildings(bs.skip(1), pre + head, suf);
        assert((pre + head).len() == pre.len() + head.len());
        assert(seq![bs[0]] + bs.skip(1) =~= bs);
        assert(enc_buildings(bs).len() == head.len() + tail.len());
    }
}

/// Round-trip law: decoding an encoded save state yields it back, field for
/// field.
pub proof fn lemma_dec_enc_state(v: StateView)
    requires
        wf_state_view(v),
    ensures
        dec_state(enc_state(v)) == Some(v),
{
    let em = enc_limbs(v.shekel_count);
    let eu1 = enc_upgrade(v.taxation_upgrade);
    let eu2 = enc_upgrade(v.thievery_upgrade);
    let ecount = seq![v.building_types.len() as u64];
    let ebs = enc_buildings(v.building_types);
    let s = enc_state(v);
    assert(s =~= Seq::<u64>::empty() + em + (eu1 + eu2 + ecount + ebs));
    lemma_dec_enc_limbs(v.shekel_count, Seq::empty(), eu1 + eu2 + ecount + ebs);
    assert(s =~= (Seq::<u64>::empty() + em) + eu1 + (eu2 + ecount + ebs));
    lemma_dec_enc_upgrade(v.taxation_upgrade, Seq::<u64>::empty() + em, eu2 + ecount + ebs);
    assert(s =~= (Seq::<u64>::empty() + em + eu1) + eu2 + (ecount + ebs));
    lemma_dec_enc_upgrade(v.thievery_upgrade, Seq::<u64>::empty() + em + eu1, ecount + ebs);
    let j3 = (Seq::<u64>::empty() + em + eu1).len() + eu2.len();
    assert(s[j3 as int] == v.building_types.len() as u64) by {
        assert(s =~= (Seq::<u64>::empty() + em + eu1 + eu2) + ecount + ebs);
        assert(s[j3 as int] == ecount[0]);
    }
    assert(s =~= (Seq::<u64>::empty() + em + eu1 + eu2 + ecount) + ebs + Seq::<u64>::empty());
    lemma_dec_enc_buildings(
        v.building_types,
        Seq::<u64>::empty() + em + eu1 + eu2 + ecount,
        Seq::empty(),
    );
    let rebuilt = StateView {
        shekel_count: v.shekel_count,
        taxation_upgrade: v.taxation_upgrade,
        thievery_upgrade: v.thievery_upgrade,
        building_types: v.building_types,
    };
    assert(rebuilt == v);
}

// ---------------------------------------------------------------------------
// Executable serialization.
// ---------------------------------------------------------------------------
/// Relies on `str::chars` with `Iterator::collect`: the characters of a
/// string slice, in order.
#[verifier::external_body]
fn str_to_chars(s: &str) -> (r: Vec<char>)
    ensures
        r@ == s@,
{
    s.chars().collect()
}

/// Relies on `Iterator::collect` for `String`: a string made of exactly the
/// given characters, in order.
#[verifier::external_body]
fn chars_to_string(v: &Vec<char>) -> (r: String)
    ensures
        r@ == v@,
{
    v.iter().collect()
}

/// Relies on `char::from_u32`: yields the character with the given code
/// point exactly when the value is a Unicode scalar value, that is, not a
/// surrogate and at most 0x10FFFF.
pub assume_specification[ char::from_u32 ](i: u32) -> (r: Option<char>)
    ensures
        ((i < 0xD800 || (0xE000 <= i && i <= 0x10FFFF)) <==> r is Some),
        (r matches Some(c) ==> c as u32 == i),
;

fn encode_limbs(out: &mut Vec<u64>, m: &Money)
    ensures
        final (out)@ == old(out)@ + enc_limbs(m.rep()),
        m.rep().len() <= usize::MAX,
{
    let ghost e = enc_limbs(m.rep());
    let limbs = m.limbs();
    let n = limbs.len();
    out.push(n as u64);
    proof {
        assert(out@ =~= old(out)@ + e.take(1));
    }
    let mut k: usize = 0;
    while k < n
        invariant
            k <= n,
            n == m.rep().len(),
            limbs@ == m.rep(),
            e == enc_limbs(m.rep()),
            e.len() == 1 + n,
            out@ == old(out)@ + e.take(1 + k as int),
        decreases n - k,
    {
        out.push(limbs[k] as u64);
        k = k + 1;
        proof {
            assert(e[k as int] == m.rep().map(|x: int, d: u32| d as u64)[k - 1]);
            assert(e.take(1 + k as int) =~= e.take(k as int).push(e[k as int]));
        }
    }
    proof {
        assert(e.take(1 + n as int) =~= e);
    }
}

fn encode_chars(out: &mut Vec<u64>, s: &str)
    ensures
        final (out)@ == old(out)@ + enc_chars(s@),
        s@.len() <= usize::MAX,
{
    let ghost e = enc_chars(s@);
    let cs = str_to_chars(s);
    let n = cs.len();
    out.push(n as u64);
    proof {
        assert(out@ =~= old(out)@ + e.take(1));
    }
    let mut k: usize = 0;
    while k < n
        invariant
            k <= n,
            n == s@.len(),
            cs@ == s@,
            e == enc_chars(s@),
            e.len() == 1 + n,
            out@ == old(out)@ + e.take(1 + k as int),
        decreases n - k,
    {
        let c = cs[k];
        out.push((c as u32) as u64);
        k = k + 1;
        proof {
            assert(e[k as int] == s@.map(|x: int, ch: char| (ch as u32) as u64)[k - 1]);
            assert(e.take(1 + k as int) =~= e.take(k as int).push(e[k as int]));
        }
    }
    proof {
        assert(e.take(1 + n as int) =~= e);
    }
}

fn encode_kind(out: &mut Vec<u64>, k: &UpgradeKind)
    ensures
        final (out)@ == old(out)@ + enc_kind(kind_view(k)),
        wf_kind_view(kind_view(k)),
{
    match k {
        UpgradeKind::Power(base) => {
            out.push(0u64);
            encode_limbs(out, base);
            proof {
                assert(out@ =~= old(out)@ + (seq![0u64] + enc_limbs(base.rep())));
            }
        },
        UpgradeKind::Multiplier(factor) => {
            out.push(1u64);
            encode_limbs(out, factor);
            proof {
                assert(out@ =~= old(out)@ + (seq![1u64] + enc_limbs(factor.rep())));
            }
        },
    }
}

fn encode_upgrade(out: &mut Vec<u64>, u: &Upgrade)
    ensures
        final (out)@ == old(out)@ + enc_upgrade(upgrade_view(u)),
        wf_upgrade_view(upgrade_view(u)),
{
    encode_chars(out, u.name.as_str());
    encode_chars(out, u.description.as_str());
    encode_limbs(out, &u.cost);
    encode_limbs(out, &u.level);
    encode_kind(out, &u.kind);
    proof {
        assert(out@ =~= old(out)@ + enc_upgrade(upgrade_view(u)));
    }
}

fn encode_building(out: &mut Vec<u64>, b: &Building)
    ensures
        final (out)@ == old(out)@ + enc_building(building_view(b)),
        wf_building_view(building_view(b)),
{
    encode_chars(out, b.name.as_str());
    encode_limbs(out, &b.shekels_per_second);
    encode_limbs(out, &b.cost);
    encode_limbs(out, &b.level);
    proof {
        assert(out@ =~= old(out)@ + enc_building(building_view(b)));
    }
}

pub proof fn lemma_enc_buildings_snoc(bs: Seq<BuildingView>, b: BuildingView)
    ensures
        enc_buildings(bs.push(b)) == enc_buildings(bs) + enc_building(b),
    decreases bs.len(),
{
    if bs.len() == 0 {
        assert(bs.push(b)[0] == b);
        assert(bs.push(b).skip(1) =~= Seq::<BuildingView>::empty());
        assert(enc_buildings(bs.push(b)) == enc_building(b) + enc_buildings(Seq::empty()));
        assert(enc_building(b) + Seq::<u64>::empty() =~= enc_building(b));
        assert(Seq::<u64>::empty() + enc_building(b) =~= enc_building(b));
    } else {
        assert(bs.push(b)[0] == bs[0]);
        assert(bs.push(b).skip(1) =~= bs.skip(1).push(b));
        lemma_enc_buildings_snoc(bs.skip(1), b);
        assert(enc_building(bs[0]) + (enc_buildings(bs.skip(1)) + enc_building(b)) =~= (
        enc_building(bs[0]) + enc_buildings(bs.skip(1))) + enc_building(b));
    }
}

/// Serializes the whole save state as a stream of 64-bit tokens.
pub fn encode_state(st: &State) -> (r: Vec<u64>)
    ensures
        r@ == enc_state(state_view(st)),
        wf_state_view(state_view(st)),
{
    let ghost sv = state_view(st);
    let mut out: Vec<u64> = Vec::new();
    encode_limbs(&mut out, &st.shekel_count);
    encode_upgrade(&mut out, &st.taxation_upgrade);
    encode_upgrade(&mut out, &st.thievery_upgrade);
    let n = st.building_types.len();
    out.push(n as u64);
    let ghost base = out@;
    proof {
        assert(sv.building_types.len() == n);
        assert(sv.building_types.take(0) =~= Seq::<BuildingView>::empty());
        assert(base + enc_buildings(sv.building_types.take(0)) =~= base);
    }
    let mut k: usize = 0;
    while k < n
        invariant
            k <= n,
            n == st.building_types@.len(),
            sv == state_view(st),
            sv.building_types.len() == n,
            out@ == base + enc_buildings(sv.building_types.take(k as int)),
            forall|i: int| 0 <= i < k ==> wf_building_view(#[trigger] sv.building_types[i]),
        decreases n - k,
    {
        encode_building(&mut out, &st.building_types[k]);
        k = k + 1;
        proof {
            assert(sv.building_types[k - 1] == building_view(&st.building_types@[k - 1]));
            assert(wf_building_view(sv.building_types[k - 1]));
            assert(sv.building_types.take(k as int) =~= sv.building_types.take(k - 1).push(
                sv.building_types[k - 1],
            ));
            lemma_enc_buildings_snoc(sv.building_types.take(k - 1), sv.building_types[k - 1]);
            assert(out@ =~= base + enc_buildings(sv.building_types.take(k as int)));
        }
    }
    proof {
        assert(sv.building_types.take(n as int) =~= sv.building_types);
        assert(out@ =~= enc_state(sv));
        assert forall|i: int| 0 <= i < sv.building_types.len() implies wf_building_view(
            #[trigger] sv.building_types[i],
        ) by {
            assert(sv.building_types[i] == building_view(&st.building_types@[i]));
        }
    }
    out
}

// ---------------------------------------------------------------------------
// Executable deserialization. Each decoder agrees exactly with its
// specification-level counterpart.
// ---------------------------------------------------------------------------
fn decode_limbs(s: &Vec<u64>, start: usize) -> (r: Option<(Money, usize)>)
    ensures
        match r {
            Some((m, j)) => dec_limbs(s@, start as int) == Some((m.rep(), j as int)),
            None => dec_limbs(s@, start as int) is None,
        },
{
    if start >= s.len() {
        return None;
    }
    let len_tok = s[start];
    if len_tok > (usize::MAX as u64) {
        return None;
    }
    let len = len_tok as usize;
    if len > s.len() - start - 1 {
        return None;
    }
    let mut limbs: Vec<u32> = Vec::new();
    let mut k: usize = 0;
    while k < len
        invariant
            k <= len,
            start < s@.len(),
            s@.len() <= usize::MAX,
            len == s@[start as int],
            start + 1 + len <= s@.len(),
            limbs@.len() == k,
            forall|j: int| 0 <= j < k ==> #[trigger] s@[start as int + 1 + j] <= u32::MAX as u64,
            forall|j: int| 0 <= j < k ==> #[trigger] limbs@[j] == s@[start as int + 1 + j] as u32,
        decreases len - k,
    {
        let t = s[start + 1 + k];
        if t > (u32::MAX as u64) {
            proof {
                assert(!(forall|j: int|
                    0 <= j < s@[start as int] ==> #[trigger] s@[start as int + 1 + j]
                        <= u32::MAX as u64)) by {
                    assert(!(s@[start as int + 1 + k as int] <= u32::MAX as u64));
                }
            }
            return None;
        }
        limbs.push(t as u32);
        k = k + 1;
    }
    proof {
        assert(Seq::new(s@[start as int] as nat, |j: int| s@[start as int + 1 + j] as u32)
            =~= limbs@);
    }
    Some((Money::from_limbs(limbs), start + 1 + len))
}

fn decode_chars(s: &Vec<u64>, start: usize) -> (r: Option<(Vec<char>, usize)>)
    ensures
        match r {
            Some((cs, j)) => dec_chars(s@, start as int) == Some((cs@, j as int)),
            None => dec_chars(s@, start as int) is None,
        },
{
    if start >= s.len() {
        return None;
    }
    let len_tok = s[start];
    if len_tok > (usize::MAX as u64) {
        return None;
    }
    let len = len_tok as usize;
    if len > s.len() - start - 1 {
        return None;
    }
    let mut cs: Vec<char> = Vec::new();
    let mut k: usize = 0;
    while k < len
        invariant
            k <= len,
            start < s@.len(),
            s@.len() <= usize::MAX,
            len == s@[start as int],
            start + 1 + len <= s@.len(),
            cs@.len() == k,
            forall|j: int| 0 <= j < k ==> is_char_code(#[trigger] s@[start as int + 1 + j]),
            forall|j: int|
                0 <= j < k ==> #[trigger] cs@[j] == (s@[start as int + 1 + j] as u32) as char,
        decreases len - k,
    {
        let t = s[start + 1 + k];
        if !(t < 0xD800 || (0xE000 <= t && t <= 0x10FFFF)) {
            proof {
                assert(!(forall|j: int|
                    0 <= j < s@[start as int] ==> is_char_code(
                        #[trigger] s@[start as int + 1 + j],
                    ))) by {
                    assert(!is_char_code(s@[start as int + 1 + k as int]));
                }
            }
            return None;
        }
        let c_opt = char::from_u32(t as u32);
        match c_opt {
            Some(c) => {
                cs.push(c);
                proof {
                    char_u32_cast(c, c as u32);
                }
            },
            None => {
                proof {
                    assert(false);
                }
                return None;
            },
        }
        k = k + 1;
    }
    proof {
        assert(Seq::new(s@[start as int] as nat, |j: int| (s@[start as int + 1 + j] as u32) as char)
            =~= cs@);
    }
    Some((cs, start + 1 + len))
}

fn decode_kind(s: &Vec<u64>, start: usize) -> (r: Option<(UpgradeKind, usize)>)
    ensures
        match r {
            Some((k, j)) => dec_kind(s@, start as int) == Some((kind_view(&k), j as int)),
            None => dec_kind(s@, start as int) is None,
        },
{
    if start >= s.len() {
        return None;
    }
    let tag = s[start];
    if tag == 0 {
        match decode_limbs(s, start + 1) {
            Some((param, j)) => Some((UpgradeKind::Power(param), j)),
            None => None,
        }
    } else if tag == 1 {
        match decode_limbs(s, start + 1) {
            Some((param, j)) => Some((UpgradeKind::Multiplier(param), j)),
            None => None,
        }
    } else {
        None
    }
}

fn decode_upgrade(s: &Vec<u64>, start: usize) -> (r: Option<(Upgrade, usize)>)
    ensures
        match r {
            Some((u, j)) => dec_upgrade(s@, start as int) == Some((upgrade_view(&u), j as int)),
            None => dec_upgrade(s@, start as int) is None,
        },
{
    let (name_chars, j1) = match decode_chars(s, start) {
        Some(x) => x,
        None => {
            return None;
        },
    };
    let (description_chars, j2) = match decode_chars(s, j1) {
        Some(x) => x,
        None => {
            return None;
        },
    };
    let (cost, j3) = match decode_limbs(s, j2) {
        Some(x) => x,
        None => {
            return None;
        },
    };
    let (level, j4) = match decode_limbs(s, j3) {
        Some(x) => x,
        None => {
            return None;
        },
    };
    let (kind, j5) = match decode_kind(s, j4) {
        Some(x) => x,
        None => {
            return None;
        },
    };
    let name = chars_to_string(&name_chars);
    let description = chars_to_string(&description_chars);
    Some((Upgrade { name, description, kind, cost, level }, j5))
}

fn decode_building(s: &Vec<u64>, start: usize) -> (r: Option<(Building, usize)>)
    ensures
        match r {
            Some((b, j)) => dec_building(s@, start as int) == Some((building_view(&b), j as int)),
            None => dec_building(s@, start as int) is None,
        },
{
    let (name_chars, j1) = match decode_chars(s, start) {
        Some(x) => x,
        None => {
            return None;
        },
    };
    let (shekels_per_second, j2) = match decode_limbs(s, j1) {
        Some(x) => x,
        None => {
            return None;
        },
    };
    let (cost, j3) = match decode_limbs(s, j2) {
        Some(x) => x,
        None => {
            return None;
        },
    };
    let (level, j4) = match decode_limbs(s, j3) {
        Some(x) => x,
        None => {
            return None;
        },
    };
    let name = chars_to_string(&name_chars);
    Some((Building { name, shekels_per_second, cost, level }, j4))
}

/// The views of a roster of buildings.
pub open spec fn buildings_views(bs: Seq<Building>) -> Seq<BuildingView> {
    Seq::new(bs.len(), |i: int| building_view(&bs[i]))
}

fn decode_buildings(s: &Vec<u64>, start: usize, count: usize) -> (r: Option<(Vec<Building>, usize)>)
    ensures
        match r {
            Some((bs, j)) => dec_buildings(s@, start as int, count as nat) == Some(
                (buildings_views(bs@), j as int),
            ),
            None => dec_buildings(s@, start as int, count as nat) is None,
        },
{
    let mut building_types: Vec<Building> = Vec::new();
    let mut pos = start;
    let mut k: usize = 0;
    proof {
        assert(buildings_views(building_types@) =~= Seq::<BuildingView>::empty());
        assert(Seq::<BuildingView>::empty() + Seq::<BuildingView>::empty()
            =~= Seq::<BuildingView>::empty());
    }
    while k < count
        invariant
            k <= count,
            buildings_views(building_types@).len() == k,
            match dec_buildings(s@, pos as int, (count - k) as nat) {
                Some((rest, jf)) => dec_buildings(s@, start as int, count as nat) == Some(
                    (buildings_views(building_types@) + rest, jf),
                ),
                None => dec_buildings(s@, start as int, count as nat) is None,
            },
        decreases count - k,
    {
        let ghost pre_views = buildings_views(building_types@);
        let ghost pre_pos = pos as int;
        let ghost rem = (count - k) as nat;
        let (b, j) = match decode_building(s, pos) {
            Some(x) => x,
            None => {
                return None;
            },
        };
        building_types.push(b);
        pos = j;
        k = k + 1;
        proof {
            let bv = building_view(&b);
            assert(buildings_views(building_types@) =~= pre_views.push(bv));
            let tail = dec_buildings(s@, pos as int, (rem - 1) as nat);
            assert(dec_buildings(s@, pre_pos, rem) == match tail {
                Some((rest2, jf)) => Some((seq![bv] + rest2, jf)),
                None => None,
            });
            if tail is Some {
                let (rest2, jf) = tail->Some_0;
                assert(pre_views + (seq![bv] + rest2) =~= pre_views.push(bv) + rest2);
            }
        }
    }
    proof {
        assert(dec_buildings(s@, pos as int, 0) == Some(
            (Seq::<BuildingView>::empty(), pos as int),
        ));
        assert(buildings_views(building_types@) + Seq::<BuildingView>::empty() =~= buildings_views(
            building_types@,
        ));
    }
    Some((building_types, pos))
}

/// Deserializes a save state from a stream of 64-bit tokens; yields nothing
/// when the stream is not a well-formed save.
pub fn decode_state(s: &Vec<u64>) -> (r: Option<State>)
    ensures
        match r {
            Some(st) => dec_state(s@) == Some(state_view(&st)),
            None => dec_state(s@) is None,
        },
{
    let (shekel_count, j1) = match decode_limbs(s, 0) {
        Some(x) => x,
        None => {
            return None;
        },
    };
    let (taxation_upgrade, j2) = match decode_upgrade(s, j1) {
        Some(x) => x,
        None => {
            return None;
        },
    };
    let (thievery_upgrade, j3) = match decode_upgrade(s, j2) {
        Some(x) => x,
        None => {
            return None;
        },
    };
    if j3 >= s.len() {
        return None;
    }
    let count_tok = s[j3];
    if count_tok > (usize::MAX as u64) {
        return None;
    }
    let count = count_tok as usize;
    let (building_types, _j4) = match decode_buildings(s, j3 + 1, count) {
        Some(x) => x,
        None => {
            return None;
        },
    };
    let st = State { shekel_count, taxation_upgrade, thievery_upgrade, building_types };
    proof {
        assert(state_view(&st).building_types =~= buildings_views(st.building_types@));
    }
    Some(st)
}

} // verus!
