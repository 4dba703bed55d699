//! Hotkey strings as their parts: when a string is accepted, and why the
//! order of its parts and repeated modifiers do not matter.
use crate::hotkey::keys::{fold_parts, hotkey_parts, key_for_upper, modifier_flag, parse_hotkey_spec, Key};
use crate::text::{lower_text, trim, upper_text};
use vstd::prelude::*;

verus! {

/// The modifier flag a part names, if it names one.
pub open spec fn part_flag(p: Seq<char>) -> Option<u16> {
    modifier_flag(lower_text(p))
}

/// A part that names a key (and no modifier).
pub open spec fn is_key_part(p: Seq<char>) -> bool {
    part_flag(p) is None && key_for_upper(upper_text(p)) is Some
}

/// Every part names a modifier or a key.
pub open spec fn parts_recognised(ps: Seq<Seq<char>>) -> bool {
    forall|i: int| 0 <= i < ps.len() ==> (part_flag(#[trigger] ps[i]) is Some || key_for_upper(
        upper_text(ps[i]),
    ) is Some)
}

/// How many parts name a key.
pub open spec fn key_count(ps: Seq<Seq<char>>) -> nat
    decreases ps.len(),
{
    if ps.len() == 0 {
        0
    } else {
        (if is_key_part(ps[0]) {
            1nat
        } else {
            0nat
        }) + key_count(ps.drop_first())
    }
}

/// The key named by the first part that names one.
pub open spec fn first_key(ps: Seq<Seq<char>>) -> Option<Key>
    decreases ps.len(),
{
    if ps.len() == 0 {
        None
    } else if is_key_part(ps[0]) {
        key_for_upper(upper_text(ps[0]))
    } else {
        first_key(ps.drop_first())
    }
}

/// The modifier flags the parts name, together.
pub open spec fn flag_bits(ps: Seq<Seq<char>>) -> u16
    decreases ps.len(),
{
    if ps.len() == 0 {
        0
    } else {
        (match part_flag(ps[0]) {
            Some(m) => m,
            None => 0u16,
        }) | flag_bits(ps.drop_first())
    }
}

proof fn lemma_modifier_flag_values(l: Seq<char>)
    ensures
        modifier_flag(l) matches Some(m) ==> (m == 1u16 || m == 2u16 || m == 4u16 || m == 8u16),
{
}

proof fn lemma_fold_characterised(ps: Seq<Seq<char>>, mods: u16, key: Option<Key>)
    ensures
        fold_parts(ps, mods, key) is Ok <==> (parts_recognised(ps) && key_count(ps) + (if key is Some {
            1nat
        } else {
            0nat
        }) <= 1),
        fold_parts(ps, mods, key) matches Ok((m, k)) ==> m == mods | flag_bits(ps) && k == (
        if key is Some {
            key
        } else {
            first_key(ps)
        }),
    decreases ps.len(),
{
    if ps.len() == 0 {
        assert(mods | 0u16 == mods) by (bit_vector);
    } else {
        let p = ps[0];
        let rest = ps.drop_first();
        assert forall|i: int| 0 <= i < rest.len() implies rest[i] == ps[i + 1] by {}
        assert(parts_recognised(ps) <==> ((part_flag(p) is Some || key_for_upper(upper_text(p)) is Some)
            && parts_recognised(rest))) by {
            if parts_recognised(ps) {
                assert forall|i: int| 0 <= i < rest.len() implies (part_flag(#[trigger] rest[i]) is Some
                    || key_for_upper(upper_text(rest[i])) is Some) by {
                    assert(rest[i] == ps[i + 1]);
                }
            }
            if (part_flag(p) is Some || key_for_upper(upper_text(p)) is Some) && parts_recognised(rest) {
                assert forall|i: int| 0 <= i < ps.len() implies (part_flag(#[trigger] ps[i]) is Some
                    || key_for_upper(upper_text(ps[i])) is Some) by {
                    if i > 0 {
                        assert(ps[i] == rest[i - 1]);
                    }
                }
            }
        }
        match modifier_flag(lower_text(p)) {
            Some(m) => {
                lemma_modifier_flag_values(lower_text(p));
                lemma_fold_characterised(rest, mods | m, key);
                let fb = flag_bits(rest);
                assert((mods | m) | fb == mods | (m | fb)) by (bit_vector);
            },
            None => match key_for_upper(upper_text(p)) {
                Some(k) => {
                    lemma_fold_characterised(rest, mods, Some(k));
                    if key is None {
                        lemma_fold_characterised(rest, mods, Some(k));
                    }
                    let fb = flag_bits(rest);
                    assert(0u16 | fb == fb) by (bit_vector);
                },
                None => {},
            },
        }
    }
}

/// When a hotkey string is accepted, over its trimmed `+`-separated parts:
/// it is accepted exactly when every part names a modifier or a key and
/// exactly one part names a key; its key is that part's key and its
/// modifiers are all the flags the parts name, together.
pub proof fn lemma_parse_characterised(s: Seq<char>)
    requires
        trim(s).len() > 0,
    ensures
        parse_hotkey_spec(s) is Ok <==> (parts_recognised(hotkey_parts(trim(s))) && key_count(
            hotkey_parts(trim(s)),
        ) == 1),
        parse_hotkey_spec(s) matches Ok((k, m)) ==> Some(k) == first_key(hotkey_parts(trim(s)))
            && m == flag_bits(hotkey_parts(trim(s))),
{
    let ps = hotkey_parts(trim(s));
    lemma_fold_characterised(ps, 0, None);
    let fb = flag_bits(ps);
    assert(0u16 | fb == fb) by (bit_vector);
    lemma_first_key_counted(ps);
}

proof fn lemma_first_key_counted(ps: Seq<Seq<char>>)
    ensures
        key_count(ps) == 0 <==> first_key(ps) is None,
    decreases ps.len(),
{
    if ps.len() > 0 {
        lemma_first_key_counted(ps.drop_first());
        lemma_key_part_key(ps[0]);
    }
}

proof fn lemma_key_part_key(p: Seq<char>)
    ensures
        is_key_part(p) ==> key_for_upper(upper_text(p)) is Some,
{
}

/// A flag is among the parts' flags exactly when some part names it.
proof fn lemma_flag_bits_exist(ps: Seq<Seq<char>>, f: u16)
    requires
        f == 1u16 || f == 2u16 || f == 4u16 || f == 8u16,
    ensures
        (flag_bits(ps) & f != 0) <==> exists|i: int|
            0 <= i < ps.len() && part_flag(#[trigger] ps[i]) == Some(f),
        flag_bits(ps) & !0xFu16 == 0,
    decreases ps.len(),
{
    if ps.len() == 0 {
        assert(0u16 & f == 0) by (bit_vector);
        assert(0u16 & !0xFu16 == 0) by (bit_vector);
    } else {
        let rest = ps.drop_first();
        lemma_flag_bits_exist(rest, f);
        let fb = flag_bits(rest);
        let m = match part_flag(ps[0]) {
            Some(m) => m,
            None => 0u16,
        };
        lemma_modifier_flag_values(lower_text(ps[0]));
        assert(m == 0u16 || m == 1u16 || m == 2u16 || m == 4u16 || m == 8u16);
        assert(((m | fb) & f != 0) <==> (m & f != 0 || fb & f != 0)) by (bit_vector);
        assert((m | fb) & !0xFu16 == 0) by (bit_vector)
            requires
                m == 0u16 || m == 1u16 || m == 2u16 || m == 4u16 || m == 8u16,
                fb & !0xFu16 == 0,
        ;
        assert((m & f != 0) <==> m == f) by (bit_vector)
            requires
                m == 0u16 || m == 1u16 || m == 2u16 || m == 4u16 || m == 8u16,
                f == 1u16 || f == 2u16 || f == 4u16 || f == 8u16,
        ;
        if exists|i: int| 0 <= i < ps.len() && part_flag(#[trigger] ps[i]) == Some(f) {
            let i = choose|i: int| 0 <= i < ps.len() && part_flag(#[trigger] ps[i]) == Some(f);
            if i > 0 {
                assert(rest[i - 1] == ps[i]);
            }
        }
        if exists|i: int| 0 <= i < rest.len() && part_flag(#[trigger] rest[i]) == Some(f) {
            let i = choose|i: int| 0 <= i < rest.len() && part_flag(#[trigger] rest[i]) == Some(f);
            assert(ps[i + 1] == rest[i]);
        }
    }
}

proof fn lemma_flag_bits_same(ps: Seq<Seq<char>>, qs: Seq<Seq<char>>)
    requires
        forall|i: int| 0 <= i < ps.len() ==> qs.contains(#[trigger] ps[i]),
        forall|j: int| 0 <= j < qs.len() ==> ps.contains(#[trigger] qs[j]),
    ensures
        flag_bits(ps) == flag_bits(qs),
{
    let a = flag_bits(ps);
    let b = flag_bits(qs);
    assert forall|f: u16| f == 1u16 || f == 2u16 || f == 4u16 || f == 8u16 implies ((a & f != 0) <==> (b
        & f != 0)) by {
        lemma_flag_bits_exist(ps, f);
        lemma_flag_bits_exist(qs, f);
        if exists|i: int| 0 <= i < ps.len() && part_flag(#[trigger] ps[i]) == Some(f) {
            let i = choose|i: int| 0 <= i < ps.len() && part_flag(#[trigger] ps[i]) == Some(f);
            assert(qs.contains(ps[i]));
            let j = choose|j: int| 0 <= j < qs.len() && qs[j] == ps[i];
            assert(part_flag(qs[j]) == Some(f));
        }
        if exists|j: int| 0 <= j < qs.len() && part_flag(#[trigger] qs[j]) == Some(f) {
            let j = choose|j: int| 0 <= j < qs.len() && part_flag(#[trigger] qs[j]) == Some(f);
            assert(ps.contains(qs[j]));
            let i = choose|i: int| 0 <= i < ps.len() && ps[i] == qs[j];
            assert(part_flag(ps[i]) == Some(f));
        }
    }
    lemma_flag_bits_exist(ps, 1);
    lemma_flag_bits_exist(qs, 1);
    assert((a & 1u16 != 0) <==> (b & 1u16 != 0));
    assert((a & 2u16 != 0) <==> (b & 2u16 != 0));
    assert((a & 4u16 != 0) <==> (b & 4u16 != 0));
    assert((a & 8u16 != 0) <==> (b & 8u16 != 0));
    assert(a == b) by (bit_vector)
        requires
            a & !0xFu16 == 0,
            b & !0xFu16 == 0,
            (a & 1u16 != 0) <==> (b & 1u16 != 0),
            (a & 2u16 != 0) <==> (b & 2u16 != 0),
            (a & 4u16 != 0) <==> (b & 4u16 != 0),
            (a & 8u16 != 0) <==> (b & 8u16 != 0),
    ;
}

/// With exactly one key part, the first key is that part's key.
proof fn lemma_single_key(ps: Seq<Seq<char>>, j: int)
    requires
        key_count(ps) == 1,
        0 <= j < ps.len(),
        is_key_part(ps[j]),
    ensures
        first_key(ps) == key_for_upper(upper_text(ps[j])),
    decreases ps.len(),
{
    if !is_key_part(ps[0]) {
        assert(j > 0);
        assert(ps.drop_first()[j - 1] == ps[j]);
        lemma_single_key(ps.drop_first(), j - 1);
    } else if j > 0 {
        assert(ps.drop_first()[j - 1] == ps[j]);
        lemma_key_count_positive(ps.drop_first(), j - 1);
    }
}

proof fn lemma_key_count_positive(ps: Seq<Seq<char>>, j: int)
    requires
        0 <= j < ps.len(),
        is_key_part(ps[j]),
    ensures
        key_count(ps) >= 1,
    decreases ps.len(),
{
    if j > 0 {
        assert(ps.drop_first()[j - 1] == ps[j]);
        lemma_key_count_positive(ps.drop_first(), j - 1);
    }
}

/// The order of the parts of a hotkey string and the repetition of
/// modifiers do not matter: two strings whose trimmed parts are the same
/// (each part of one is a part of the other) and that name keys equally
/// often are accepted or refused alike, and when accepted they give the
/// same key and modifiers.
pub proof fn lemma_parse_ignores_order_and_repetition(a: Seq<char>, b: Seq<char>)
    requires
        trim(a).len() > 0,
        trim(b).len() > 0,
        forall|i: int|
            0 <= i < hotkey_parts(trim(a)).len() ==> hotkey_parts(trim(b)).contains(
                #[trigger] hotkey_parts(trim(a))[i],
            ),
        forall|j: int|
            0 <= j < hotkey_parts(trim(b)).len() ==> hotkey_parts(trim(a)).contains(
                #[trigger] hotkey_parts(trim(b))[j],
            ),
        key_count(hotkey_parts(trim(a))) == key_count(hotkey_parts(trim(b))),
    ensures
        parse_hotkey_spec(a) is Ok <==> parse_hotkey_spec(b) is Ok,
        parse_hotkey_spec(a) is Ok ==> parse_hotkey_spec(a) == parse_hotkey_spec(b),
{
    let ps = hotkey_parts(trim(a));
    let qs = hotkey_parts(trim(b));
    lemma_parse_characterised(a);
    lemma_parse_characterised(b);
    lemma_flag_bits_same(ps, qs);
    assert(parts_recognised(ps) <==> parts_recognised(qs)) by {
        if parts_recognised(ps) {
            assert forall|j: int| 0 <= j < qs.len() implies (part_flag(#[trigger] qs[j]) is Some
                || key_for_upper(upper_text(qs[j])) is Some) by {
                assert(ps.contains(qs[j]));
            }
        }
        if parts_recognised(qs) {
            assert forall|i: int| 0 <= i < ps.len() implies (part_flag(#[trigger] ps[i]) is Some
                || key_for_upper(upper_text(ps[i])) is Some) by {
                assert(qs.contains(ps[i]));
            }
        }
    }
    if key_count(ps) == 1 && parts_recognised(ps) {
        lemma_key_part_exists(ps);
        let i = choose|i: int| 0 <= i < ps.len() && is_key_part(#[trigger] ps[i]);
        lemma_single_key(ps, i);
        assert(qs.contains(ps[i]));
        let j = choose|j: int| 0 <= j < qs.len() && qs[j] == ps[i];
        lemma_single_key(qs, j);
    }
}

proof fn lemma_key_part_exists(ps: Seq<Seq<char>>)
    requires
        key_count(ps) >= 1,
    ensures
        exists|i: int| 0 <= i < ps.len() && is_key_part(#[trigger] ps[i]),
    decreases ps.len(),
{
    if is_key_part(ps[0]) {
        assert(is_key_part(ps[0]));
    } else {
        lemma_key_part_exists(ps.drop_first());
        let i = choose|i: int| 0 <= i < ps.drop_first().len() && is_key_part(#[trigger] ps.drop_first()[i]);
        assert(ps[i + 1] == ps.drop_first()[i]);
    }
}

} // verus!
