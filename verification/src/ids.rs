//! Identifiers drawn at random: the textual forms of a version-4 UUID and the
//! names that the swarm builds from them.
use vstd::prelude::*;
use crate::text::{
    append_chars, concat, has_prefix, hex_fixed, is_lower_hex, lemma_filter_keeps_all,
    lemma_hex_fixed_shape, push_hex_fixed, string_of, sub_chars,
};

verus! {

/// The 32 lower-case hexadecimal digits of `u`, most significant first
/// (the "simple" form of a UUID).
pub open spec fn uuid_simple(u: u128) -> Seq<char> {
    hex_fixed(u as nat, 32)
}

/// The hyphenated form of a UUID: its simple form cut 8-4-4-4-12 with dashes.
pub open spec fn uuid_hyphenated(u: u128) -> Seq<char> {
    let h = uuid_simple(u);
    h.subrange(0, 8) + seq!['-'] + h.subrange(8, 12) + seq!['-'] + h.subrange(12, 16) + seq!['-']
        + h.subrange(16, 20) + seq!['-'] + h.subrange(20, 32)
}

/// `u` is the value of a version-4 UUID: version nibble 4 and variant bits `10`.
pub open spec fn is_v4(u: u128) -> bool {
    &&& (u >> 76u128) & 0xfu128 == 4
    &&& (u >> 62u128) & 0x3u128 == 2
}

/// A fresh random version-4 UUID, as its 128-bit value
/// (`uuid::Uuid::new_v4` read with `Uuid::as_u128`). The value is random; the
/// contract states only the version nibble (4) and the variant bits (`10`),
/// which `new_v4` sets on every value it returns.
#[verifier::external_body]
fn random_uuid_v4() -> (u: u128)
    ensures
        is_v4(u),
{
    uuid::Uuid::new_v4().as_u128()
}

/// The simple form of `u`.
pub fn simple_form(u: u128) -> (s: String)
    ensures
        s@ == uuid_simple(u),
{
    let mut v: Vec<char> = Vec::new();
    push_hex_fixed(&mut v, u, 32);
    assert(Seq::<char>::empty() + hex_fixed(u as nat, 32) =~= hex_fixed(u as nat, 32));
    string_of(&v)
}

/// The hyphenated form of `u`.
pub fn hyphenated_form(u: u128) -> (s: String)
    ensures
        s@ == uuid_hyphenated(u),
{
    let mut h: Vec<char> = Vec::new();
    push_hex_fixed(&mut h, u, 32);
    assert(Seq::<char>::empty() + hex_fixed(u as nat, 32) =~= hex_fixed(u as nat, 32));
    proof {
        lemma_hex_fixed_shape(u as nat, 32);
    }
    let mut out = sub_chars(&h, 0, 8);
    out.push('-');
    append_chars(&mut out, &sub_chars(&h, 8, 12));
    out.push('-');
    append_chars(&mut out, &sub_chars(&h, 12, 16));
    out.push('-');
    append_chars(&mut out, &sub_chars(&h, 16, 20));
    out.push('-');
    append_chars(&mut out, &sub_chars(&h, 20, 32));
    assert(out@ =~= uuid_hyphenated(u));
    string_of(&out)
}

/// Dropping the dashes of the hyphenated form of a UUID gives its simple form.
pub proof fn lemma_hyphenated_is_simple_with_dashes(u: u128)
    ensures
        uuid_hyphenated(u).filter(|c: char| c != '-') == uuid_simple(u),
        uuid_hyphenated(u).len() == 36,
{
    let h = uuid_simple(u);
    lemma_hex_fixed_shape(u as nat, 32);
    let keep = |c: char| c != '-';
    let dash: Seq<char> = seq!['-'];
    assert(dash.filter(keep) =~= Seq::<char>::empty()) by {
        reveal_with_fuel(Seq::filter, 2);
    }
    assert forall|a: int, b: int| 0 <= a <= b <= 32 implies #[trigger] h.subrange(a, b).filter(keep)
        == h.subrange(a, b) by {
        let p = h.subrange(a, b);
        assert forall|i: int| 0 <= i < p.len() implies keep(#[trigger] p[i]) by {
            assert(p[i] == h[a + i]);
        }
        lemma_filter_keeps_all(p, keep);
    }
    let p0 = h.subrange(0, 8);
    let p1 = h.subrange(8, 12);
    let p2 = h.subrange(12, 16);
    let p3 = h.subrange(16, 20);
    let p4 = h.subrange(20, 32);
    broadcast use Seq::filter_distributes_over_add;

    assert(uuid_hyphenated(u) == p0 + dash + p1 + dash + p2 + dash + p3 + dash + p4);
    assert((p0 + dash + p1 + dash + p2 + dash + p3 + dash + p4).filter(keep) =~= p0 + p1 + p2 + p3
        + p4);
    assert(p0 + p1 + p2 + p3 + p4 =~= h);
}

/// A route identifier: `route_` and the simple form of `u`.
pub open spec fn route_id_text(u: u128) -> Seq<char> {
    "route_"@ + uuid_simple(u)
}

/// The route identifier made from `u`.
pub fn route_id(u: u128) -> (r: String)
    ensures
        r@ == route_id_text(u),
{
    concat("route_", simple_form(u).as_str())
}

/// A fresh route identifier: `route_` and the simple form of a random
/// version-4 UUID, so `route_` and 32 lower-case hexadecimal digits.
pub fn new_route_id() -> (r: String)
    ensures
        exists|u: u128| r@ == route_id_text(u) && is_v4(u),
        r@.len() == 38,
        has_prefix(r@, "route_"@),
        is_lower_hex(r@.subrange(6, 38)),
{
    let u = random_uuid_v4();
    let r = route_id(u);
    proof {
        lemma_hex_fixed_shape(u as nat, 32);
        reveal_strlit("route_");
        assert(r@.subrange(0, 6) =~= "route_"@);
        assert(r@.subrange(6, 38) =~= uuid_simple(u));
        assert(r@ == route_id_text(u) && is_v4(u));
    }
    r
}

/// The identifier of a swarm: `YC-SWRM-` and the hyphenated form of `u`.
pub open spec fn swarm_id_text(u: u128) -> Seq<char> {
    "YC-SWRM-"@ + uuid_hyphenated(u)
}

/// The name of a swarm's work queue: `manufacturing_` and the hyphenated form of `u`.
pub open spec fn queue_name_text(u: u128) -> Seq<char> {
    "manufacturing_"@ + uuid_hyphenated(u)
}

/// The swarm identifier made from `u`.
pub fn swarm_id(u: u128) -> (r: String)
    ensures
        r@ == swarm_id_text(u),
{
    concat("YC-SWRM-", hyphenated_form(u).as_str())
}

/// The queue name made from `u`.
pub fn queue_name(u: u128) -> (r: String)
    ensures
        r@ == queue_name_text(u),
{
    concat("manufacturing_", hyphenated_form(u).as_str())
}

/// A fresh swarm identifier and a fresh queue name, each from its own
/// random version-4 UUID.
pub fn new_swarm_names() -> (r: (String, String))
    ensures
        exists|u: u128| r.0@ == swarm_id_text(u) && is_v4(u),
        exists|u: u128| r.1@ == queue_name_text(u) && is_v4(u),
{
    let a = random_uuid_v4();
    let b = random_uuid_v4();
    let s = swarm_id(a);
    let q = queue_name(b);
    proof {
        assert(s@ == swarm_id_text(a) && is_v4(a));
        assert(q@ == queue_name_text(b) && is_v4(b));
    }
    (s, q)
}

} // verus!
