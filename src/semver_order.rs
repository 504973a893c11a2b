//! The order of semantic versions as the `semver` crate defines it, and the
//! facts about it that searching and sorting need.
use vstd::prelude::*;
use crate::cache::{bytes_lt, lemma_bytes_order, utf8};
use crate::numtext::is_digit;

verus! {

/// What an identifier is compared by: its class (numeric below
/// alphanumeric), a length, its bytes, and a last length.
pub type IdentKey = (int, int, Seq<u8>, int);

/// The lexicographic order of identifier keys.
pub open spec fn ident_lt(a: IdentKey, b: IdentKey) -> bool {
    ||| a.0 < b.0
    ||| (a.0 == b.0 && a.1 < b.1)
    ||| (a.0 == b.0 && a.1 == b.1 && bytes_lt(a.2, b.2))
    ||| (a.0 == b.0 && a.1 == b.1 && a.2 == b.2 && a.3 < b.3)
}

/// Whether every byte is an ASCII digit (true of the empty identifier).
pub open spec fn all_ascii_digits(s: Seq<u8>) -> bool {
    forall|i: int| 0 <= i < s.len() ==> is_digit(#[trigger] s[i])
}

/// `s` without its leading `0` bytes.
pub open spec fn trim_zeros(s: Seq<u8>) -> Seq<u8>
    decreases s.len(),
{
    if s.len() > 0 && s[0] == 0x30 {
        trim_zeros(s.drop_first())
    } else {
        s
    }
}

/// A pre-release identifier's key: numeric ones by length then digits,
/// the others by their ASCII bytes, numeric ones first.
pub open spec fn pre_ident_key(s: Seq<u8>) -> IdentKey {
    if all_ascii_digits(s) {
        (0, s.len() as int, s, 0)
    } else {
        (1, 0, s, 0)
    }
}

/// A build identifier's key: numeric ones by their value without leading
/// zeros (length, then digits), then by their full length; the others by
/// their ASCII bytes; numeric ones first.
pub open spec fn build_ident_key(s: Seq<u8>) -> IdentKey {
    if all_ascii_digits(s) {
        (0, trim_zeros(s).len() as int, trim_zeros(s), s.len() as int)
    } else {
        (1, 0, s, 0)
    }
}

/// The pieces of `s` between `.` bytes, as `str::split('.')` gives them.
pub open spec fn split_dots(s: Seq<u8>) -> Seq<Seq<u8>>
    decreases s.len(),
{
    if s.len() == 0 {
        seq![Seq::empty()]
    } else {
        let init = split_dots(s.drop_last());
        if s.last() == 0x2e {
            init.push(Seq::empty())
        } else {
            init.update(init.len() - 1, init.last().push(s.last()))
        }
    }
}

/// Lexicographic order of identifier lists: the first differing identifier
/// decides, and a list ranks above its proper prefixes.
pub open spec fn list_lt(a: Seq<IdentKey>, b: Seq<IdentKey>) -> bool
    decreases a.len(),
{
    if a.len() == 0 {
        b.len() > 0
    } else if b.len() == 0 {
        false
    } else if ident_lt(a[0], b[0]) {
        true
    } else if ident_lt(b[0], a[0]) {
        false
    } else {
        list_lt(a.drop_first(), b.drop_first())
    }
}

/// The key of a pre-release: `None` (above all others) for a release,
/// else the keys of its identifiers.
pub open spec fn pre_key(pre: Seq<char>) -> Option<Seq<IdentKey>> {
    if pre.len() == 0 {
        None
    } else {
        Some(split_dots(utf8(pre)).map_values(|s: Seq<u8>| pre_ident_key(s)))
    }
}

/// The key of build metadata: the keys of its identifiers.
pub open spec fn build_key(build: Seq<char>) -> Seq<IdentKey> {
    split_dots(utf8(build)).map_values(|s: Seq<u8>| build_ident_key(s))
}

/// The order of pre-release keys: a release ranks above every pre-release.
pub open spec fn pre_lt(a: Option<Seq<IdentKey>>, b: Option<Seq<IdentKey>>) -> bool {
    match (a, b) {
        (Some(_), None) => true,
        (Some(x), Some(y)) => list_lt(x, y),
        _ => false,
    }
}

/// Whether version `a` is below version `b` (fields as `semver_fields` gives
/// them): by major, minor, patch, then pre-release, then build metadata.
pub open spec fn semver_lt(a: (u64, u64, u64, Seq<char>, Seq<char>), b: (u64, u64, u64, Seq<char>, Seq<char>)) -> bool {
    let (pa, pb) = (pre_key(a.3), pre_key(b.3));
    ||| a.0 < b.0
    ||| (a.0 == b.0 && a.1 < b.1)
    ||| (a.0 == b.0 && a.1 == b.1 && a.2 < b.2)
    ||| (a.0 == b.0 && a.1 == b.1 && a.2 == b.2 && pre_lt(pa, pb))
    ||| (a.0 == b.0 && a.1 == b.1 && a.2 == b.2 && pa == pb && list_lt(build_key(a.4), build_key(b.4)))
}

proof fn lemma_ident_order()
    ensures
        forall|a: IdentKey| !#[trigger] ident_lt(a, a),
        forall|a: IdentKey, b: IdentKey, c: IdentKey|
            #[trigger] ident_lt(a, b) && #[trigger] ident_lt(b, c) ==> ident_lt(a, c),
        forall|a: IdentKey, b: IdentKey| a != b ==> #[trigger] ident_lt(a, b) || #[trigger] ident_lt(b, a),
{
    lemma_bytes_order();
}

proof fn lemma_list_irreflexive(a: Seq<IdentKey>)
    ensures
        !list_lt(a, a),
    decreases a.len(),
{
    lemma_ident_order();
    if a.len() > 0 {
        lemma_list_irreflexive(a.drop_first());
    }
}

proof fn lemma_list_transitive(a: Seq<IdentKey>, b: Seq<IdentKey>, c: Seq<IdentKey>)
    requires
        list_lt(a, b),
        list_lt(b, c),
    ensures
        list_lt(a, c),
    decreases a.len(),
{
    lemma_ident_order();
    if a.len() > 0 && b.len() > 0 && c.len() > 0 {
        if !ident_lt(a[0], b[0]) && !ident_lt(b[0], a[0]) && !ident_lt(b[0], c[0]) && !ident_lt(c[0], b[0]) {
            lemma_list_transitive(a.drop_first(), b.drop_first(), c.drop_first());
        }
    }
}

proof fn lemma_list_total(a: Seq<IdentKey>, b: Seq<IdentKey>)
    requires
        a != b,
    ensures
        list_lt(a, b) || list_lt(b, a),
    decreases a.len(),
{
    lemma_ident_order();
    if a.len() == 0 && b.len() == 0 {
        assert(a =~= b);
    } else if a.len() > 0 && b.len() > 0 && a[0] == b[0] {
        if a.drop_first() == b.drop_first() {
            assert(a =~= seq![a[0]] + a.drop_first());
            assert(b =~= seq![b[0]] + b.drop_first());
        }
        lemma_list_total(a.drop_first(), b.drop_first());
    }
}

proof fn lemma_list_order()
    ensures
        forall|a: Seq<IdentKey>| !#[trigger] list_lt(a, a),
        forall|a: Seq<IdentKey>, b: Seq<IdentKey>, c: Seq<IdentKey>|
            #[trigger] list_lt(a, b) && #[trigger] list_lt(b, c) ==> list_lt(a, c),
        forall|a: Seq<IdentKey>, b: Seq<IdentKey>| a != b ==> #[trigger] list_lt(a, b) || #[trigger] list_lt(b, a),
{
    assert forall|a: Seq<IdentKey>| !#[trigger] list_lt(a, a) by {
        lemma_list_irreflexive(a);
    }
    assert forall|a: Seq<IdentKey>, b: Seq<IdentKey>, c: Seq<IdentKey>|
        #[trigger] list_lt(a, b) && #[trigger] list_lt(b, c) implies list_lt(a, c) by {
        lemma_list_transitive(a, b, c);
    }
    assert forall|a: Seq<IdentKey>, b: Seq<IdentKey>| a != b implies #[trigger] list_lt(a, b) || #[trigger] list_lt(b, a) by {
        lemma_list_total(a, b);
    }
}

/// The version order is irreflexive and transitive.
pub proof fn lemma_semver_order()
    ensures
        forall|a: (u64, u64, u64, Seq<char>, Seq<char>)| !#[trigger] semver_lt(a, a),
        forall|a: (u64, u64, u64, Seq<char>, Seq<char>), b: (u64, u64, u64, Seq<char>, Seq<char>), c: (u64, u64, u64, Seq<char>, Seq<char>)|
            #[trigger] semver_lt(a, b) && #[trigger] semver_lt(b, c) ==> semver_lt(a, c),
{
    lemma_list_order();
    assert forall|a: Option<Seq<IdentKey>>, b: Option<Seq<IdentKey>>, c: Option<Seq<IdentKey>>|
        #[trigger] pre_lt(a, b) && #[trigger] pre_lt(b, c) implies pre_lt(a, c) by {}
    assert forall|a: Option<Seq<IdentKey>>, b: Option<Seq<IdentKey>>|
        a != b implies #[trigger] pre_lt(a, b) || #[trigger] pre_lt(b, a) by {}
}

} // verus!
