//! Properties of a rebuild that hold for every listing.

use vstd::prelude::*;
use crate::names::{display_name, suffix_text, NAME_SEPARATOR, SUFFIX_DOT};
use crate::snapshot::{
    address_at, is_usable, lists_exactly, snapshot, snapshot_upto, HostEntryView, ListingView,
    Resolution,
};

verus! {

/// Position `i` of the listing is usable and carries identifier `k`.
pub open spec fn usable_with_id(
    ls: Seq<ListingView>,
    addrs: Seq<Option<Seq<char>>>,
    i: int,
    k: Seq<char>,
) -> bool {
    &&& 0 <= i < ls.len()
    &&& ls[i].id == Some(k)
    &&& is_usable(ls[i], address_at(addrs, i))
}

/// What the snapshot of the first `n` positions holds for identifier `k`.
proof fn lemma_snapshot_upto_key(
    ls: Seq<ListingView>,
    addrs: Seq<Option<Seq<char>>>,
    n: nat,
    k: Seq<char>,
)
    requires
        n <= ls.len(),
    ensures
        snapshot_upto(ls, addrs, n).contains_key(k) <==> exists|i: int|
            0 <= i < n && #[trigger] usable_with_id(ls, addrs, i, k),
        forall|i: int|
            0 <= i < n && #[trigger] usable_with_id(ls, addrs, i, k) && (forall|x: int|
                i < x < n ==> !usable_with_id(ls, addrs, x, k)) ==> snapshot_upto(ls, addrs, n)[k]
                == (display_name(ls[i].names->0[0]), address_at(addrs, i)->0),
    decreases n,
{
    if n > 0 {
        lemma_snapshot_upto_key(ls, addrs, (n - 1) as nat, k);
        let last = n - 1;
        if usable_with_id(ls, addrs, last, k) {
            assert forall|i: int|
                0 <= i < n && #[trigger] usable_with_id(ls, addrs, i, k) && (forall|x: int|
                    i < x < n ==> !usable_with_id(ls, addrs, x, k)) implies i == last by {
                if i != last {
                    assert(!usable_with_id(ls, addrs, last, k));
                }
            }
        } else {
            if exists|i: int| 0 <= i < n && #[trigger] usable_with_id(ls, addrs, i, k) {
                let i = choose|i: int| 0 <= i < n && #[trigger] usable_with_id(ls, addrs, i, k);
                assert(i != last);
                assert(0 <= i < n - 1);
            }
        }
    }
}

/// Completeness: every container that has an identifier, exactly one name
/// and a non-empty address is written, under its name without the leading
/// separator and with that address (the last such position of an
/// identifier is the one written).
pub proof fn written_when_usable(
    ls: Seq<ListingView>,
    addrs: Seq<Option<Seq<char>>>,
    es: Seq<HostEntryView>,
    i: int,
)
    requires
        lists_exactly(es, snapshot(ls, addrs)),
        0 <= i < ls.len(),
        is_usable(ls[i], address_at(addrs, i)),
        forall|x: int| i < x < ls.len() ==> !usable_with_id(ls, addrs, x, ls[i].id->0),
    ensures
        exists|j: int|
            0 <= j < es.len() && es[j].id == ls[i].id->0 && es[j].name == display_name(
                ls[i].names->0[0],
            ) && es[j].address == address_at(addrs, i)->0,
{
    let k = ls[i].id->0;
    assert(usable_with_id(ls, addrs, i, k));
    lemma_snapshot_upto_key(ls, addrs, ls.len(), k);
    let m = snapshot(ls, addrs);
    assert(m.contains_key(k));
    let j = choose|j: int| 0 <= j < es.len() && es[j].id == k;
    assert(m[es[j].id] == (es[j].name, es[j].address));
}

/// Exclusion: an identifier none of whose listed positions is usable (no
/// name, several names, a failed lookup, no or an empty address) is not
/// written; nothing outside the listing is written either.
pub proof fn excluded_when_unusable(
    ls: Seq<ListingView>,
    addrs: Seq<Option<Seq<char>>>,
    es: Seq<HostEntryView>,
    k: Seq<char>,
)
    requires
        lists_exactly(es, snapshot(ls, addrs)),
        forall|i: int| 0 <= i < ls.len() ==> !usable_with_id(ls, addrs, i, k),
    ensures
        forall|j: int| 0 <= j < es.len() ==> es[j].id != k,
{
    lemma_snapshot_upto_key(ls, addrs, ls.len(), k);
    assert forall|j: int| 0 <= j < es.len() implies es[j].id != k by {
        assert(snapshot(ls, addrs).contains_key(es[j].id));
    }
}

/// Full replace: an identifier written by an earlier rebuild but not usable
/// in the current listing is absent after the current rebuild; nothing of
/// the earlier file survives.
pub proof fn no_stale_entries(
    earlier: Seq<HostEntryView>,
    ls: Seq<ListingView>,
    addrs: Seq<Option<Seq<char>>>,
    es: Seq<HostEntryView>,
    k: Seq<char>,
)
    requires
        exists|j: int| 0 <= j < earlier.len() && earlier[j].id == k,
        lists_exactly(es, snapshot(ls, addrs)),
        forall|i: int| 0 <= i < ls.len() ==> !usable_with_id(ls, addrs, i, k),
    ensures
        forall|j: int| 0 <= j < es.len() ==> es[j].id != k,
{
    excluded_when_unusable(ls, addrs, es, k);
}

/// Idempotence: two rebuilds on the same listing and the same lookups write
/// the same entries, each once, at most in another order; so the two files
/// hold the same lines.
pub proof fn rebuild_is_idempotent(
    ls: Seq<ListingView>,
    addrs: Seq<Option<Seq<char>>>,
    es1: Seq<HostEntryView>,
    es2: Seq<HostEntryView>,
)
    requires
        lists_exactly(es1, snapshot(ls, addrs)),
        lists_exactly(es2, snapshot(ls, addrs)),
    ensures
        es1.no_duplicates(),
        es2.no_duplicates(),
        es1.len() == es2.len(),
        es1.to_set() == es2.to_set(),
{
    let m = snapshot(ls, addrs);
    lemma_same_entries(es1, es2, m);
    lemma_same_entries(es2, es1, m);
    assert(es1.to_set() =~= es2.to_set());
    es1.unique_seq_to_set();
    es2.unique_seq_to_set();
}

/// Each entry of `a` stands in `b` when both list exactly `m`.
proof fn lemma_same_entries(
    a: Seq<HostEntryView>,
    b: Seq<HostEntryView>,
    m: Map<Seq<char>, Resolution>,
)
    requires
        lists_exactly(a, m),
        lists_exactly(b, m),
    ensures
        a.no_duplicates(),
        forall|x: HostEntryView| a.contains(x) ==> b.contains(x),
{
    assert forall|x: HostEntryView| a.contains(x) implies b.contains(x) by {
        let i = choose|i: int| 0 <= i < a.len() && a[i] == x;
        assert(m.contains_key(a[i].id));
        let j = choose|j: int| 0 <= j < b.len() && b[j].id == a[i].id;
        assert(m[b[j].id] == (b[j].name, b[j].address));
        assert(b[j] == x);
    }
    assert forall|i: int, j: int|
        0 <= i < a.len() && 0 <= j < a.len() && i != j implies a[i] != a[j] by {
        if i < j {
            assert(a[i].id != a[j].id);
        } else {
            assert(a[j].id != a[i].id);
        }
    }
}

/// A name written with a leading separator loses exactly that separator.
pub proof fn separator_stripped(name: Seq<char>)
    ensures
        display_name(seq![NAME_SEPARATOR] + name) == name,
        name.len() == 0 || name[0] != NAME_SEPARATOR ==> display_name(name) == name,
{
    assert((seq![NAME_SEPARATOR] + name).drop_first() =~= name);
}

/// A suffix given with or without one leading dot gives the same text.
pub proof fn suffix_dot_stripped_once(suffix: Seq<char>)
    requires
        suffix.len() == 0 || suffix[0] != SUFFIX_DOT,
    ensures
        suffix_text(seq![SUFFIX_DOT] + suffix) == suffix,
        suffix_text(suffix) == suffix,
{
    assert((seq![SUFFIX_DOT] + suffix).drop_first() =~= suffix);
}

} // verus!
