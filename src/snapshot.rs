//! Building the snapshot of running containers from what the runtime answered.

use vstd::prelude::*;
use vstd::string::*;
use crate::names::{display_name, strip_separator};

verus! {

/// One container as the runtime lists it: its identifier and its names,
/// either of which the runtime may leave out.
pub struct ContainerListing {
    pub id: Option<String>,
    pub names: Option<Vec<String>>,
}

/// The mathematical value of a [`ContainerListing`].
pub struct ListingView {
    pub id: Option<Seq<char>>,
    pub names: Option<Seq<Seq<char>>>,
}

pub open spec fn text_of(s: Option<String>) -> Option<Seq<char>> {
    match s {
        Some(t) => Some(t@),
        None => None,
    }
}

pub open spec fn texts_of(v: Seq<String>) -> Seq<Seq<char>> {
    v.map_values(|s: String| s@)
}

impl View for ContainerListing {
    type V = ListingView;

    open spec fn view(&self) -> ListingView {
        ListingView {
            id: text_of(self.id),
            names: match self.names {
                Some(v) => Some(texts_of(v@)),
                None => None,
            },
        }
    }
}

/// One line of the hosts file before it is written: the container's
/// identifier, the name it is known by, and its network address.
pub struct HostEntry {
    pub id: String,
    pub name: String,
    pub address: String,
}

/// The mathematical value of a [`HostEntry`].
pub struct HostEntryView {
    pub id: Seq<char>,
    pub name: Seq<char>,
    pub address: Seq<char>,
}

impl View for HostEntry {
    type V = HostEntryView;

    open spec fn view(&self) -> HostEntryView {
        HostEntryView { id: self.id@, name: self.name@, address: self.address@ }
    }
}

/// What a snapshot maps each identifier to: the written name and the address.
pub type Resolution = (Seq<char>, Seq<char>);

/// A listed container is looked up when it has an identifier and exactly one name.
pub open spec fn is_candidate(l: ListingView) -> bool {
    &&& l.id is Some
    &&& l.names is Some
    &&& l.names->0.len() == 1
}

/// What the lookup of the `i`-th listed container gave: its address, or
/// nothing where it was not looked up, failed, or reported no address.
pub open spec fn address_at(addrs: Seq<Option<Seq<char>>>, i: int) -> Option<Seq<char>> {
    if 0 <= i < addrs.len() {
        addrs[i]
    } else {
        None
    }
}

pub open spec fn address_texts(v: Seq<Option<String>>) -> Seq<Option<Seq<char>>> {
    v.map_values(|a: Option<String>| text_of(a))
}

/// A container enters the snapshot when it is a candidate and its lookup
/// gave a non-empty address.
pub open spec fn is_usable(l: ListingView, a: Option<Seq<char>>) -> bool {
    &&& is_candidate(l)
    &&& a is Some
    &&& a->0.len() > 0
}

/// The snapshot after the first `n` listed containers: each usable one maps
/// its identifier to its written name and address, the later one winning.
pub open spec fn snapshot_upto(
    ls: Seq<ListingView>,
    addrs: Seq<Option<Seq<char>>>,
    n: nat,
) -> Map<Seq<char>, Resolution>
    decreases n,
{
    if n == 0 {
        Map::empty()
    } else {
        let prev = snapshot_upto(ls, addrs, (n - 1) as nat);
        let i = n - 1;
        if is_usable(ls[i], address_at(addrs, i)) {
            prev.insert(
                ls[i].id->0,
                (display_name(ls[i].names->0[0]), address_at(addrs, i)->0),
            )
        } else {
            prev
        }
    }
}

/// The snapshot of a whole listing.
pub open spec fn snapshot(ls: Seq<ListingView>, addrs: Seq<Option<Seq<char>>>) -> Map<
    Seq<char>,
    Resolution,
> {
    snapshot_upto(ls, addrs, ls.len())
}

pub open spec fn entry_views(v: Seq<HostEntry>) -> Seq<HostEntryView> {
    v.map_values(|e: HostEntry| e@)
}

/// No identifier occurs twice among `es`.
pub open spec fn ids_unique(es: Seq<HostEntryView>) -> bool {
    forall|i: int, j: int| 0 <= i < j < es.len() ==> es[i].id != es[j].id
}

/// `es` holds one entry for each key of `m`, with the value that `m` gives
/// it, and nothing else.
pub open spec fn lists_exactly(es: Seq<HostEntryView>, m: Map<Seq<char>, Resolution>) -> bool {
    &&& ids_unique(es)
    &&& forall|i: int|
        0 <= i < es.len() ==> #[trigger] m.contains_key(es[i].id) && m[es[i].id] == (
        es[i].name,
        es[i].address,
    )
    &&& forall|k: Seq<char>| #[trigger]
        m.contains_key(k) ==> exists|i: int| 0 <= i < es.len() && es[i].id == k
}

/// Whether the runtime should be asked for the details of `entry`: it has
/// an identifier and exactly one name.
pub fn needs_inspect(entry: &ContainerListing) -> (r: bool)
    ensures
        r == is_candidate(entry@),
{
    match &entry.names {
        Some(names) => entry.id.is_some() && names.len() == 1,
        None => false,
    }
}

/// The position in `entries` of the entry whose identifier is `id`.
pub fn position_of(entries: &Vec<HostEntry>, id: &String) -> (r: Option<usize>)
    ensures
        match r {
            Some(j) => j < entries@.len() && entries@[j as int].id@ == id@,
            None => forall|j: int| 0 <= j < entries@.len() ==> entries@[j].id@ != id@,
        },
{
    let mut j: usize = 0;
    while j < entries.len()
        invariant
            j <= entries@.len(),
            forall|k: int| 0 <= k < j ==> entries@[k].id@ != id@,
        decreases entries@.len() - j,
    {
        if entries[j].id == *id {
            return Some(j);
        }
        j = j + 1;
    }
    None
}


/// The snapshot of `listing`, where `addresses[i]` is what the lookup of
/// `listing[i]` gave (`None` where it was not made, failed, or reported no
/// address; a missing position counts as `None`). A container is kept when
/// it has an identifier, exactly one name and a non-empty address; its name
/// loses a leading separator, and a later entry for the same identifier
/// replaces an earlier one. Nothing outside `listing` enters the result.
pub fn build_snapshot(listing: &Vec<ContainerListing>, addresses: &Vec<Option<String>>) -> (r: Vec<
    HostEntry,
>)
    ensures
        lists_exactly(
            entry_views(r@),
            snapshot(listing@.map_values(|l: ContainerListing| l@), address_texts(addresses@)),
        ),
{
    let ghost ls = listing@.map_values(|l: ContainerListing| l@);
    let ghost avs = address_texts(addresses@);
    let mut out: Vec<HostEntry> = Vec::new();
    let mut i: usize = 0;
    while i < listing.len()
        invariant
            i <= listing@.len(),
            ls == listing@.map_values(|l: ContainerListing| l@),
            avs == address_texts(addresses@),
            lists_exactly(entry_views(out@), snapshot_upto(ls, avs, i as nat)),
        decreases listing@.len() - i,
    {
        let entry = &listing[i];
        assert(ls[i as int] == entry@);
        assert(address_at(avs, i as int) == if i < addresses@.len() {
            text_of(addresses@[i as int])
        } else {
            None
        });
        if needs_inspect(entry) && i < addresses.len() {
            if let (Some(id), Some(names), Some(address)) = (&entry.id, &entry.names, &addresses[i]) {
                if !address.as_str().is_empty() {
                    let e = HostEntry {
                        id: id.clone(),
                        name: strip_separator(names[0].as_str()),
                        address: address.clone(),
                    };
                    let ghost before = entry_views(out@);
                    let ghost m = snapshot_upto(ls, avs, i as nat);
                    assert(names@.len() == 1);
                    assert(texts_of(names@)[0] == names@[0]@);
                    let ghost old_out = out;
                    let ghost m2 = m.insert(id@, (e@.name, e@.address));
                    match position_of(&out, id) {
                        Some(j) => {
                            assert(before[j as int].id == id@);
                            out.set(j, e);
                            let ghost after = entry_views(out@);
                            assert(after =~= before.update(j as int, e@));
                            assert forall|k: Seq<char>| #[trigger]
                                m2.contains_key(k) implies exists|x: int|
                                0 <= x < after.len() && after[x].id == k by {
                                if k == id@ {
                                    assert(after[j as int].id == k);
                                } else {
                                    let x = choose|x: int|
                                        0 <= x < before.len() && before[x].id == k;
                                    assert(after[x].id == k);
                                }
                            }
                            assert forall|x: int| 0 <= x < after.len() implies #[trigger]
                                m2.contains_key(after[x].id) && m2[after[x].id] == (
                                after[x].name,
                                after[x].address,
                            ) by {
                                if x != j {
                                    assert(after[x] == before[x]);
                                    assert(m.contains_key(before[x].id));
                                    assert(before[x].id != before[j as int].id);
                                }
                            }
                        },
                        None => {
                            assert forall|x: int| 0 <= x < before.len() implies before[x].id
                                != id@ by {
                                assert(before[x] == old_out@[x]@);
                            }
                            out.push(e);
                            let ghost after = entry_views(out@);
                            assert(after =~= before.push(e@));
                            assert forall|k: Seq<char>| #[trigger]
                                m2.contains_key(k) implies exists|x: int|
                                0 <= x < after.len() && after[x].id == k by {
                                if k == id@ {
                                    assert(after[before.len() as int].id == k);
                                } else {
                                    let x = choose|x: int|
                                        0 <= x < before.len() && before[x].id == k;
                                    assert(after[x].id == k);
                                }
                            }
                            assert(ids_unique(after));
                            assert(forall|x: int|
                                0 <= x < after.len() ==> #[trigger] m2.contains_key(after[x].id)
                                    && m2[after[x].id] == (after[x].name, after[x].address));
                        },
                    }
                    assert(snapshot_upto(ls, avs, (i + 1) as nat) == m2);
                }
            }
        }
        i = i + 1;
    }
    out
}

} // verus!
