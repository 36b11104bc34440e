//! The text of the hosts file.

use vstd::prelude::*;
use vstd::string::*;
use crate::snapshot::{entry_views, HostEntry, HostEntryView};

verus! {

/// The line written for one entry: `<address> <name>.<suffix>` and a newline.
pub open spec fn host_line(e: HostEntryView, suffix: Seq<char>) -> Seq<char> {
    e.address + seq![' '] + e.name + seq!['.'] + suffix + seq!['\n']
}

/// The whole file: one line per entry, in the order of the entries.
pub open spec fn hosts_text(es: Seq<HostEntryView>, suffix: Seq<char>) -> Seq<char>
    decreases es.len(),
{
    if es.len() == 0 {
        Seq::empty()
    } else {
        hosts_text(es.drop_last(), suffix) + host_line(es.last(), suffix)
    }
}

/// Appends the line of `e` to `out`.
pub fn push_host_line(out: &mut String, e: &HostEntry, suffix: &str)
    ensures
        final(out)@ == old(out)@ + host_line(e@, suffix@),
{
    proof {
        reveal_strlit(" ");
        reveal_strlit(".");
        reveal_strlit("\n");
    }
    out.append(e.address.as_str());
    out.append(" ");
    out.append(e.name.as_str());
    out.append(".");
    out.append(suffix);
    out.append("\n");
    assert(final(out)@ =~= old(out)@ + host_line(e@, suffix@));
}

/// The content of the hosts file for `entries`, each name followed by
/// `suffix` (given without a leading dot).
pub fn render_hosts(entries: &Vec<HostEntry>, suffix: &str) -> (r: String)
    ensures
        r@ == hosts_text(entry_views(entries@), suffix@),
{
    let ghost es = entry_views(entries@);
    let mut out = String::new();
    let mut i: usize = 0;
    while i < entries.len()
        invariant
            i <= entries@.len(),
            es == entry_views(entries@),
            out@ == hosts_text(es.subrange(0, i as int), suffix@),
        decreases entries@.len() - i,
    {
        push_host_line(&mut out, &entries[i], suffix);
        assert(es.subrange(0, i + 1).drop_last() =~= es.subrange(0, i as int));
        assert(es.subrange(0, i + 1).last() == entries@[i as int]@);
        i = i + 1;
    }
    assert(es.subrange(0, i as int) =~= es);
    out
}

} // verus!
