//! Which lifecycle events of the runtime ask for a rebuild.

use vstd::prelude::*;
use vstd::string::*;

verus! {

/// The kind of object that an event of the runtime concerns, as far as the
/// rebuild cares.
pub enum EventKind {
    Container,
    Other,
}

/// An event asks for a rebuild when it concerns a container that started or died.
pub open spec fn asks_for_rebuild(kind: Option<EventKind>, action: Option<Seq<char>>) -> bool {
    &&& kind matches Some(EventKind::Container)
    &&& action is Some
    &&& (action->0 == "start"@ || action->0 == "die"@)
}

/// Whether an event of kind `kind` with action `action` asks for a rebuild:
/// a container that starts or dies does; nothing else does.
pub fn is_rebuild_trigger(kind: &Option<EventKind>, action: &Option<String>) -> (r: bool)
    ensures
        r == asks_for_rebuild(*kind, match action {
            Some(a) => Some(a@),
            None => None,
        }),
{
    match (kind, action) {
        (Some(EventKind::Container), Some(a)) => {
            let start = String::from_str("start");
            let die = String::from_str("die");
            *a == start || *a == die
        },
        _ => false,
    }
}

} // verus!
