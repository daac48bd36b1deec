//! The entrances of the data plane.
//!
//! An entrance carries a request in and a response out; it reads neither. Where a
//! request comes from is observed by the daemon and never taken from the request.

pub mod http;
pub mod mcp;

use crate::domain::{
    copy_bytes, Capability, ConnOrigin, GrantAction, GrantCell, NormalizedRequest, PolicySnapshot,
    PresentedCredential, PrincipalGrants,
};
use vstd::prelude::*;
use vstd::string::StringSliceAdditionalSpecFns;

verus! {

/// The tools that are offered, whatever is granted.
pub open spec fn tool_names() -> Seq<&'static str> {
    seq![
        "postern_grants",
        "postern_query",
        "observe",
        "mutate",
        "execute",
        "manage",
        "destroy",
        "postern_surface",
    ]
}

/// What is said to a request that cannot be read.
pub const INVALID_REQUEST_SAFE_MESSAGE: &'static str = "invalid request";

/// One thing that a principal may do.
#[derive(Debug)]
pub struct SurfaceEntry {
    pub resource: String,
    pub capability: Capability,
}

/// Makes a request of what was presented, from where, at what and with what.
pub fn box_request(
    presented: PresentedCredential,
    origin: ConnOrigin,
    resource: String,
    intent_bytes: Vec<u8>,
) -> (request: NormalizedRequest)
    ensures
        request.presented == presented,
        request.origin == origin,
        request.resource == resource,
        request.intent == intent_bytes,
{
    NormalizedRequest { presented, origin, resource, intent: intent_bytes }
}

/// The cells of a principal: those of the first entry for it.
pub open spec fn cells_of(grants: Seq<PrincipalGrants>, principal: u64) -> Seq<GrantCell>
    decreases grants.len(),
{
    if grants.len() == 0 {
        Seq::empty()
    } else if grants[0].principal == principal {
        grants[0].cells@
    } else {
        cells_of(grants.skip(1), principal)
    }
}

/// What some cells allow outright, in order.
pub open spec fn allowed_by(cells: Seq<GrantCell>) -> Seq<(Seq<char>, Capability)>
    decreases cells.len(),
{
    if cells.len() == 0 {
        Seq::empty()
    } else {
        let cell = cells.last();
        let before = allowed_by(cells.drop_last());
        if cell.action == GrantAction::Allow {
            before.push((cell.resource@, cell.capability))
        } else {
            before
        }
    }
}

/// What some entries say.
pub open spec fn entries(list: Seq<SurfaceEntry>) -> Seq<(Seq<char>, Capability)> {
    list.map_values(|e: SurfaceEntry| (e.resource@, e.capability))
}

fn allowed_entries(cells: &Vec<GrantCell>) -> (list: Vec<SurfaceEntry>)
    ensures
        entries(list@) == allowed_by(cells@),
{
    let mut list: Vec<SurfaceEntry> = Vec::new();
    let mut i: usize = 0;
    assert(entries(list@) =~= Seq::<(Seq<char>, Capability)>::empty());
    while i < cells.len()
        invariant
            i <= cells@.len(),
            entries(list@) == allowed_by(cells@.take(i as int)),
        decreases cells@.len() - i,
    {
        assert(cells@.take(i + 1).drop_last() =~= cells@.take(i as int));
        assert(cells@.take(i + 1).last() == cells@[i as int]);
        let cell = &cells[i];
        if cell.action == GrantAction::Allow {
            let ghost before = list@;
            list.push(SurfaceEntry { resource: cell.resource.clone(), capability: cell.capability });
            assert(entries(list@) =~= entries(before).push((cell.resource@, cell.capability)));
        }
        i = i + 1;
    }
    assert(cells@.take(cells@.len() as int) =~= cells@);
    list
}

/// What a principal may do by the policy in force: its cells that allow, and none of
/// those that ask for a person's consent. A principal without grants may do nothing.
pub fn surface(snapshot: &PolicySnapshot, principal: u64) -> (list: Vec<SurfaceEntry>)
    ensures
        entries(list@) == allowed_by(cells_of(snapshot.grants@, principal)),
{
    let mut i: usize = 0;
    assert(snapshot.grants@.skip(0) =~= snapshot.grants@);
    while i < snapshot.grants.len()
        invariant
            i <= snapshot.grants@.len(),
            cells_of(snapshot.grants@, principal) == cells_of(
                snapshot.grants@.skip(i as int),
                principal,
            ),
        decreases snapshot.grants@.len() - i,
    {
        assert(snapshot.grants@.skip(i as int).skip(1) =~= snapshot.grants@.skip(i + 1));
        if snapshot.grants[i].principal == principal {
            return allowed_entries(&snapshot.grants[i].cells);
        }
        i = i + 1;
    }
    let none: Vec<SurfaceEntry> = Vec::new();
    assert(entries(none@) =~= Seq::<(Seq<char>, Capability)>::empty());
    none
}

/// What is on the surface is what some cell of the principal allows.
pub proof fn surface_shows_only_grants(
    cells: Seq<GrantCell>,
    resource: Seq<char>,
    capability: Capability,
)
    ensures
        allowed_by(cells).contains((resource, capability)) <==> exists|i: int|
            0 <= i < cells.len() && (#[trigger] cells[i]).resource@ == resource
                && cells[i].capability == capability && cells[i].action == GrantAction::Allow,
    decreases cells.len(),
{
    if cells.len() > 0 {
        let rest = cells.drop_last();
        let before = allowed_by(rest);
        surface_shows_only_grants(rest, resource, capability);
        let all = allowed_by(cells);
        if cells.last().action == GrantAction::Allow {
            assert(all[before.len() as int] == (cells.last().resource@, cells.last().capability));
            if before.contains((resource, capability)) {
                let m = choose|m: int|
                    0 <= m < before.len() && before[m] == (resource, capability);
                assert(all[m] == (resource, capability));
            }
        }
        if exists|i: int|
            0 <= i < cells.len() && (#[trigger] cells[i]).resource@ == resource
                && cells[i].capability == capability && cells[i].action == GrantAction::Allow {
            let i = choose|i: int|
                0 <= i < cells.len() && (#[trigger] cells[i]).resource@ == resource
                    && cells[i].capability == capability && cells[i].action == GrantAction::Allow;
            if i < rest.len() {
                assert(rest[i] == cells[i]);
            }
        }
        if all.contains((resource, capability)) {
            if before.contains((resource, capability)) {
                let i = choose|i: int|
                    0 <= i < rest.len() && (#[trigger] rest[i]).resource@ == resource
                        && rest[i].capability == capability && rest[i].action
                        == GrantAction::Allow;
                assert(cells[i] == rest[i]);
            } else {
                let m = choose|m: int| 0 <= m < all.len() && all[m] == (resource, capability);
                assert(m == before.len());
                assert(cells[cells.len() - 1].resource@ == resource);
            }
        }
    }
}

/// The bytes that answer a request that cannot be read, before the exit filter. They
/// do not depend on the request.
pub fn invalid_request_egress() -> (payload: Vec<u8>)
    ensures
        payload@ == INVALID_REQUEST_SAFE_MESSAGE.spec_bytes(),
{
    copy_bytes(INVALID_REQUEST_SAFE_MESSAGE.as_bytes())
}

/// Eight tools are offered: one for the grants, one for each of the six capabilities, and
/// one for the surface.
pub proof fn eight_tools_are_offered()
    ensures
        tool_names().len() == 8,
        tool_names()[0]@ == "postern_grants"@,
        tool_names()[1]@ == "postern_query"@,
        tool_names()[2]@ == "observe"@,
        tool_names()[3]@ == "mutate"@,
        tool_names()[4]@ == "execute"@,
        tool_names()[5]@ == "manage"@,
        tool_names()[6]@ == "destroy"@,
        tool_names()[7]@ == "postern_surface"@,
{
    let names = tool_names();
    assert(names[0] == "postern_grants");
    assert(names[1] == "postern_query");
    assert(names[2] == "observe");
    assert(names[3] == "mutate");
    assert(names[4] == "execute");
    assert(names[5] == "manage");
    assert(names[6] == "destroy");
    assert(names[7] == "postern_surface");
}

/// The cells of a principal are those of the first entry under its own id; a principal
/// without an entry has none, whatever others have.
pub proof fn cells_are_those_of_the_principal(
    grants: Seq<PrincipalGrants>,
    principal: u64,
    i: int,
)
    requires
        0 <= i <= grants.len(),
        forall|j: int| 0 <= j < i ==> (#[trigger] grants[j]).principal != principal,
        i < grants.len() ==> grants[i].principal == principal,
    ensures
        i < grants.len() ==> cells_of(grants, principal) == grants[i].cells@,
        i == grants.len() ==> cells_of(grants, principal).len() == 0,
    decreases i,
{
    if i > 0 {
        assert(grants[0].principal != principal);
        assert forall|j: int| 0 <= j < i - 1 implies (#[trigger] grants.skip(1)[j]).principal
            != principal by {
            assert(grants[j + 1].principal != principal);
        }
        cells_are_those_of_the_principal(grants.skip(1), principal, i - 1);
    }
}

/// The surface lists what is allowed cell by cell and in order: one entry for a cell that
/// allows, none for one that asks for consent.
pub proof fn surface_is_listed_cell_by_cell(one: Seq<GrantCell>, other: Seq<GrantCell>, cell: GrantCell)
    ensures
        allowed_by(one + other) == allowed_by(one) + allowed_by(other),
        cell.action == GrantAction::Allow ==> allowed_by(seq![cell]) == seq![
            (cell.resource@, cell.capability),
        ],
        cell.action == GrantAction::Escalate ==> allowed_by(seq![cell]).len() == 0,
        allowed_by(Seq::empty()).len() == 0,
    decreases other.len(),
{
    assert(seq![cell].drop_last() =~= Seq::<GrantCell>::empty());
    assert(seq![cell].last() == cell);
    assert(allowed_by(Seq::<GrantCell>::empty()) =~= Seq::<(Seq<char>, Capability)>::empty());
    assert(allowed_by(seq![cell]) =~= if cell.action == GrantAction::Allow {
        seq![(cell.resource@, cell.capability)]
    } else {
        Seq::empty()
    });
    if other.len() == 0 {
        assert(one + other =~= one);
        assert(allowed_by(one) + allowed_by(other) =~= allowed_by(one));
    } else {
        surface_is_listed_cell_by_cell(one, other.drop_last(), cell);
        assert((one + other).drop_last() =~= one + other.drop_last());
        assert((one + other).last() == other.last());
        assert(allowed_by(one + other) =~= allowed_by(one) + allowed_by(other));
    }
}

/// A request that cannot be read is told no more than that.
pub proof fn unreadable_request_is_told_no_more()
    ensures
        INVALID_REQUEST_SAFE_MESSAGE@ == "invalid request"@,
{
}

/// An entry of the surface says its resource and its capability.
pub proof fn entries_say_resource_and_capability(list: Seq<SurfaceEntry>, i: int)
    requires
        0 <= i < list.len(),
    ensures
        entries(list).len() == list.len(),
        entries(list)[i].0 == list[i].resource@,
        entries(list)[i].1 == list[i].capability,
{
}

} // verus!
