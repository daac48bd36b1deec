//! The routes of the control plane.

use vstd::prelude::*;

verus! {

/// The methods and paths that the control plane serves.
pub open spec fn routes() -> Seq<(&'static str, &'static str)> {
    seq![
        ("GET", "/v1/principals"),
        ("POST", "/v1/principals"),
        ("GET", "/v1/credentials"),
        ("POST", "/v1/credentials"),
        ("GET", "/v1/roles"),
        ("POST", "/v1/roles"),
        ("GET", "/v1/bindings"),
        ("POST", "/v1/bindings"),
        ("GET", "/v1/resources"),
        ("POST", "/v1/resources"),
        ("POST", "/v1/resources/{code}/discover"),
        ("GET", "/v1/constraints"),
        ("POST", "/v1/constraints"),
        ("GET", "/v1/conditions"),
        ("POST", "/v1/conditions"),
        ("GET", "/v1/deny-notes"),
        ("POST", "/v1/deny-notes"),
        ("GET", "/v1/settings"),
        ("POST", "/v1/settings"),
        ("POST", "/v1/grants/temp/elevate"),
        ("POST", "/v1/grants/temp/revoke"),
        ("POST", "/v1/mode"),
        ("GET", "/v1/grants"),
        ("GET", "/v1/audit"),
        ("GET", "/v1/denials/summary"),
        ("POST", "/v1/approvals"),
        ("POST", "/v1/export"),
        ("POST", "/v1/import"),
        ("POST", "/v1/verify"),
        ("GET", "/v1/health"),
        ("POST", "/v1/shutdown"),
    ]
}

/// The methods and paths that the control plane serves.
pub fn control_routes() -> (list: Vec<(&'static str, &'static str)>)
    ensures
        list@ == routes(),
{
    let list: Vec<(&'static str, &'static str)> = vec![
        ("GET", "/v1/principals"),
        ("POST", "/v1/principals"),
        ("GET", "/v1/credentials"),
        ("POST", "/v1/credentials"),
        ("GET", "/v1/roles"),
        ("POST", "/v1/roles"),
        ("GET", "/v1/bindings"),
        ("POST", "/v1/bindings"),
        ("GET", "/v1/resources"),
        ("POST", "/v1/resources"),
        ("POST", "/v1/resources/{code}/discover"),
        ("GET", "/v1/constraints"),
        ("POST", "/v1/constraints"),
        ("GET", "/v1/conditions"),
        ("POST", "/v1/conditions"),
        ("GET", "/v1/deny-notes"),
        ("POST", "/v1/deny-notes"),
        ("GET", "/v1/settings"),
        ("POST", "/v1/settings"),
        ("POST", "/v1/grants/temp/elevate"),
        ("POST", "/v1/grants/temp/revoke"),
        ("POST", "/v1/mode"),
        ("GET", "/v1/grants"),
        ("GET", "/v1/audit"),
        ("GET", "/v1/denials/summary"),
        ("POST", "/v1/approvals"),
        ("POST", "/v1/export"),
        ("POST", "/v1/import"),
        ("POST", "/v1/verify"),
        ("GET", "/v1/health"),
        ("POST", "/v1/shutdown"),
    ];
    assert(list@ =~= routes());
    list
}

/// The control plane serves these thirty-one routes, each by one method, and no others.
pub proof fn routes_are_served_by_their_methods()
    ensures
        routes().len() == 31,
        routes()[0].0@ == "GET"@ && routes()[0].1@ == "/v1/principals"@,
        routes()[1].0@ == "POST"@ && routes()[1].1@ == "/v1/principals"@,
        routes()[2].0@ == "GET"@ && routes()[2].1@ == "/v1/credentials"@,
        routes()[3].0@ == "POST"@ && routes()[3].1@ == "/v1/credentials"@,
        routes()[4].0@ == "GET"@ && routes()[4].1@ == "/v1/roles"@,
        routes()[5].0@ == "POST"@ && routes()[5].1@ == "/v1/roles"@,
        routes()[6].0@ == "GET"@ && routes()[6].1@ == "/v1/bindings"@,
        routes()[7].0@ == "POST"@ && routes()[7].1@ == "/v1/bindings"@,
        routes()[8].0@ == "GET"@ && routes()[8].1@ == "/v1/resources"@,
        routes()[9].0@ == "POST"@ && routes()[9].1@ == "/v1/resources"@,
        routes()[10].0@ == "POST"@ && routes()[10].1@ == "/v1/resources/{code}/discover"@,
        routes()[11].0@ == "GET"@ && routes()[11].1@ == "/v1/constraints"@,
        routes()[12].0@ == "POST"@ && routes()[12].1@ == "/v1/constraints"@,
        routes()[13].0@ == "GET"@ && routes()[13].1@ == "/v1/conditions"@,
        routes()[14].0@ == "POST"@ && routes()[14].1@ == "/v1/conditions"@,
        routes()[15].0@ == "GET"@ && routes()[15].1@ == "/v1/deny-notes"@,
        routes()[16].0@ == "POST"@ && routes()[16].1@ == "/v1/deny-notes"@,
        routes()[17].0@ == "GET"@ && routes()[17].1@ == "/v1/settings"@,
        routes()[18].0@ == "POST"@ && routes()[18].1@ == "/v1/settings"@,
        routes()[19].0@ == "POST"@ && routes()[19].1@ == "/v1/grants/temp/elevate"@,
        routes()[20].0@ == "POST"@ && routes()[20].1@ == "/v1/grants/temp/revoke"@,
        routes()[21].0@ == "POST"@ && routes()[21].1@ == "/v1/mode"@,
        routes()[22].0@ == "GET"@ && routes()[22].1@ == "/v1/grants"@,
        routes()[23].0@ == "GET"@ && routes()[23].1@ == "/v1/audit"@,
        routes()[24].0@ == "GET"@ && routes()[24].1@ == "/v1/denials/summary"@,
        routes()[25].0@ == "POST"@ && routes()[25].1@ == "/v1/approvals"@,
        routes()[26].0@ == "POST"@ && routes()[26].1@ == "/v1/export"@,
        routes()[27].0@ == "POST"@ && routes()[27].1@ == "/v1/import"@,
        routes()[28].0@ == "POST"@ && routes()[28].1@ == "/v1/verify"@,
        routes()[29].0@ == "GET"@ && routes()[29].1@ == "/v1/health"@,
        routes()[30].0@ == "POST"@ && routes()[30].1@ == "/v1/shutdown"@,
{
    let all = routes();
    assert(all[0] == ("GET", "/v1/principals"));
    assert(all[1] == ("POST", "/v1/principals"));
    assert(all[2] == ("GET", "/v1/credentials"));
    assert(all[3] == ("POST", "/v1/credentials"));
    assert(all[4] == ("GET", "/v1/roles"));
    assert(all[5] == ("POST", "/v1/roles"));
    assert(all[6] == ("GET", "/v1/bindings"));
    assert(all[7] == ("POST", "/v1/bindings"));
    assert(all[8] == ("GET", "/v1/resources"));
    assert(all[9] == ("POST", "/v1/resources"));
    assert(all[10] == ("POST", "/v1/resources/{code}/discover"));
    assert(all[11] == ("GET", "/v1/constraints"));
    assert(all[12] == ("POST", "/v1/constraints"));
    assert(all[13] == ("GET", "/v1/conditions"));
    assert(all[14] == ("POST", "/v1/conditions"));
    assert(all[15] == ("GET", "/v1/deny-notes"));
    assert(all[16] == ("POST", "/v1/deny-notes"));
    assert(all[17] == ("GET", "/v1/settings"));
    assert(all[18] == ("POST", "/v1/settings"));
    assert(all[19] == ("POST", "/v1/grants/temp/elevate"));
    assert(all[20] == ("POST", "/v1/grants/temp/revoke"));
    assert(all[21] == ("POST", "/v1/mode"));
    assert(all[22] == ("GET", "/v1/grants"));
    assert(all[23] == ("GET", "/v1/audit"));
    assert(all[24] == ("GET", "/v1/denials/summary"));
    assert(all[25] == ("POST", "/v1/approvals"));
    assert(all[26] == ("POST", "/v1/export"));
    assert(all[27] == ("POST", "/v1/import"));
    assert(all[28] == ("POST", "/v1/verify"));
    assert(all[29] == ("GET", "/v1/health"));
    assert(all[30] == ("POST", "/v1/shutdown"));
}

} // verus!
