//! Local processes: known by the uid and gid that the kernel reports.

use super::{first_live, first_live_match_decides, without_a_match_nothing_is_told, Search};
use crate::domain::{AuthError, ConnOrigin, CredentialMeta};
use crate::text::{
    chars_of, copy_chars, decimal, decimal_is_made_of_digits, decimal_is_read_where_it_fits,
    find_next, first_is_found, is_space, next_at, next_is_the_first, number_in, parse_number,
    same_chars, same_text, surrounding_white_space_is_removed, text_without_white_space_is_kept,
    trim, trimmed,
};
use vstd::prelude::*;

verus! {

/// The kind of this authenticator.
pub const KIND: &'static str = "local_process";

/// A rule on uid and gid: `uid=<number>`, and optionally `gid=<number>`, separated
/// by a comma.
#[derive(Clone, Copy, Debug, PartialEq, Eq, Structural)]
pub struct UidRule {
    pub uid: u32,
    pub gid: Option<u32>,
}

/// A rule in the making.
#[derive(Clone, Copy, Debug, PartialEq, Eq, Structural)]
pub struct Draft {
    pub uid: Option<u32>,
    pub gid: Option<u32>,
}

/// A draft with one more part, which is a pair of `uid` or `gid` and a number. White
/// space around a part, a key and a value does not count, and neither does an empty
/// part.
pub open spec fn with_part(draft: Draft, raw: Seq<char>) -> Option<Draft> {
    let part = trimmed(raw);
    let eq = next_at(part, '=', 0);
    if part.len() == 0 {
        Some(draft)
    } else if eq >= part.len() {
        None
    } else {
        let key = trimmed(part.subrange(0, eq));
        match number_in(trimmed(part.skip(eq + 1))) {
            Some(value) => if key == "uid"@ {
                Some(Draft { uid: Some(value), ..draft })
            } else if key == "gid"@ {
                Some(Draft { gid: Some(value), ..draft })
            } else {
                None
            },
            None => None,
        }
    }
}

/// A draft with the parts of a text from `from` on.
pub open spec fn drafted(draft: Draft, s: Seq<char>, from: int) -> Option<Draft>
    decreases s.len() - from,
{
    let end = next_at(s, ',', from);
    match with_part(draft, s.subrange(from, end)) {
        Some(next) => if from <= end < s.len() {
            drafted(next, s, end + 1)
        } else {
            Some(next)
        },
        None => None,
    }
}

/// The rule that a text spells, if it spells one. A rule names a uid.
pub open spec fn rule_in(s: Seq<char>) -> Option<UidRule> {
    match drafted(Draft { uid: None, gid: None }, s, 0) {
        Some(Draft { uid: Some(uid), gid }) => Some(UidRule { uid, gid }),
        _ => None,
    }
}

fn add_part(draft: Draft, raw: &Vec<char>) -> (next: Option<Draft>)
    ensures
        next == with_part(draft, raw@),
{
    let part = trim(raw);
    if part.len() == 0 {
        return Some(draft);
    }
    let eq: usize = find_next(&part, '=', 0);
    if eq >= part.len() {
        return None;
    }
    let raw_key = copy_chars(&part, 0, eq);
    let raw_value = copy_chars(&part, eq + 1, part.len());
    assert(raw_value@ =~= part@.skip(eq + 1));
    let key = trim(&raw_key);
    let value_text = trim(&raw_value);
    let value: u32 = match parse_number(value_text.as_slice()) {
        Some(value) => value,
        None => {
            return None;
        },
    };
    let uid_key = chars_of("uid");
    let gid_key = chars_of("gid");
    if same_chars(&key, &uid_key) {
        Some(Draft { uid: Some(value), gid: draft.gid })
    } else if same_chars(&key, &gid_key) {
        Some(Draft { uid: draft.uid, gid: Some(value) })
    } else {
        None
    }
}

impl UidRule {
    /// Reads a rule from a text.
    pub fn parse(spec: &str) -> (rule: Option<Self>)
        ensures
            rule == rule_in(spec@),
    {
        let s = chars_of(spec);
        let mut draft = Draft { uid: None, gid: None };
        let mut from: usize = 0;
        loop
            invariant_except_break
                from <= s@.len(),
                s@ == spec@,
                drafted(Draft { uid: None, gid: None }, s@, 0) == drafted(draft, s@, from as int),
            ensures
                s@ == spec@,
                drafted(Draft { uid: None, gid: None }, s@, 0) == Some(draft),
            decreases s@.len() - from,
        {
            let end: usize = find_next(&s, ',', from);
            let part = copy_chars(&s, from, end);
            match add_part(draft, &part) {
                Some(next) => {
                    draft = next;
                },
                None => {
                    return None;
                },
            }
            if end >= s.len() {
                break;
            }
            from = end + 1;
        }
        match draft.uid {
            Some(uid) => Some(UidRule { uid, gid: draft.gid }),
            None => None,
        }
    }

    /// Whether a uid and a gid satisfy the rule.
    pub open spec fn holds(self, uid: u32, gid: u32) -> bool {
        uid == self.uid && (self.gid is Some ==> self.gid == Some(gid))
    }

    /// Whether a uid and a gid satisfy the rule.
    pub fn matches(&self, observed_uid: u32, observed_gid: u32) -> (yes: bool)
        ensures
            yes == self.holds(observed_uid, observed_gid),
            yes ==> observed_uid == self.uid,
            self.gid matches Some(gid) ==> yes == (observed_uid == self.uid && observed_gid == gid),
            self.gid is None ==> yes == (observed_uid == self.uid),
    {
        if observed_uid != self.uid {
            return false;
        }
        match self.gid {
            Some(want) => observed_gid == want,
            None => true,
        }
    }
}

/// Whether a credential is a rule that a uid and a gid satisfy.
pub open spec fn fits(meta: CredentialMeta, uid: u32, gid: u32) -> bool {
    &&& meta.kind@ == KIND@
    &&& rule_in(meta.secret_hash@) matches Some(rule) && rule.holds(uid, gid)
}

/// Which credentials are rules that a uid and a gid satisfy.
pub open spec fn fitting(creds: Seq<CredentialMeta>, uid: u32, gid: u32) -> Seq<bool> {
    Seq::new(creds.len(), |i: int| fits(creds[i], uid, gid))
}

/// The authenticator of local processes.
#[derive(Clone, Copy, Debug, PartialEq, Eq, Structural)]
pub struct LocalProcessAuthenticator {}

impl LocalProcessAuthenticator {
    /// The kind under which the authenticator is registered.
    pub fn kind(&self) -> (kind: &'static str)
        ensures
            kind@ == KIND@,
            kind@ == "local_process"@,
    {
        KIND
    }

    /// Authenticates a peer by its uid and gid: some rule has to fit that is live. A
    /// peer that is not local has neither.
    pub fn authenticate(&self, origin: &ConnOrigin, creds: &Vec<CredentialMeta>, now: u64) -> (result:
        Result<u64, AuthError>)
        ensures
            result == match *origin {
                ConnOrigin::UnixPeer { uid, gid } => first_live(
                    creds@,
                    fitting(creds@, uid, gid),
                    now,
                    None,
                ),
                ConnOrigin::Tcp { .. } => Err(AuthError::UndeterminableOrigin),
            },
    {
        let (uid, gid) = match origin {
            ConnOrigin::UnixPeer { uid, gid } => (*uid, *gid),
            ConnOrigin::Tcp { .. } => {
                return Err(AuthError::UndeterminableOrigin);
            },
        };
        let ghost matching = fitting(creds@, uid, gid);
        let mut search = Search::new();
        let mut i: usize = 0;
        assert(creds@.skip(0) =~= creds@);
        assert(matching.skip(0) =~= matching);
        while i < creds.len()
            invariant
                i <= creds@.len(),
                matching == fitting(creds@, uid, gid),
                *origin == (ConnOrigin::UnixPeer { uid, gid }),
                search.found is None,
                first_live(creds@, matching, now, None) == first_live(
                    creds@.skip(i as int),
                    matching.skip(i as int),
                    now,
                    search.lapsed,
                ),
            decreases creds@.len() - i,
        {
            proof {
                assert(creds@.skip(i as int).skip(1) =~= creds@.skip(i + 1));
                assert(matching.skip(i as int).skip(1) =~= matching.skip(i + 1));
            }
            let meta = &creds[i];
            let mut fitting_rule: bool = false;
            if same_text(meta.kind.as_str(), KIND) {
                if let Some(rule) = UidRule::parse(meta.secret_hash.as_str()) {
                    fitting_rule = rule.matches(uid, gid);
                }
            }
            if fitting_rule {
                search.take(meta, now);
                if let Some(principal) = search.found {
                    return Ok(principal);
                }
            }
            i = i + 1;
        }
        Err(search.failure())
    }
}

/// A rule that cannot be read, such as one without a uid, fits no one.
pub proof fn unreadable_rule_fits_no_one(meta: CredentialMeta, uid: u32, gid: u32)
    requires
        rule_in(meta.secret_hash@) is None,
    ensures
        !fits(meta, uid, gid),
{
}

/// A peer passes by the first rule for local processes that names its uid and, if it
/// names a gid at all, its gid, where that rule has not ended.
pub proof fn peer_passes_by_its_own_uid_and_gid(
    creds: Seq<CredentialMeta>,
    uid: u32,
    gid: u32,
    now: u64,
    i: int,
)
    requires
        0 <= i < creds.len(),
        creds[i].kind@ == "local_process"@,
        rule_in(creds[i].secret_hash@) is Some,
        rule_in(creds[i].secret_hash@)->0.uid == uid,
        rule_in(creds[i].secret_hash@)->0.gid is None || rule_in(creds[i].secret_hash@)->0.gid
            == Some(gid),
        creds[i].expires_at matches Some(end) ==> now < end,
        creds[i].revoked_at matches Some(end) ==> now < end,
        forall|j: int|
            0 <= j < i ==> (#[trigger] creds[j]).kind@ != "local_process"@ || rule_in(
                creds[j].secret_hash@,
            ) is None || rule_in(creds[j].secret_hash@)->0.uid != uid || (rule_in(
                creds[j].secret_hash@,
            )->0.gid is Some && rule_in(creds[j].secret_hash@)->0.gid->0 != gid),
    ensures
        first_live(creds, fitting(creds, uid, gid), now, None) == Ok::<_, AuthError>(
            creds[i].principal,
        ),
{
    let matching = fitting(creds, uid, gid);
    assert forall|j: int| 0 <= j < i && #[trigger] matching[j] implies (
    creds[j].expires_at matches Some(end) && end <= now) || (creds[j].revoked_at matches Some(end)
        && end <= now) by {
        assert(fits(creds[j], uid, gid));
    }
    first_live_match_decides(creds, matching, now, None, i);
}

/// A peer whose uid no rule names is refused, and so is one that has the uid of a rule
/// but not the gid that the rule names.
pub proof fn other_uid_or_gid_is_refused(
    creds: Seq<CredentialMeta>,
    uid: u32,
    gid: u32,
    now: u64,
)
    requires
        forall|j: int|
            0 <= j < creds.len() ==> (#[trigger] creds[j]).kind@ != "local_process"@ || rule_in(
                creds[j].secret_hash@,
            ) is None || rule_in(creds[j].secret_hash@)->0.uid != uid || (rule_in(
                creds[j].secret_hash@,
            )->0.gid is Some && rule_in(creds[j].secret_hash@)->0.gid->0 != gid),
    ensures
        first_live(creds, fitting(creds, uid, gid), now, None) == Err::<u64, _>(
            AuthError::InvalidCredential,
        ),
{
    let matching = fitting(creds, uid, gid);
    assert forall|j: int| 0 <= j < creds.len() implies !#[trigger] matching[j] by {
        assert(!fits(creds[j], uid, gid));
    }
    without_a_match_nothing_is_told(creds, matching, now);
}

/// A rule is satisfied by its own uid and gid and by no other; one without a gid is
/// satisfied by its uid with any gid.
pub proof fn rule_holds_for_its_own_numbers(rule: UidRule, uid: u32, gid: u32)
    ensures
        rule.gid is Some ==> (rule.holds(uid, gid) <==> uid == rule.uid && gid == rule.gid->0),
        rule.gid is None ==> (rule.holds(uid, gid) <==> uid == rule.uid),
{
}

/// A uid alone, a uid and a gid, and a gid and a uid are read as they are written.
pub proof fn written_rules_are_read_back(uid: u32, gid: u32)
    ensures
        rule_in("uid"@ + seq!['='] + decimal(uid as nat)) == Some(UidRule { uid, gid: None }),
        rule_in(
            "uid"@ + seq!['='] + decimal(uid as nat) + seq![','] + ("gid"@ + seq!['='] + decimal(
                gid as nat,
            )),
        ) == Some(UidRule { uid, gid: Some(gid) }),
        rule_in(
            "gid"@ + seq!['='] + decimal(gid as nat) + seq![','] + ("uid"@ + seq!['='] + decimal(
                uid as nat,
            )),
        ) == Some(UidRule { uid, gid: Some(gid) }),
        rule_in("gid"@ + seq!['='] + decimal(gid as nat)) is None,
        rule_in(Seq::empty()) is None,
{
    let none = Draft { uid: None, gid: None };
    let u = "uid"@ + seq!['='] + decimal(uid as nat);
    let g = "gid"@ + seq!['='] + decimal(gid as nat);
    lemma_written_part(none, uid);
    lemma_written_part(none, gid);
    lemma_written_part(Draft { uid: Some(uid), gid: None }, gid);
    lemma_written_part(Draft { uid: None, gid: Some(gid) }, uid);
    lemma_parts(none, u);
    lemma_parts(none, g);
    lemma_two_parts(none, Draft { uid: Some(uid), gid: None }, u, g);
    lemma_two_parts(none, Draft { uid: None, gid: Some(gid) }, g, u);
    assert(Seq::<char>::empty().subrange(0, 0) =~= Seq::<char>::empty());
}

proof fn lemma_written_part(draft: Draft, n: u32)
    ensures
        with_part(draft, "uid"@ + seq!['='] + decimal(n as nat)) == Some(
            Draft { uid: Some(n), ..draft },
        ),
        with_part(draft, "gid"@ + seq!['='] + decimal(n as nat)) == Some(
            Draft { gid: Some(n), ..draft },
        ),
        forall|i: int|
            0 <= i < ("uid"@ + seq!['='] + decimal(n as nat)).len() ==> #[trigger] ("uid"@ + seq![
                '=',
            ] + decimal(n as nat))[i] != ',',
        forall|i: int|
            0 <= i < ("gid"@ + seq!['='] + decimal(n as nat)).len() ==> #[trigger] ("gid"@ + seq![
                '=',
            ] + decimal(n as nat))[i] != ',',
{
    reveal_strlit("uid");
    reveal_strlit("gid");
    assert("uid"@[0] == 'u' && "gid"@[0] == 'g');
    decimal_is_made_of_digits(n as nat);
    decimal_is_read_where_it_fits(n as nat);
    lemma_pair(draft, "uid"@, decimal(n as nat));
    lemma_pair(draft, "gid"@, decimal(n as nat));
}

/// A key and a value without white space are taken as they stand.
proof fn lemma_pair(draft: Draft, key: Seq<char>, value: Seq<char>)
    requires
        forall|i: int| 0 <= i < key.len() ==> !is_space(#[trigger] key[i]) && key[i] != '=',
        forall|i: int| 0 <= i < value.len() ==> !is_space(#[trigger] value[i]),
    ensures
        with_part(draft, key + seq!['='] + value) == (match number_in(value) {
            Some(n) => if key == "uid"@ {
                Some(Draft { uid: Some(n), ..draft })
            } else if key == "gid"@ {
                Some(Draft { gid: Some(n), ..draft })
            } else {
                None
            },
            None => None,
        }),
{
    let part = key + seq!['='] + value;
    let eq = key.len() as int;
    assert forall|i: int| 0 <= i < part.len() implies !is_space(#[trigger] part[i]) by {
        if i < eq {
            assert(part[i] == key[i]);
        } else if i > eq {
            assert(part[i] == value[i - eq - 1]);
        }
    }
    assert forall|i: int| 0 <= i < eq implies part[i] != '=' by {
        assert(part[i] == key[i]);
    }
    text_without_white_space_is_kept(part);
    first_is_found(part, '=', 0, eq);
    assert(part.subrange(0, eq) =~= key);
    assert(part.skip(eq + 1) =~= value);
    text_without_white_space_is_kept(key);
    text_without_white_space_is_kept(value);
}

/// A text without a comma is one part.
proof fn lemma_parts(draft: Draft, part: Seq<char>)
    requires
        forall|i: int| 0 <= i < part.len() ==> #[trigger] part[i] != ',',
    ensures
        drafted(draft, part, 0) == with_part(draft, part),
{
    first_is_found(part, ',', 0, part.len() as int);
    assert(part.subrange(0, part.len() as int) =~= part);
}

/// Two parts with a comma between them are taken one after the other.
proof fn lemma_two_parts(draft: Draft, next: Draft, one: Seq<char>, other: Seq<char>)
    requires
        forall|i: int| 0 <= i < one.len() ==> #[trigger] one[i] != ',',
        forall|i: int| 0 <= i < other.len() ==> #[trigger] other[i] != ',',
        with_part(draft, one) == Some(next),
    ensures
        drafted(draft, one + seq![','] + other, 0) == with_part(next, other),
{
    let whole = one + seq![','] + other;
    let at = one.len() as int;
    assert forall|i: int| 0 <= i < at implies whole[i] != ',' by {
        assert(whole[i] == one[i]);
    }
    assert forall|i: int| at + 1 <= i < whole.len() implies whole[i] != ',' by {
        assert(whole[i] == other[i - at - 1]);
    }
    first_is_found(whole, ',', 0, at);
    first_is_found(whole, ',', at + 1, whole.len() as int);
    assert(whole.subrange(0, at) =~= one);
    assert(whole.subrange(at + 1, whole.len() as int) =~= other);
    assert(drafted(next, whole, at + 1) == with_part(next, other));
}

/// A part of a rule is a key and a number with an equals sign between them, each within any
/// white space. The key `uid` sets the uid and the key `gid` the gid, over what an earlier
/// part set; any other key and anything that is no number spoil the rule.
pub proof fn parts_set_the_uid_or_the_gid(
    draft: Draft,
    a: Seq<char>,
    key: Seq<char>,
    b: Seq<char>,
    c: Seq<char>,
    value: Seq<char>,
    d: Seq<char>,
)
    requires
        forall|i: int| 0 <= i < a.len() ==> is_space(#[trigger] a[i]),
        forall|i: int| 0 <= i < b.len() ==> is_space(#[trigger] b[i]),
        forall|i: int| 0 <= i < c.len() ==> is_space(#[trigger] c[i]),
        forall|i: int| 0 <= i < d.len() ==> is_space(#[trigger] d[i]),
        key.len() > 0,
        value.len() > 0,
        forall|i: int| 0 <= i < key.len() ==> !is_space(#[trigger] key[i]) && key[i] != '=',
        forall|i: int| 0 <= i < value.len() ==> !is_space(#[trigger] value[i]),
    ensures
        with_part(draft, a + (key + b + seq!['='] + c + value) + d) == (match number_in(value) {
            Some(n) => if key == "uid"@ {
                Some(Draft { uid: Some(n), gid: draft.gid })
            } else if key == "gid"@ {
                Some(Draft { uid: draft.uid, gid: Some(n) })
            } else {
                None
            },
            None => None,
        }),
{
    let part = key + b + seq!['='] + c + value;
    let eq = (key.len() + b.len()) as int;
    assert(part[0] == key[0]);
    assert(part[part.len() - 1] == value[value.len() - 1]);
    surrounding_white_space_is_removed(a, part, d);
    assert forall|i: int| 0 <= i < eq implies part[i] != '=' by {
        if i < key.len() {
            assert(part[i] == key[i]);
        } else {
            assert(part[i] == b[i - key.len()]);
        }
    }
    first_is_found(part, '=', 0, eq);
    let none = Seq::<char>::empty();
    assert(part.subrange(0, eq) =~= none + key + b);
    surrounding_white_space_is_removed(none, key, b);
    assert(part.skip(eq + 1) =~= c + value + none);
    surrounding_white_space_is_removed(c, value, none);
}

/// White space alone is no part and changes nothing, and a part without an equals sign
/// spoils the rule.
pub proof fn other_parts_are_empty_or_spoil_the_rule(draft: Draft, blank: Seq<char>, raw: Seq<char>)
    ensures
        (forall|i: int| 0 <= i < blank.len() ==> is_space(#[trigger] blank[i])) ==> with_part(
            draft,
            blank,
        ) == Some(draft),
        raw.len() > 0 && (forall|i: int|
            0 <= i < raw.len() ==> !is_space(#[trigger] raw[i]) && raw[i] != '=') ==> with_part(
            draft,
            raw,
        ) is None,
{
    let none = Seq::<char>::empty();
    if forall|i: int| 0 <= i < blank.len() ==> is_space(#[trigger] blank[i]) {
        surrounding_white_space_is_removed(blank, none, none);
        assert(blank + none + none =~= blank);
    }
    if raw.len() > 0 && (forall|i: int|
        0 <= i < raw.len() ==> !is_space(#[trigger] raw[i]) && raw[i] != '=') {
        text_without_white_space_is_kept(raw);
        first_is_found(raw, '=', 0, raw.len() as int);
    }
}

/// A rule is read part by part, from comma to comma: a text without a comma is one part, and
/// what stands behind a comma goes on from what the part before it made.
pub proof fn rules_are_read_part_by_part(draft: Draft, part: Seq<char>, rest: Seq<char>)
    requires
        forall|i: int| 0 <= i < part.len() ==> #[trigger] part[i] != ',',
    ensures
        drafted(draft, part, 0) == with_part(draft, part),
        drafted(draft, part + seq![','] + rest, 0) == (match with_part(draft, part) {
            Some(next) => drafted(next, rest, 0),
            None => None,
        }),
{
    lemma_parts(draft, part);
    let whole = part + seq![','] + rest;
    let at = part.len() as int;
    assert forall|i: int| 0 <= i < at implies whole[i] != ',' by {
        assert(whole[i] == part[i]);
    }
    first_is_found(whole, ',', 0, at);
    assert(whole.subrange(0, at) =~= part);
    if let Some(next) = with_part(draft, part) {
        lemma_drafted_rest(next, whole, at + 1, at + 1);
        assert(whole.skip(at + 1) =~= rest);
    }
}

/// What is drafted from a position on depends on the text from there on alone.
proof fn lemma_drafted_rest(draft: Draft, s: Seq<char>, cut: int, from: int)
    requires
        0 <= cut <= from <= s.len(),
    ensures
        drafted(draft, s, from) == drafted(draft, s.skip(cut), from - cut),
    decreases s.len() - from,
{
    let rest = s.skip(cut);
    next_is_the_first(s, ',', from);
    let end = next_at(s, ',', from);
    assert forall|j: int| from - cut <= j < end - cut implies rest[j] != ',' by {
        assert(rest[j] == s[j + cut]);
    }
    first_is_found(rest, ',', from - cut, end - cut);
    assert(rest.subrange(from - cut, end - cut) =~= s.subrange(from, end));
    if end < s.len() {
        if let Some(next) = with_part(draft, s.subrange(from, end)) {
            lemma_drafted_rest(next, s, cut, end + 1);
        }
    }
}

/// A rule needs a uid; the gid may be missing.
pub proof fn rules_need_a_uid(s: Seq<char>, uid: u32, gid: Option<u32>)
    ensures
        drafted(Draft { uid: None, gid: None }, s, 0) == Some(Draft { uid: Some(uid), gid })
            ==> rule_in(s) == Some(UidRule { uid, gid }),
        drafted(Draft { uid: None, gid: None }, s, 0) == Some(Draft { uid: None, gid })
            ==> rule_in(s) is None,
        drafted(Draft { uid: None, gid: None }, s, 0) is None ==> rule_in(s) is None,
{
}

} // verus!
