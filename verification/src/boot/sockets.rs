//! Creating a socket: bind it, narrow its permissions, and only then listen.

use crate::error::DaemonError;
use crate::text::{
    chars_of, copy_chars, decimal, decimal_is_made_of_digits, decimal_is_read_where_it_fits, find_next,
    first_is_found, next_at, next_is_the_first, number_in, parse_number, same_chars,
};
use crate::witness::{StepTaken, Witnessed};
use vstd::prelude::*;

verus! {

/// A step in creating a socket.
#[derive(Clone, Copy, Debug, PartialEq, Eq, Structural)]
pub enum SocketSubStep {
    Bind,
    Secure,
    Listen,
}

/// The permissions of a socket.
#[derive(Clone, Copy, Debug, PartialEq, Eq, Structural)]
pub struct SockPerms {
    pub mode: u32,
    pub set_group: bool,
}

/// The permissions of the control socket: for its owner alone.
pub fn control_perms() -> (perms: SockPerms)
    ensures
        perms.mode == 0o600,
        !perms.set_group,
{
    SockPerms { mode: 0o600, set_group: false }
}

/// The permissions of the data socket: for its owner and a group.
pub fn data_perms() -> (perms: SockPerms)
    ensures
        perms.mode == 0o660,
        perms.set_group,
{
    SockPerms { mode: 0o660, set_group: true }
}

/// The effects of creating a socket.
pub trait SocketEffects {
    /// Binds the socket.
    fn bind(&self) -> Result<(), DaemonError>;

    /// Narrows the socket's permissions.
    fn secure(&self, perms: SockPerms) -> Result<(), DaemonError>;

    /// Starts listening.
    fn listen(&self) -> Result<(), DaemonError>;
}

/// The three steps, of which the last has come to `failure`.
pub open spec fn steps(perms: SockPerms, n: int, failure: Option<DaemonError>) -> Seq<StepTaken> {
    let bind = StepTaken { step: SocketSubStep::Bind, perms: None, failure: None };
    let secure = StepTaken { step: SocketSubStep::Secure, perms: Some(perms), failure: None };
    if n == 1 {
        seq![StepTaken { failure, ..bind }]
    } else if n == 2 {
        seq![bind, StepTaken { failure, ..secure }]
    } else {
        seq![bind, secure, StepTaken { step: SocketSubStep::Listen, perms: None, failure }]
    }
}

/// Binds a socket, narrows its permissions at once and then listens. A step that
/// fails is the last.
pub fn bind_then_secure_then_listen<E: SocketEffects>(
    eff: &mut Witnessed<E, StepTaken>,
    perms: SockPerms,
) -> (result: Result<(), DaemonError>)
    ensures
        final(eff).part() == old(eff).part(),
        match result {
            Ok(_) => final(eff).log() == old(eff).log() + steps(perms, 3, None),
            Err(e) => exists|n: int|
                1 <= n <= 3 && final(eff).log() == old(eff).log() + #[trigger] steps(
                    perms,
                    n,
                    Some(e),
                ),
        },
{
    let ghost before = eff.log();
    if let Err(e) = eff.bind() {
        assert(eff.log() =~= before + steps(perms, 1, Some(e)));
        return Err(e);
    }
    if let Err(e) = eff.secure(perms) {
        assert(eff.log() =~= before + steps(perms, 2, Some(e)));
        return Err(e);
    }
    if let Err(e) = eff.listen() {
        assert(eff.log() =~= before + steps(perms, 3, Some(e)));
        return Err(e);
    }
    assert(eff.log() =~= before + steps(perms, 3, None));
    Ok(())
}

/// A socket listens only after its permissions were narrowed.
pub proof fn no_listening_before_securing(
    perms: SockPerms,
    n: int,
    failure: Option<DaemonError>,
    i: int,
)
    requires
        1 <= n <= 3,
        0 <= i < steps(perms, n, failure).len(),
        steps(perms, n, failure)[i].step == SocketSubStep::Listen,
    ensures
        i == 2,
        steps(perms, n, failure)[1] == (StepTaken {
            step: SocketSubStep::Secure,
            perms: Some(perms),
            failure: None,
        }),
{
}

/// The line of a text that begins at `from`, without its line break: up to the next
/// line feed, and without a carriage return before it.
pub open spec fn line_at(s: Seq<char>, from: int) -> Seq<char> {
    let end = next_at(s, '\n', from);
    let line = s.subrange(from, end);
    if end < s.len() && line.len() > 0 && line.last() == '\r' {
        line.drop_last()
    } else {
        line
    }
}

/// The fields of a line of the group file, as far as they matter: name and gid.
/// None where there is no third field.
pub open spec fn group_fields(line: Seq<char>) -> Option<(Seq<char>, Seq<char>)> {
    let first = next_at(line, ':', 0);
    let second = next_at(line, ':', first + 1);
    if first < line.len() && second < line.len() {
        Some(
            (
                line.subrange(0, first),
                line.subrange(second + 1, next_at(line, ':', second + 1)),
            ),
        )
    } else {
        None
    }
}

/// The gid of a group in the lines from `from` on. The search ends at a line that
/// lacks a field, and at the first line of the group.
pub open spec fn gid_from(s: Seq<char>, from: int, name: Seq<char>) -> Option<u32>
    decreases s.len() - from,
{
    if from < 0 || from >= s.len() {
        None
    } else {
        let end = next_at(s, '\n', from);
        match group_fields(line_at(s, from)) {
            Some((group, gid)) => if group == name {
                number_in(gid)
            } else if end < from || end >= s.len() {
                None
            } else {
                gid_from(s, end + 1, name)
            },
            None => None,
        }
    }
}

/// Finds the gid of a group in the contents of the group file.
pub fn resolve_gid(contents: &str, name: &str) -> (gid: Option<u32>)
    ensures
        gid == gid_from(contents@, 0, name@),
{
    let s = chars_of(contents);
    let wanted = chars_of(name);
    let mut from: usize = 0;
    while from < s.len()
        invariant
            from <= s@.len(),
            wanted@ == name@,
            s@ == contents@,
            gid_from(s@, 0, name@) == gid_from(s@, from as int, name@),
        decreases s@.len() - from,
    {
        let end: usize = find_next(&s, '\n', from);
        let mut stop: usize = end;
        if end < s.len() && end > from && s[end - 1] == '\r' {
            stop = end - 1;
        }
        let line = copy_chars(&s, from, stop);
        assert(line@ =~= line_at(s@, from as int));
        let first: usize = find_next(&line, ':', 0);
        if first >= line.len() {
            return None;
        }
        let second: usize = find_next(&line, ':', first + 1);
        if second >= line.len() {
            return None;
        }
        let third: usize = find_next(&line, ':', second + 1);
        let group = copy_chars(&line, 0, first);
        if same_chars(&group, &wanted) {
            let gid = copy_chars(&line, second + 1, third);
            return parse_number(gid.as_slice());
        }
        if end >= s.len() {
            return None;
        }
        assert(gid_from(s@, from as int, name@) == gid_from(s@, end + 1, name@));
        from = end + 1;
    }
    None
}

/// The loopback address of a plane on a platform without local sockets: the one
/// that was configured, or the plane's default.
pub fn bind_addr_for(is_data: bool, configured: Option<String>) -> (addr: String)
    ensures
        addr@ == match configured {
            Some(addr) => addr@,
            None => if is_data {
                "127.0.0.1:7879"@
            } else {
                "127.0.0.1:7878"@
            },
        },
{
    match configured {
        Some(addr) => addr,
        None => if is_data {
            "127.0.0.1:7879".to_owned()
        } else {
            "127.0.0.1:7878".to_owned()
        },
    }
}

/// The group that a socket is given: the named one where its permissions ask for a
/// group. A group that cannot be found is a failure, not a socket without one.
pub fn socket_group(perms: SockPerms, group: Option<&str>, group_file: Option<&str>) -> (gid:
    Result<Option<u32>, DaemonError>)
    ensures
        gid == match group {
            Some(name) => if perms.set_group {
                match group_file {
                    Some(contents) => match gid_from(contents@, 0, name@) {
                        Some(gid) => Ok(Some(gid)),
                        None => Err(DaemonError::Listener),
                    },
                    None => Err(DaemonError::Listener),
                }
            } else {
                Ok(None)
            },
            None => Ok(None),
        },
{
    match group {
        Some(name) => {
            if !perms.set_group {
                return Ok(None);
            }
            match group_file {
                Some(contents) => match resolve_gid(contents, name) {
                    Some(gid) => Ok(Some(gid)),
                    None => Err(DaemonError::Listener),
                },
                None => Err(DaemonError::Listener),
            }
        },
        None => Ok(None),
    }
}

/// A socket is bound, then narrowed to the very permissions that were asked for, and then
/// listened on. Of several steps only the last can have failed.
pub proof fn steps_are_bind_secure_listen(
    perms: SockPerms,
    n: int,
    failure: Option<DaemonError>,
    i: int,
)
    requires
        1 <= n <= 3,
    ensures
        steps(perms, n, failure).len() == n,
        steps(perms, n, failure)[0].step == SocketSubStep::Bind,
        steps(perms, n, failure)[0].perms is None,
        n >= 2 ==> steps(perms, n, failure)[1].step == SocketSubStep::Secure && steps(
            perms,
            n,
            failure,
        )[1].perms == Some(perms),
        n == 3 ==> steps(perms, n, failure)[2].step == SocketSubStep::Listen && steps(
            perms,
            n,
            failure,
        )[2].perms is None,
        steps(perms, n, failure)[n - 1].failure == failure,
        0 <= i < n - 1 ==> steps(perms, n, failure)[i].failure is None,
{
}

/// What is found from a position on depends on the text from there on alone.
proof fn lemma_gid_rest(s: Seq<char>, cut: int, from: int, name: Seq<char>)
    requires
        0 <= cut <= from <= s.len(),
    ensures
        gid_from(s, from, name) == gid_from(s.skip(cut), from - cut, name),
    decreases s.len() - from,
{
    let rest = s.skip(cut);
    if from < s.len() {
        next_is_the_first(s, '\n', from);
        let end = next_at(s, '\n', from);
        assert forall|j: int| from - cut <= j < end - cut implies rest[j] != '\n' by {
            assert(rest[j] == s[j + cut]);
        }
        first_is_found(rest, '\n', from - cut, end - cut);
        assert(rest.subrange(from - cut, end - cut) =~= s.subrange(from, end));
        if end < s.len() {
            lemma_gid_rest(s, cut, end + 1, name);
        }
    }
}

proof fn lemma_first_line(line: Seq<char>, rest: Seq<char>)
    requires
        forall|i: int| 0 <= i < line.len() ==> #[trigger] line[i] != '\n',
        line.len() == 0 || line.last() != '\r',
    ensures
        next_at(line + seq!['\n'] + rest, '\n', 0) == line.len(),
        line_at(line + seq!['\n'] + rest, 0) == line,
{
    let s = line + seq!['\n'] + rest;
    assert forall|i: int| 0 <= i < line.len() implies s[i] != '\n' by {
        assert(s[i] == line[i]);
    }
    first_is_found(s, '\n', 0, line.len() as int);
    assert(s.subrange(0, line.len() as int) =~= line);
}

proof fn lemma_fields(group: Seq<char>, word: Seq<char>, gid: Seq<char>, members: Seq<char>)
    requires
        forall|i: int| 0 <= i < group.len() ==> #[trigger] group[i] != ':',
        forall|i: int| 0 <= i < word.len() ==> #[trigger] word[i] != ':',
        forall|i: int| 0 <= i < gid.len() ==> #[trigger] gid[i] != ':',
    ensures
        group_fields(group + seq![':'] + word + seq![':'] + gid + seq![':'] + members) == Some(
            (group, gid),
        ),
{
    let line = group + seq![':'] + word + seq![':'] + gid + seq![':'] + members;
    let first = group.len() as int;
    let second = first + 1 + word.len();
    let third = second + 1 + gid.len();
    assert forall|i: int| 0 <= i < first implies line[i] != ':' by {
        assert(line[i] == group[i]);
    }
    assert forall|i: int| first + 1 <= i < second implies line[i] != ':' by {
        assert(line[i] == word[i - first - 1]);
    }
    assert forall|i: int| second + 1 <= i < third implies line[i] != ':' by {
        assert(line[i] == gid[i - second - 1]);
    }
    first_is_found(line, ':', 0, first);
    first_is_found(line, ':', first + 1, second);
    first_is_found(line, ':', second + 1, third);
    assert(line.subrange(0, first) =~= group);
    assert(line.subrange(second + 1, third) =~= gid);
}

/// In a group file whose first line is that of a group, `group:word:gid:members`, the gid
/// of that group is the number in its third field; any other name is looked for in the
/// lines behind it.
pub proof fn groups_are_found_by_their_lines(
    group: Seq<char>,
    word: Seq<char>,
    gid: u32,
    members: Seq<char>,
    rest: Seq<char>,
    name: Seq<char>,
)
    requires
        forall|i: int| 0 <= i < group.len() ==> #[trigger] group[i] != ':' && group[i] != '\n',
        forall|i: int| 0 <= i < word.len() ==> #[trigger] word[i] != ':' && word[i] != '\n',
        forall|i: int| 0 <= i < members.len() ==> #[trigger] members[i] != '\n',
        members.len() > 0 ==> members.last() != '\r',
    ensures
        gid_from(
            group + seq![':'] + word + seq![':'] + decimal(gid as nat) + seq![':'] + members + seq![
                '\n',
            ] + rest,
            0,
            name,
        ) == (if name == group {
            Some(gid)
        } else {
            gid_from(rest, 0, name)
        }),
{
    let digits = decimal(gid as nat);
    let line = group + seq![':'] + word + seq![':'] + digits + seq![':'] + members;
    let s = line + seq!['\n'] + rest;
    decimal_is_made_of_digits(gid as nat);
    decimal_is_read_where_it_fits(gid as nat);
    lemma_fields(group, word, digits, members);
    let a = group.len() as int;
    let b = a + 1 + word.len();
    let c = b + 1 + digits.len();
    assert forall|i: int| 0 <= i < line.len() implies #[trigger] line[i] != '\n' by {
        if i < a {
            assert(line[i] == group[i]);
        } else if a < i < b {
            assert(line[i] == word[i - a - 1]);
        } else if b < i < c {
            assert(line[i] == digits[i - b - 1]);
        } else if c < i {
            assert(line[i] == members[i - c - 1]);
        }
    }
    assert(line.last() == if members.len() > 0 { members.last() } else { ':' });
    lemma_first_line(line, rest);
    let behind = (line.len() + 1) as int;
    lemma_gid_rest(s, behind, behind, name);
    assert(s.skip(behind) =~= rest);
    if rest.len() == 0 {
        assert(gid_from(s, behind, name) is None);
    }
}

/// A line without a third field ends the search, and an empty file has no groups.
pub proof fn broken_line_ends_the_search(line: Seq<char>, rest: Seq<char>, name: Seq<char>, at: int)
    requires
        forall|i: int| 0 <= i < line.len() ==> #[trigger] line[i] != '\n',
        line.len() == 0 || line.last() != '\r',
        0 <= at <= line.len(),
        forall|i: int| 0 <= i < line.len() && i != at ==> #[trigger] line[i] != ':',
    ensures
        gid_from(line + seq!['\n'] + rest, 0, name) is None,
        gid_from(Seq::empty(), 0, name) is None,
{
    lemma_first_line(line, rest);
    next_is_the_first(line, ':', 0);
    let first = next_at(line, ':', 0);
    if first < line.len() {
        assert(first == at);
        next_is_the_first(line, ':', first + 1);
    }
}

/// A carriage return before a line break belongs to the break, and so does not change
/// what is found.
pub proof fn carriage_return_belongs_to_the_break(line: Seq<char>, rest: Seq<char>)
    requires
        forall|i: int| 0 <= i < line.len() ==> #[trigger] line[i] != '\n',
    ensures
        line_at(line + seq!['\r', '\n'] + rest, 0) == line,
        line_at(line, 0) == line,
{
    let s = line + seq!['\r', '\n'] + rest;
    let end = line.len() + 1;
    assert forall|i: int| 0 <= i < end implies s[i] != '\n' by {
        if i < line.len() {
            assert(s[i] == line[i]);
        }
    }
    first_is_found(s, '\n', 0, end as int);
    assert(s.subrange(0, end as int).drop_last() =~= line);
    first_is_found(line, '\n', 0, line.len() as int);
    assert(line.subrange(0, line.len() as int) =~= line);
}

} // verus!
