//! Who may connect to tunelithd.

use vstd::prelude::*;

use crate::text;
use crate::text::{parse_number, split, strip_suffix};

verus! {

/// The lines of a text: its pieces between line feeds, a carriage return before one
/// left out.
pub open spec fn lines(s: Seq<char>) -> Seq<Seq<char>> {
    let parts = text::pieces(s, '\n');
    parts.map(
        |i: int, p: Seq<char>|
            if i < parts.len() - 1 && p.len() > 0 && p.last() == '\r' {
                p.drop_last()
            } else {
                p
            },
    )
}

/// The id on a line of the groups, if it is the line of the group: the third of the
/// fields between colons, after the name and the password.
pub open spec fn id_on_line(line: Seq<char>, group: Seq<char>) -> Option<nat> {
    let fields = text::pieces(line, ':');
    if fields[0] != group || fields.len() < 3 {
        None
    } else {
        match text::number(fields[2], 10, u32::MAX as nat) {
            Ok(n) => Some(n),
            Err(_) => None,
        }
    }
}

/// The id on the first of the lines that has one for the group.
pub open spec fn first_id(lines: Seq<Seq<char>>, group: Seq<char>) -> Option<nat>
    decreases lines.len(),
{
    if lines.len() == 0 {
        None
    } else {
        match id_on_line(lines[0], group) {
            Some(n) => Some(n),
            None => first_id(lines.skip(1), group),
        }
    }
}

fn line_id(line: &str, group: &String) -> (r: Option<u32>)
    ensures
        match id_on_line(line@, group@) {
            Some(n) => r matches Some(v) && v == n,
            None => r is None,
        },
{
    let fields: Vec<&str> = split(line, ':');
    proof {
        pieces_are_some(line@, ':');
        assert(text::views(fields@).len() == fields@.len());
        assert(text::views(fields@)[0] == fields@[0]@);
    }
    if fields[0].to_owned() != *group || fields.len() < 3 {
        return None;
    }
    assert(text::views(fields@)[2] == fields@[2]@);
    match parse_number(fields[2], 10, u32::MAX) {
        Ok(n) => Some(n),
        Err(_) => None,
    }
}

/// A text has a piece at least.
proof fn pieces_are_some(s: Seq<char>, separator: char)
    ensures
        text::pieces(s, separator).len() >= 1,
{
}

/// The id of a group, from the text of `/etc/group`.
pub fn group_id(groups: &str, group: &String) -> (r: Option<u32>)
    ensures
        match first_id(lines(groups@), group@) {
            Some(n) => r matches Some(v) && v == n,
            None => r is None,
        },
{
    proof {
        reveal_strlit("\r");
    }
    let parts: Vec<&str> = split(groups, '\n');
    let ghost all = lines(groups@);
    let n: usize = parts.len();
    let mut i: usize = 0;
    assert(text::views(parts@).len() == n);
    assert(all.skip(0) =~= all);
    while i < n
        invariant
            i <= n,
            n == parts@.len(),
            text::views(parts@) == text::pieces(groups@, '\n'),
            all == lines(groups@),
            all.len() == n,
            "\r"@ == seq!['\r'],
            first_id(all, group@) == first_id(all.skip(i as int), group@),
        decreases n - i,
    {
        let whole: &str = parts[i];
        let line: &str = if i < n - 1 {
            match strip_suffix(whole, "\r") {
                Some(line) => line,
                None => whole,
            }
        } else {
            whole
        };
        proof {
            assert(text::views(parts@)[i as int] == whole@);
            let suffix = seq!['\r'];
            if whole@.len() > 0 && whole@.last() == '\r' {
                assert(suffix =~= whole@.subrange(whole@.len() - 1, whole@.len() as int));
                assert(suffix.is_suffix_of(whole@));
                assert(whole@.take(whole@.len() - 1) =~= whole@.drop_last());
            } else if suffix.is_suffix_of(whole@) {
                assert(whole@.subrange(whole@.len() - 1, whole@.len() as int)[0] == '\r');
            }
            assert(line@ == all[i as int]);
            assert(all.skip(i as int)[0] == all[i as int]);
            assert(all.skip(i as int).skip(1) =~= all.skip(i + 1));
        }
        match line_id(line, group) {
            Some(id) => return Some(id),
            None => {},
        }
        i = i + 1;
    }
    None
}

/// The id of a group is the number in the third field of the line that its name starts,
/// whatever the password and the members are, and other lines tell nothing of it.
pub proof fn ids_stand_on_the_line_of_the_group(
    name: Seq<char>,
    password: Seq<char>,
    id: nat,
    members: Seq<char>,
    group: Seq<char>,
)
    requires
        !name.contains(':'),
        !password.contains(':'),
        id <= u32::MAX,
    ensures
        ({
            let line = name.push(':') + (password.push(':') + (text::decimal(id).push(':')
                + members));
            id_on_line(line, group) == if group == name {
                Some(id)
            } else {
                None
            }
        }),
{
    let digits = text::decimal(id);
    text::decimal_has_figures(id);
    assert(!digits.contains(':'));
    text::pieces_split_at_separators(digits, ':', members);
    text::pieces_split_at_separators(password, ':', digits.push(':') + members);
    text::pieces_split_at_separators(
        name,
        ':',
        password.push(':') + (digits.push(':') + members),
    );
    text::decimals_read_back(id, u32::MAX as nat);
    let fields = text::pieces(
        name.push(':') + (password.push(':') + (digits.push(':') + members)),
        ':',
    );
    assert(fields[0] == name && fields[2] == digits);
    pieces_are_some(members, ':');
}

/// The lines of a text are told apart by the line feeds, and a carriage return before one
/// is no part of the line.
pub proof fn lines_end_with_line_feeds(line: Seq<char>, rest: Seq<char>)
    requires
        !line.contains('\n'),
        line.len() > 0 ==> line.last() != '\r',
    ensures
        lines(line) == seq![line],
        lines(line.push('\n') + rest) == seq![line] + lines(rest),
        lines(line.push('\r').push('\n') + rest) == seq![line] + lines(rest),
{
    text::pieces_split_at_separators(line, '\n', rest);
    let other = line.push('\r');
    assert(!other.contains('\n')) by {
        assert(forall|i: int| 0 <= i < line.len() ==> other[i] == line[i]);
    }
    text::pieces_split_at_separators(other, '\n', rest);
    assert(other.drop_last() =~= line);
    pieces_are_some(rest, '\n');
    assert(lines(line) =~= seq![line]);
    assert(lines(line.push('\n') + rest) =~= seq![line] + lines(rest));
    assert(lines(other.push('\n') + rest) =~= seq![line] + lines(rest));
}

} // verus!
