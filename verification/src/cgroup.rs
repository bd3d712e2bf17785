//! Which applications are running, told from the names of control groups.

use crate::text::{
    after_prefix, before_suffix, first_some, is_digit, lines, number_u32, parse_u32, pieces,
    rsplit_once, split, split_last, split_lines, strip_prefix, strip_suffix, view_opt, views,
    without_plus,
};
use vstd::prelude::*;

verus! {

/// What stands between the launcher's prefix and the end of a scope name, `{appid}-{PID}.scope`.
pub open spec fn launched_part(scope: Seq<char>) -> Option<Seq<char>> {
    match after_prefix(scope, "app-cosmic-"@) {
        Some(rest) => Some(rest),
        None => after_prefix(scope, "app-flatpak-"@),
    }
}

/// The application that a scope name tells of: the name is `app-cosmic-{appid}-{PID}.scope` or
/// `app-flatpak-{appid}-{PID}.scope`.
pub open spec fn scope_app_id(scope: Seq<char>) -> Option<Seq<char>> {
    match launched_part(scope) {
        Some(rest) => match split_last(rest, '-') {
            Some((appid, pid_scope)) => match before_suffix(pid_scope, ".scope"@) {
                Some(pid) => if number_u32(pid) is Some {
                    Some(appid)
                } else {
                    None
                },
                None => None,
            },
            None => None,
        },
        None => None,
    }
}

/// The application that a line `hierarchy-ID:controller-list:cgroup-path` tells of: that of the
/// first component of the path which is the scope of an application.
pub open spec fn line_app_id(line: Seq<char>) -> Option<Seq<char>> {
    match split_last(line, ':') {
        Some((_, path)) => first_some(
            pieces(path, '/').map_values(|component: Seq<char>| scope_app_id(component)),
        ),
        None => None,
    }
}

/// The application that the contents of a `/proc/{PID}/cgroup` file tell of: that of the first
/// line which tells of one.
pub open spec fn contents_app_id(contents: Seq<char>) -> Option<Seq<char>> {
    first_some(lines(contents).map_values(|line: Seq<char>| line_app_id(line)))
}

/// The first value that is present stands at a position before which none is.
pub proof fn lemma_first_some<T>(values: Seq<Option<T>>, i: int)
    requires
        0 <= i <= values.len(),
        forall|j: int| 0 <= j < i ==> values[j] is None,
        i < values.len() ==> values[i] is Some,
    ensures
        first_some(values) == if i < values.len() {
            values[i]
        } else {
            None
        },
    decreases values.len(),
{
    if i > 0 {
        assert(values[0] is None);
        assert forall|j: int| 0 <= j < i - 1 implies values.drop_first()[j] is None by {
            assert(values.drop_first()[j] == values[j + 1]);
        }
        lemma_first_some(values.drop_first(), i - 1);
    }
}

/// Returns the application id if COSMIC or Flatpak launched the process in this scope.
pub fn cosmic_flatpak_name(scope: &str) -> (r: Option<String>)
    ensures
        view_opt(r) == scope_app_id(scope@),
{
    let rest: String = match strip_prefix(scope, "app-cosmic-") {
        Some(rest) => rest,
        None => match strip_prefix(scope, "app-flatpak-") {
            Some(rest) => rest,
            None => {
                return None;
            },
        },
    };
    let (appid, pid_scope) = match rsplit_once(rest.as_str(), '-') {
        Some(sides) => sides,
        None => {
            return None;
        },
    };
    match strip_suffix(pid_scope.as_str(), ".scope") {
        Some(pid) => if parse_u32(pid.as_str()).is_some() {
            Some(appid)
        } else {
            None
        },
        None => None,
    }
}

/// The application of the first component of a path that is the scope of an application.
fn path_app_id(path: &str) -> (r: Option<String>)
    ensures
        view_opt(r) == first_some(
            pieces(path@, '/').map_values(|component: Seq<char>| scope_app_id(component)),
        ),
{
    let components = split(path, '/');
    let ghost values = pieces(path@, '/').map_values(|c: Seq<char>| scope_app_id(c));
    let mut i: usize = 0;
    while i < components.len()
        invariant
            i <= components@.len(),
            views(components@) == pieces(path@, '/'),
            values == pieces(path@, '/').map_values(|c: Seq<char>| scope_app_id(c)),
            forall|j: int| 0 <= j < i ==> values[j] is None,
        decreases components@.len() - i,
    {
        let found = cosmic_flatpak_name(components[i].as_str());
        assert(views(components@)[i as int] == components@[i as int]@);
        assert(values[i as int] == view_opt(found));
        if found.is_some() {
            proof {
                lemma_first_some(values, i as int);
            }
            return found;
        }
        i = i + 1;
    }
    proof {
        lemma_first_some(values, values.len() as int);
    }
    None
}

/// Extracts the application id from the contents of a `/proc/{PID}/cgroup` file.
pub fn app_id_from_cgroup(contents: &str) -> (r: Option<String>)
    ensures
        view_opt(r) == contents_app_id(contents@),
{
    let all = split_lines(contents);
    let ghost values = lines(contents@).map_values(|line: Seq<char>| line_app_id(line));
    let mut i: usize = 0;
    while i < all.len()
        invariant
            i <= all@.len(),
            views(all@) == lines(contents@),
            values == lines(contents@).map_values(|line: Seq<char>| line_app_id(line)),
            forall|j: int| 0 <= j < i ==> values[j] is None,
        decreases all@.len() - i,
    {
        let found: Option<String> = match rsplit_once(all[i].as_str(), ':') {
            Some((_, path)) => path_app_id(path.as_str()),
            None => None,
        };
        assert(views(all@)[i as int] == all@[i as int]@);
        assert(values[i as int] == view_opt(found));
        if found.is_some() {
            proof {
                lemma_first_some(values, i as int);
            }
            return found;
        }
        i = i + 1;
    }
    proof {
        lemma_first_some(values, values.len() as int);
    }
    None
}


/// Whether a directory below `/proc` belongs to a process: its name is a process id.
pub fn is_process_dir(name: &str) -> (r: bool)
    ensures
        r == number_u32(name@) is Some,
{
    parse_u32(name).is_some()
}

/// Application ids, each held once.
pub open spec fn distinct(ids: Seq<Seq<char>>) -> bool {
    forall|i: int, j: int| 0 <= i < j < ids.len() ==> ids[i] != ids[j]
}

/// `ids` with `id` behind them, unless it is there already.
pub open spec fn with_id(ids: Seq<Seq<char>>, id: Seq<char>) -> Seq<Seq<char>> {
    if ids.contains(id) {
        ids
    } else {
        ids.push(id)
    }
}

/// The applications that a sequence of control group files tells of, each held once.
pub open spec fn files_app_ids(files: Seq<Seq<char>>) -> Seq<Seq<char>>
    decreases files.len(),
{
    if files.len() == 0 {
        Seq::empty()
    } else {
        let ids = files_app_ids(files.drop_last());
        match contents_app_id(files.last()) {
            Some(id) => with_id(ids, id),
            None => ids,
        }
    }
}

/// Notes the application that the contents of a control group file tell of.
pub fn note_app_id(app_ids: &mut Vec<String>, contents: &str)
    requires
        distinct(views(old(app_ids)@)),
    ensures
        distinct(views(final(app_ids)@)),
        views(final(app_ids)@) == match contents_app_id(contents@) {
            Some(id) => with_id(views(old(app_ids)@), id),
            None => views(old(app_ids)@),
        },
{
    if let Some(id) = app_id_from_cgroup(contents) {
        let ghost held = views(app_ids@);
        let mut i: usize = 0;
        while i < app_ids.len()
            invariant
                i <= app_ids@.len(),
                held == views(app_ids@),
                held == views(old(app_ids)@),
                distinct(held),
                contents_app_id(contents@) == Some(id@),
                forall|j: int| 0 <= j < i ==> held[j] != id@,
            decreases app_ids@.len() - i,
        {
            if app_ids[i] == id {
                proof {
                    assert(held[i as int] == id@);
                }
                return;
            }
            assert(held[i as int] == app_ids@[i as int]@);
            i = i + 1;
        }
        proof {
            assert(views(app_ids@.push(id)) =~= held.push(id@));
        }
        app_ids.push(id);
    }
}

/// The ids of the applications that run, told from the contents of the control group files of
/// all processes.
pub fn running_app_ids(files: &Vec<String>) -> (r: Vec<String>)
    ensures
        views(r@) == files_app_ids(views(files@)),
        distinct(views(r@)),
{
    let mut r: Vec<String> = Vec::new();
    let ghost all = views(files@);
    let mut i: usize = 0;
    proof {
        assert(all.take(0) =~= Seq::<Seq<char>>::empty());
        assert(views(r@) =~= Seq::<Seq<char>>::empty());
    }
    while i < files.len()
        invariant
            i <= files@.len(),
            all == views(files@),
            views(r@) == files_app_ids(all.take(i as int)),
            distinct(views(r@)),
        decreases files@.len() - i,
    {
        proof {
            assert(all.take(i + 1).drop_last() =~= all.take(i as int));
            assert(all.take(i + 1).last() == files@[i as int]@);
        }
        note_app_id(&mut r, files[i].as_str());
        i = i + 1;
    }
    proof {
        assert(all.take(all.len() as int) =~= all);
    }
    r
}

/// The last separator of a text is the one that stands before a part without separators.
proof fn lemma_split_last_concat(before: Seq<char>, c: char, after: Seq<char>)
    requires
        forall|i: int| 0 <= i < after.len() ==> after[i] != c,
    ensures
        split_last(before.push(c) + after, c) == Some((before, after)),
    decreases after.len(),
{
    let s = before.push(c) + after;
    if after.len() == 0 {
        assert(s =~= before.push(c));
        assert(s.drop_last() =~= before);
        assert(after =~= Seq::<char>::empty());
    } else {
        assert(s.last() == after.last());
        assert(s.drop_last() =~= before.push(c) + after.drop_last());
        lemma_split_last_concat(before, c, after.drop_last());
        assert(after.drop_last().push(after.last()) =~= after);
    }
}

/// A text that is split at its last separator is the two sides with the separator between them.
proof fn lemma_split_last_joins(s: Seq<char>, c: char)
    ensures
        split_last(s, c) matches Some((before, after)) ==> s == before.push(c) + after,
    decreases s.len(),
{
    if s.len() > 0 {
        if s.last() == c {
            assert(s =~= s.drop_last().push(c) + Seq::<char>::empty());
        } else {
            lemma_split_last_joins(s.drop_last(), c);
            if let Some((before, after)) = split_last(s.drop_last(), c) {
                let init = s.drop_last();
                assert(init == before.push(c) + after);
                assert(s =~= init.push(s.last()));
                assert(init.push(s.last()) =~= before.push(c) + after.push(s.last()));
            }
        }
    }
}

/// Whether a name is that of a scope in which COSMIC or Flatpak launched an application, with a text
/// that spells a process id.
pub open spec fn is_scope_name(scope: Seq<char>, app_id: Seq<char>, pid: Seq<char>) -> bool {
    &&& number_u32(pid) is Some
    &&& {
        ||| scope == "app-cosmic-"@ + app_id + "-"@ + pid + ".scope"@
        ||| scope == "app-flatpak-"@ + app_id + "-"@ + pid + ".scope"@
    }
}

/// A scope name tells of an application exactly where the launcher wrote it into the name, with
/// whatever process id.
pub proof fn law_scope_name_tells_app_id(scope: Seq<char>, app_id: Seq<char>)
    ensures
        scope_app_id(scope) == Some(app_id) <==> exists|pid: Seq<char>| #[trigger]
            is_scope_name(scope, app_id, pid),
{
    if scope_app_id(scope) == Some(app_id) {
        lemma_told_name_is_scope_name(scope, app_id);
    }
    if exists|pid: Seq<char>| #[trigger] is_scope_name(scope, app_id, pid) {
        let pid = choose|pid: Seq<char>| #[trigger] is_scope_name(scope, app_id, pid);
        lemma_scope_name_tells(scope, app_id, pid);
    }
}

/// A scope name that tells of an application holds it and a process id.
proof fn lemma_told_name_is_scope_name(scope: Seq<char>, app_id: Seq<char>)
    requires
        scope_app_id(scope) == Some(app_id),
    ensures
        exists|pid: Seq<char>| #[trigger] is_scope_name(scope, app_id, pid),
{
    reveal_strlit("-");
    assert("-"@ =~= seq!['-']);
    let rest = launched_part(scope)->0;
    lemma_split_last_joins(rest, '-');
    let (_, pid_scope) = split_last(rest, '-')->0;
    let pid = before_suffix(pid_scope, ".scope"@)->0;
    assert(pid_scope =~= pid + ".scope"@);
    assert(rest =~= app_id + "-"@ + pid + ".scope"@);
    if after_prefix(scope, "app-cosmic-"@) is Some {
        assert(scope =~= "app-cosmic-"@ + rest);
        assert(scope =~= "app-cosmic-"@ + app_id + "-"@ + pid + ".scope"@);
    } else {
        assert(scope =~= "app-flatpak-"@ + rest);
        assert(scope =~= "app-flatpak-"@ + app_id + "-"@ + pid + ".scope"@);
    }
    assert(is_scope_name(scope, app_id, pid));
}

/// A scope name with an application and a process id tells of the application.
proof fn lemma_scope_name_tells(scope: Seq<char>, app_id: Seq<char>, pid: Seq<char>)
    requires
        is_scope_name(scope, app_id, pid),
    ensures
        scope_app_id(scope) == Some(app_id),
{
    reveal_strlit("app-cosmic-");
    reveal_strlit("app-flatpak-");
    reveal_strlit("-");
    reveal_strlit(".scope");
    let pid_scope = pid + ".scope"@;
    let rest = app_id + "-"@ + pid + ".scope"@;
    assert forall|i: int| 0 <= i < pid_scope.len() implies pid_scope[i] != '-' by {
        if i < pid.len() {
            let digits = without_plus(pid);
            if pid[0] == '+' && i > 0 {
                assert(is_digit(digits[i - 1]));
            } else if pid[0] != '+' {
                assert(is_digit(digits[i]));
            }
        } else {
            assert(pid_scope[i] == ".scope"@[i - pid.len()]);
        }
    }
    lemma_split_last_concat(app_id, '-', pid_scope);
    assert(rest =~= app_id.push('-') + pid_scope);
    assert(pid_scope.skip(pid_scope.len() - 6) =~= ".scope"@);
    assert(pid_scope.take(pid_scope.len() - 6) =~= pid);
    if scope == "app-cosmic-"@ + app_id + "-"@ + pid + ".scope"@ {
        assert(scope.take(11) =~= "app-cosmic-"@);
        assert(scope.skip(11) =~= rest);
    } else {
        assert(scope.take(12) =~= "app-flatpak-"@);
        assert(scope.skip(12) =~= rest);
        assert(scope.take(11)[4] != "app-cosmic-"@[4]);
    }
}

/// A line tells of the application of its path alone, whatever stands before the last colon.
pub proof fn law_last_part_of_the_line_tells(before: Seq<char>, path: Seq<char>)
    requires
        split_last(before + ":"@ + path, ':') == Some((before, path)),
    ensures
        line_app_id(before + ":"@ + path) == first_some(
            pieces(path, '/').map_values(|component: Seq<char>| scope_app_id(component)),
        ),
{
}

/// Of several values the first that is there counts.
pub proof fn law_first_told_application_counts(values: Seq<Option<Seq<char>>>, k: int)
    requires
        0 <= k < values.len(),
        values[k] is Some,
        forall|j: int| 0 <= j < k ==> (#[trigger] values[j]) is None,
    ensures
        first_some(values) == values[k],
{
    lemma_first_some(values, k);
}

/// Every application that some file tells of is held, once, and no other is.
pub proof fn law_told_applications_are_held_once(files: Seq<Seq<char>>, id: Seq<char>)
    ensures
        files_app_ids(files).contains(id) <==> exists|i: int|
            0 <= i < files.len() && contents_app_id(#[trigger] files[i]) == Some(id),
        files_app_ids(files).no_duplicates(),
    decreases files.len(),
{
    if files.len() > 0 {
        let init = files.drop_last();
        let (all, rest) = (files_app_ids(files), files_app_ids(init));
        law_told_applications_are_held_once(init, id);
        if all.contains(id) {
            let k = choose|k: int| 0 <= k < all.len() && all[k] == id;
            if k < rest.len() {
                assert(rest[k] == id);
                let i = choose|i: int|
                    0 <= i < init.len() && contents_app_id(#[trigger] init[i]) == Some(id);
                assert(files[i] == init[i]);
            } else {
                assert(contents_app_id(files[files.len() - 1]) == Some(id));
            }
        }
        if exists|i: int| 0 <= i < files.len() && contents_app_id(#[trigger] files[i]) == Some(id) {
            let i = choose|i: int|
                0 <= i < files.len() && contents_app_id(#[trigger] files[i]) == Some(id);
            if i < init.len() {
                assert(init[i] == files[i]);
                let k = choose|k: int| 0 <= k < rest.len() && rest[k] == id;
                assert(all[k] == id);
            } else if rest.contains(id) {
                let k = choose|k: int| 0 <= k < rest.len() && rest[k] == id;
                assert(all[k] == id);
            } else {
                assert(all.last() == id);
            }
        }
    }
}

} // verus!
