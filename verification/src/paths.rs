//! Paths as texts, and the places where Vox keeps its files.
use vstd::prelude::*;

use crate::text::{
    begins, chars_of, lemma_pieces_behind, lemma_pieces_of_plain, pieces, same, split, starts_with,
    Class,
};

verus! {

/// Where `rel` leads from `base`: an absolute path replaces the base, any other
/// follows it behind a slash.
pub open spec fn under(base: Seq<char>, rel: Seq<char>) -> Seq<char> {
    if begins(rel, "/"@) {
        rel
    } else if base.len() == 0 || base.last() == '/' {
        base + rel
    } else {
        base + "/"@ + rel
    }
}

/// Joins a path to a base directory.
pub fn join_path(base: &str, rel: &str) -> (r: String)
    ensures
        r@ == under(base@, rel@),
{
    if starts_with(rel, "/") {
        return rel.to_owned();
    }
    let b = chars_of(base);
    if b.len() == 0 || b[b.len() - 1] == '/' {
        base.to_owned().concat(rel)
    } else {
        base.to_owned().concat("/").concat(rel)
    }
}

/// The last of the segments that is neither empty nor a single dot.
pub open spec fn last_named(segments: Seq<Seq<char>>) -> Option<Seq<char>>
    decreases segments.len(),
{
    if segments.len() == 0 {
        None
    } else if segments.last().len() == 0 || segments.last() == "."@ {
        last_named(segments.drop_last())
    } else {
        Some(segments.last())
    }
}

/// The name at the end of a path; none at a root, or where the path leads up.
pub open spec fn end_name(path: Seq<char>) -> Option<Seq<char>> {
    match last_named(pieces(path, Class::Only('/'))) {
        Some(name) if name != ".."@ => Some(name),
        _ => None,
    }
}

/// The final component of a path.
pub fn file_name(path: &str) -> (r: Option<String>)
    ensures
        r.deep_view() == end_name(path@),
{
    let segments = split(path, &Class::Only('/'));
    let mut i: usize = segments.len();
    assert(segments.deep_view().take(i as int) =~= segments.deep_view());
    while i > 0
        invariant
            i <= segments@.len(),
            segments.deep_view() == pieces(path@, Class::Only('/')),
            last_named(segments.deep_view().take(i as int)) == last_named(segments.deep_view()),
        decreases i,
    {
        i = i - 1;
        let ghost some = segments.deep_view().take(i + 1);
        assert(some.last() == segments@[i as int]@);
        assert(some.drop_last() =~= segments.deep_view().take(i as int));
        let s = segments[i].as_str();
        if !(s.is_empty() || same(s, ".")) {
            return if same(s, "..") {
                None
            } else {
                Some(s.to_owned())
            };
        }
    }
    None
}

/// The name of a project: the end of its path, or `otherwise`.
pub open spec fn project_name(path: Seq<char>, otherwise: Seq<char>) -> Seq<char> {
    match end_name(path) {
        Some(name) => name,
        None => otherwise,
    }
}

/// Names a project by the end of its path.
pub fn name_project(path: &str, otherwise: &str) -> (r: String)
    ensures
        r@ == project_name(path@, otherwise@),
{
    match file_name(path) {
        Some(name) => name,
        None => otherwise.to_owned(),
    }
}

/// The settings file.
pub fn settings_path(home: &str) -> (r: String)
    ensures
        r@ == under(home@, ".vox/settings.json"@),
{
    join_path(home, ".vox/settings.json")
}

/// The project registry.
pub fn registry_path(home: &str) -> (r: String)
    ensures
        r@ == under(home@, ".vox/projects.json"@),
{
    join_path(home, ".vox/projects.json")
}

/// The pronunciation dictionary.
pub fn pronunciations_path(home: &str) -> (r: String)
    ensures
        r@ == under(home@, ".vox/pronunciations.json"@),
{
    join_path(home, ".vox/pronunciations.json")
}

/// The database of Conductor.
pub fn conductor_db_path(home: &str) -> (r: String)
    ensures
        r@ == under(home@, "Library/Application Support/com.conductor.app/conductor.db"@),
{
    join_path(home, "Library/Application Support/com.conductor.app/conductor.db")
}

// ── Laws ─────────────────────────────────────────────────────────────────────

/// The name behind the last slash of a path is its end, whatever comes before, and slashes
/// behind it make no difference.
pub proof fn law_the_end_of_a_path_names_it(dir: Seq<char>, name: Seq<char>, path: Seq<char>)
    requires
        name.len() > 0,
        !name.contains('/'),
        name != "."@,
        name != ".."@,
    ensures
        end_name(dir + "/"@ + name) == Some(name),
        end_name(name) == Some(name),
        end_name(path + "/"@) == end_name(path),
        project_name(dir + "/"@ + name, path) == name,
{
    reveal_strlit("/");
    let slash = Class::Only('/');
    assert forall|i: int| 0 <= i < name.len() implies !slash.holds(#[trigger] name[i]) by {
        assert(name.contains(name[i]));
    }
    lemma_pieces_behind(dir, '/', name, slash);
    assert(dir.push('/') + name =~= dir + "/"@ + name);
    let e = Seq::<char>::empty();
    lemma_pieces_behind(path, '/', e, slash);
    assert(path.push('/') + e =~= path + "/"@);
    assert(pieces(path, slash).push(e).drop_last() =~= pieces(path, slash));
    lemma_pieces_of_plain(name, slash);
}

/// A path that leads up, or to a root, has no name at its end.
pub proof fn law_a_path_that_leads_up_has_no_name(dir: Seq<char>, otherwise: Seq<char>)
    ensures
        end_name(dir + "/.."@) is None,
        project_name(dir + "/.."@, otherwise) == otherwise,
{
    reveal_strlit("/..");
    reveal_strlit("..");
    reveal_strlit(".");
    let slash = Class::Only('/');
    assert forall|i: int| 0 <= i < ".."@.len() implies !slash.holds(#[trigger] ".."@[i]) by {}
    lemma_pieces_behind(dir, '/', ".."@, slash);
    assert(dir.push('/') + ".."@ =~= dir + "/.."@);
    assert("."@.len() == 1 && ".."@.len() == 2);
}

/// A path below a base begins with the base and ends in what was joined to it, with one slash
/// between them; an absolute path stands for itself.
pub proof fn law_a_joined_path_lies_below_its_base(base: Seq<char>, rel: Seq<char>)
    ensures
        rel.len() > 0 && rel[0] == '/' ==> under(base, rel) == rel,
        (rel.len() == 0 || rel[0] != '/') && base.len() > 0 && base.last() != '/' ==> under(
            base,
            rel,
        ) == base.push('/') + rel,
        (rel.len() == 0 || rel[0] != '/') && base.len() > 0 && base.last() == '/' ==> under(
            base,
            rel,
        ) == base + rel,
        (rel.len() == 0 || rel[0] != '/') && base.len() == 0 ==> under(base, rel) == rel,
{
    reveal_strlit("/");
    if rel.len() > 0 {
        assert(rel.take(1)[0] == rel[0]);
        if rel[0] == '/' {
            assert(rel.take(1) =~= "/"@);
        }
    }
    assert(base + "/"@ =~= base.push('/'));
    if base.len() == 0 {
        assert(base + rel =~= rel);
    }
}

/// Vox keeps its files below `.vox` in the home directory, and reads the database of Conductor
/// where Conductor keeps it.
pub proof fn law_files_lie_below_the_home(
    home: &str,
    settings: String,
    registry: String,
    words: String,
    db: String,
)
    requires
        home@.len() > 0,
        home@.last() != '/',
        call_ensures(settings_path, (home,), settings),
        call_ensures(registry_path, (home,), registry),
        call_ensures(pronunciations_path, (home,), words),
        call_ensures(conductor_db_path, (home,), db),
    ensures
        settings@ == home@ + "/.vox/settings.json"@,
        registry@ == home@ + "/.vox/projects.json"@,
        words@ == home@ + "/.vox/pronunciations.json"@,
        db@ == home@ + "/Library/Application Support/com.conductor.app/conductor.db"@,
{
    reveal_strlit(".vox/settings.json");
    reveal_strlit("/.vox/settings.json");
    reveal_strlit(".vox/projects.json");
    reveal_strlit("/.vox/projects.json");
    reveal_strlit(".vox/pronunciations.json");
    reveal_strlit("/.vox/pronunciations.json");
    reveal_strlit("Library/Application Support/com.conductor.app/conductor.db");
    reveal_strlit("/Library/Application Support/com.conductor.app/conductor.db");
    law_a_joined_path_lies_below_its_base(home@, ".vox/settings.json"@);
    law_a_joined_path_lies_below_its_base(home@, ".vox/projects.json"@);
    law_a_joined_path_lies_below_its_base(home@, ".vox/pronunciations.json"@);
    law_a_joined_path_lies_below_its_base(
        home@,
        "Library/Application Support/com.conductor.app/conductor.db"@,
    );
    assert(settings@ =~= home@ + "/.vox/settings.json"@);
    assert(registry@ =~= home@ + "/.vox/projects.json"@);
    assert(words@ =~= home@ + "/.vox/pronunciations.json"@);
    assert(db@ =~= home@ + "/Library/Application Support/com.conductor.app/conductor.db"@);
}

} // verus!
