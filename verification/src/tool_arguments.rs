//! Rewriting the Git Bash paths in a tool call's JSON arguments into Windows spelling.
//!
//! Only the fields that hold paths are touched: `workdir`, and in the permission
//! profiles under `additional_permissions` and `permissions` the `read` and `write`
//! lists and the `path` of each file system entry (`path` for a path entry, `pattern`
//! for a glob pattern entry).
use vstd::prelude::*;

use crate::git_bash_path;
use crate::git_bash_path::git_bash_path_to_windows_path;
use crate::text::str_equal;

verus! {

/// A JSON value. An object keeps its members in order; a number keeps its text.
#[derive(Debug, PartialEq, Eq)]
pub enum JsonValue {
    Null,
    Bool(bool),
    Number(String),
    Str(String),
    Array(Vec<JsonValue>),
    Object(Vec<JsonMember>),
}

/// A member of a JSON object.
#[derive(Debug, PartialEq, Eq)]
pub struct JsonMember {
    pub key: String,
    pub value: JsonValue,
}

pub enum JsonView {
    Null,
    Bool(bool),
    Number(Seq<char>),
    Str(Seq<char>),
    Array(Seq<JsonView>),
    Object(Seq<(Seq<char>, JsonView)>),
}

/// The mathematical value of a JSON value.
pub open spec fn json_view(v: JsonValue) -> JsonView
    decreases v,
{
    match v {
        JsonValue::Null => JsonView::Null,
        JsonValue::Bool(b) => JsonView::Bool(b),
        JsonValue::Number(n) => JsonView::Number(n@),
        JsonValue::Str(s) => JsonView::Str(s@),
        JsonValue::Array(items) => JsonView::Array(
            Seq::new(
                items.len() as nat,
                |i: int|
                    if 0 <= i < items.len() {
                        json_view(items@[i])
                    } else {
                        JsonView::Null
                    },
            ),
        ),
        JsonValue::Object(members) => JsonView::Object(
            Seq::new(
                members.len() as nat,
                |i: int|
                    if 0 <= i < members.len() {
                        (members@[i].key@, json_view(members@[i].value))
                    } else {
                        (Seq::empty(), JsonView::Null)
                    },
            ),
        ),
    }
}

impl View for JsonValue {
    type V = JsonView;

    open spec fn view(&self) -> JsonView {
        json_view(*self)
    }
}

pub open spec fn items_view(s: Seq<JsonValue>) -> Seq<JsonView> {
    Seq::new(s.len(), |i: int| s[i]@)
}

pub open spec fn members_view(s: Seq<JsonMember>) -> Seq<(Seq<char>, JsonView)> {
    Seq::new(s.len(), |i: int| (s[i].key@, s[i].value@))
}

proof fn lemma_array_view(items: Vec<JsonValue>)
    ensures
        JsonValue::Array(items)@ == JsonView::Array(items_view(items@)),
{
    let v = JsonValue::Array(items);
    assert(json_view(v)->Array_0 =~= items_view(items@));
}

proof fn lemma_object_view(members: Vec<JsonMember>)
    ensures
        JsonValue::Object(members)@ == JsonView::Object(members_view(members@)),
{
    let v = JsonValue::Object(members);
    assert(json_view(v)->Object_0 =~= members_view(members@));
}

/// The kind of JSON field that a rewrite step expects.
#[derive(Clone, Copy, PartialEq, Eq, Structural)]
pub enum PathField {
    /// A path string.
    PathString,
    /// An array of path strings.
    PathStringArray,
    /// The `path` object of a file system entry.
    EntryPath,
    /// A file system entry.
    Entry,
    /// An array of file system entries.
    EntryArray,
    /// The `file_system` object of a permission profile.
    FileSystem,
    /// A permission profile.
    Profile,
    /// The arguments object of a tool call.
    Arguments,
}

pub open spec fn level(f: PathField) -> nat {
    match f {
        PathField::PathString => 0,
        PathField::PathStringArray => 1,
        PathField::EntryPath => 1,
        PathField::Entry => 2,
        PathField::EntryArray => 3,
        PathField::FileSystem => 4,
        PathField::Profile => 5,
        PathField::Arguments => 6,
    }
}

/// Index of the first member named `key` at or after `i`, or -1.
pub open spec fn first_key_from(ms: Seq<(Seq<char>, JsonView)>, key: Seq<char>, i: int) -> int
    decreases ms.len() - i,
{
    if i < 0 || i >= ms.len() {
        -1
    } else if ms[i].0 == key {
        i
    } else {
        first_key_from(ms, key, i + 1)
    }
}

pub open spec fn first_key(ms: Seq<(Seq<char>, JsonView)>, key: Seq<char>) -> int {
    first_key_from(ms, key, 0)
}

/// The string value of the member `type`, if it has one.
pub open spec fn type_text(ms: Seq<(Seq<char>, JsonView)>) -> Option<Seq<char>> {
    let i = first_key(ms, "type"@);
    if 0 <= i < ms.len() && ms[i].1 is Str {
        Some(ms[i].1->Str_0)
    } else {
        None
    }
}

/// `v` with the paths that a field of kind `f` holds rewritten into Windows spelling.
pub open spec fn spec_rewrite(f: PathField, v: JsonView) -> JsonView
    decreases level(f), 0nat,
{
    match f {
        PathField::PathString => match v {
            JsonView::Str(s) => match git_bash_path::spec_git_bash_to_windows(s) {
                Some(w) => JsonView::Str(w),
                None => v,
            },
            _ => v,
        },
        PathField::PathStringArray => match v {
            JsonView::Array(items) => JsonView::Array(
                items.map_values(|x: JsonView| spec_rewrite(PathField::PathString, x)),
            ),
            _ => v,
        },
        PathField::EntryPath => match v {
            JsonView::Object(ms) => if type_text(ms) == Some("path"@) {
                JsonView::Object(spec_rewrite_member(ms, "path"@, PathField::PathString))
            } else if type_text(ms) == Some("glob_pattern"@) {
                JsonView::Object(spec_rewrite_member(ms, "pattern"@, PathField::PathString))
            } else {
                v
            },
            _ => v,
        },
        PathField::Entry => match v {
            JsonView::Object(ms) => JsonView::Object(
                spec_rewrite_member(ms, "path"@, PathField::EntryPath),
            ),
            _ => v,
        },
        PathField::EntryArray => match v {
            JsonView::Array(items) => JsonView::Array(
                items.map_values(|x: JsonView| spec_rewrite(PathField::Entry, x)),
            ),
            _ => v,
        },
        PathField::FileSystem => match v {
            JsonView::Object(ms) => JsonView::Object(
                spec_rewrite_member(
                    spec_rewrite_member(
                        spec_rewrite_member(ms, "read"@, PathField::PathStringArray),
                        "write"@,
                        PathField::PathStringArray,
                    ),
                    "entries"@,
                    PathField::EntryArray,
                ),
            ),
            _ => v,
        },
        PathField::Profile => match v {
            JsonView::Object(ms) => JsonView::Object(
                spec_rewrite_member(ms, "file_system"@, PathField::FileSystem),
            ),
            _ => v,
        },
        PathField::Arguments => match v {
            JsonView::Object(ms) => JsonView::Object(
                spec_rewrite_member(
                    spec_rewrite_member(
                        spec_rewrite_member(ms, "workdir"@, PathField::PathString),
                        "additional_permissions"@,
                        PathField::Profile,
                    ),
                    "permissions"@,
                    PathField::Profile,
                ),
            ),
            _ => v,
        },
    }
}

/// `ms` with the value of its first member named `key` rewritten as a field of kind `f`.
pub open spec fn spec_rewrite_member(
    ms: Seq<(Seq<char>, JsonView)>,
    key: Seq<char>,
    f: PathField,
) -> Seq<(Seq<char>, JsonView)>
    decreases level(f), 1nat,
{
    let i = first_key(ms, key);
    if 0 <= i < ms.len() {
        ms.update(i, (ms[i].0, spec_rewrite(f, ms[i].1)))
    } else {
        ms
    }
}

fn first_member_index(members: &Vec<JsonMember>, key: &str) -> (r: Option<usize>)
    ensures
        r matches Some(i) ==> i < members.len() && first_key(members_view(members@), key@) == i,
        r is None ==> first_key(members_view(members@), key@) == -1,
{
    let ghost ms = members_view(members@);
    let mut i: usize = 0;
    while i < members.len()
        invariant
            i <= members.len(),
            ms == members_view(members@),
            first_key_from(ms, key@, i as int) == first_key(ms, key@),
        decreases members.len() - i,
    {
        if str_equal(members[i].key.as_str(), key) {
            return Some(i);
        }
        i = i + 1;
    }
    None
}

fn rewrite_member(members: Vec<JsonMember>, key: &str, f: PathField) -> (r: Vec<JsonMember>)
    ensures
        members_view(r@) == spec_rewrite_member(members_view(members@), key@, f),
    decreases level(f), 1nat,
{
    let mut members = members;
    let ghost ms = members_view(members@);
    match first_member_index(&members, key) {
        Some(i) => {
            let m = members.remove(i);
            let w = rewrite_value(f, m.value);
            members.insert(i, JsonMember { key: m.key, value: w });
            assert(members_view(members@) =~= ms.update(i as int, (ms[i as int].0, spec_rewrite(f, ms[i as int].1))));
            members
        },
        None => members,
    }
}

fn rewrite_items(items: Vec<JsonValue>, f: PathField) -> (r: Vec<JsonValue>)
    ensures
        items_view(r@) == items_view(items@).map_values(|x: JsonView| spec_rewrite(f, x)),
    decreases level(f), 1nat,
{
    let mut items = items;
    let ghost orig = items_view(items@);
    let n = items.len();
    let mut i: usize = 0;
    while i < n
        invariant
            i <= n,
            items.len() == n,
            orig.len() == n,
            forall|j: int| 0 <= j < i ==> #[trigger] items@[j]@ == spec_rewrite(f, orig[j]),
            forall|j: int| i <= j < n ==> #[trigger] items@[j]@ == orig[j],
        decreases n - i,
    {
        let v = items.remove(i);
        let w = rewrite_value(f, v);
        items.insert(i, w);
        i = i + 1;
    }
    assert(items_view(items@) =~= orig.map_values(|x: JsonView| spec_rewrite(f, x)));
    items
}

/// `value` with the paths that a field of kind `f` holds rewritten into Windows spelling.
pub fn rewrite_value(f: PathField, value: JsonValue) -> (r: JsonValue)
    ensures
        r@ == spec_rewrite(f, value@),
    decreases level(f), 0nat,
{
    match f {
        PathField::PathString => match value {
            JsonValue::Str(s) => match git_bash_path_to_windows_path(s.as_str()) {
                Some(w) => JsonValue::Str(w),
                None => JsonValue::Str(s),
            },
            other => other,
        },
        PathField::PathStringArray => match value {
            JsonValue::Array(items) => {
                proof {
                    lemma_array_view(items);
                }
                let r = rewrite_items(items, PathField::PathString);
                proof {
                    lemma_array_view(r);
                    assert(spec_rewrite(f, value@)->Array_0 =~= items_view(r@));
                }
                JsonValue::Array(r)
            },
            other => other,
        },
        PathField::EntryPath => match value {
            JsonValue::Object(members) => {
                proof {
                    lemma_object_view(members);
                }
                let ghost ms = members_view(members@);
                let type_index = first_member_index(&members, "type");
                let kind = match type_index {
                    Some(i) => match &members[i].value {
                        JsonValue::Str(t) => {
                            if str_equal(t.as_str(), "path") {
                                1u8
                            } else if str_equal(t.as_str(), "glob_pattern") {
                                2u8
                            } else {
                                0u8
                            }
                        },
                        _ => 0u8,
                    },
                    None => 0u8,
                };
                proof {
                    reveal_strlit("path");
                    reveal_strlit("glob_pattern");
                    assert("path"@ != "glob_pattern"@) by {
                        assert("path"@.len() != "glob_pattern"@.len());
                    }
                }
                assert(kind == 1 <==> type_text(ms) == Some("path"@));
                assert(kind == 2 <==> type_text(ms) == Some("glob_pattern"@));
                if kind == 1 {
                    let r = rewrite_member(members, "path", PathField::PathString);
                    proof {
                        lemma_object_view(r);
                    }
                    JsonValue::Object(r)
                } else if kind == 2 {
                    let r = rewrite_member(members, "pattern", PathField::PathString);
                    proof {
                        lemma_object_view(r);
                    }
                    JsonValue::Object(r)
                } else {
                    JsonValue::Object(members)
                }
            },
            other => other,
        },
        PathField::Entry => match value {
            JsonValue::Object(members) => {
                let r = rewrite_member(members, "path", PathField::EntryPath);
                proof {
                    lemma_object_view(members);
                    lemma_object_view(r);
                }
                JsonValue::Object(r)
            },
            other => other,
        },
        PathField::EntryArray => match value {
            JsonValue::Array(items) => {
                proof {
                    lemma_array_view(items);
                }
                let r = rewrite_items(items, PathField::Entry);
                proof {
                    lemma_array_view(r);
                    assert(spec_rewrite(f, value@)->Array_0 =~= items_view(r@));
                }
                JsonValue::Array(r)
            },
            other => other,
        },
        PathField::FileSystem => match value {
            JsonValue::Object(members) => {
                let a = rewrite_member(members, "read", PathField::PathStringArray);
                let b = rewrite_member(a, "write", PathField::PathStringArray);
                let c = rewrite_member(b, "entries", PathField::EntryArray);
                proof {
                    lemma_object_view(members);
                    lemma_object_view(c);
                }
                JsonValue::Object(c)
            },
            other => other,
        },
        PathField::Profile => match value {
            JsonValue::Object(members) => {
                let r = rewrite_member(members, "file_system", PathField::FileSystem);
                proof {
                    lemma_object_view(members);
                    lemma_object_view(r);
                }
                JsonValue::Object(r)
            },
            other => other,
        },
        PathField::Arguments => match value {
            JsonValue::Object(members) => {
                let a = rewrite_member(members, "workdir", PathField::PathString);
                let b = rewrite_member(a, "additional_permissions", PathField::Profile);
                let c = rewrite_member(b, "permissions", PathField::Profile);
                proof {
                    lemma_object_view(members);
                    lemma_object_view(c);
                }
                JsonValue::Object(c)
            },
            other => other,
        },
    }
}

/// Rewrites the Git Bash paths in a tool call's arguments into Windows spelling.
pub fn rewrite_git_bash_path_arguments_value(value: &mut JsonValue)
    ensures
        final(value)@ == spec_rewrite(PathField::Arguments, old(value)@),
{
    let mut taken = JsonValue::Null;
    std::mem::swap(&mut taken, value);
    *value = rewrite_value(PathField::Arguments, taken);
}


// ---------------------------------------------------------------------------
// Laws
// ---------------------------------------------------------------------------

proof fn lemma_first_key_from(ms: Seq<(Seq<char>, JsonView)>, key: Seq<char>, i: int)
    requires
        0 <= i,
    ensures
        first_key_from(ms, key, i) == -1 || (i <= first_key_from(ms, key, i) < ms.len()
            && ms[first_key_from(ms, key, i)].0 == key),
    decreases ms.len() - i,
{
    if i < ms.len() && ms[i].0 != key {
        lemma_first_key_from(ms, key, i + 1);
    }
}

/// Rewriting a member keeps the names of all members and the values of all members but
/// the first one named `key`.
pub proof fn lemma_rewrite_member_frame(ms: Seq<(Seq<char>, JsonView)>, key: Seq<char>, f: PathField)
    ensures
        spec_rewrite_member(ms, key, f).len() == ms.len(),
        forall|i: int|
            0 <= i < ms.len() ==> (#[trigger] spec_rewrite_member(ms, key, f)[i]).0 == ms[i].0,
        forall|i: int|
            0 <= i < ms.len() && ms[i].0 != key ==> #[trigger] spec_rewrite_member(ms, key, f)[i]
                == ms[i],
{
    lemma_first_key_from(ms, key, 0);
}

/// Rewriting tool arguments keeps every member and its name, and changes only the members
/// named `workdir`, `additional_permissions` and `permissions`.
pub proof fn lemma_rewrite_touches_only_path_members(ms: Seq<(Seq<char>, JsonView)>)
    ensures
        spec_rewrite(PathField::Arguments, JsonView::Object(ms)) matches JsonView::Object(out) && {
            &&& out.len() == ms.len()
            &&& forall|i: int| 0 <= i < ms.len() ==> (#[trigger] out[i]).0 == ms[i].0
            &&& forall|i: int|
                0 <= i < ms.len() && ms[i].0 != "workdir"@ && ms[i].0 != "additional_permissions"@
                    && ms[i].0 != "permissions"@ ==> #[trigger] out[i] == ms[i]
        },
{
    let a = spec_rewrite_member(ms, "workdir"@, PathField::PathString);
    let b = spec_rewrite_member(a, "additional_permissions"@, PathField::Profile);
    lemma_rewrite_member_frame(ms, "workdir"@, PathField::PathString);
    lemma_rewrite_member_frame(a, "additional_permissions"@, PathField::Profile);
    lemma_rewrite_member_frame(b, "permissions"@, PathField::Profile);
}

/// A Git Bash drive path in `workdir` is turned into its Windows spelling.
pub proof fn lemma_workdir_is_converted(ms: Seq<(Seq<char>, JsonView)>, i: int, p: Seq<char>)
    requires
        i == first_key(ms, "workdir"@),
        0 <= i < ms.len(),
        ms[i].1 == JsonView::Str(p),
        spec_git_bash_to_windows_is_some(p),
        "workdir"@ != "additional_permissions"@,
        "workdir"@ != "permissions"@,
    ensures
        spec_rewrite(PathField::Arguments, JsonView::Object(ms)) matches JsonView::Object(out)
            && out[i].1 == JsonView::Str(git_bash_path::spec_git_bash_to_windows(p)->0),
{
    let a = spec_rewrite_member(ms, "workdir"@, PathField::PathString);
    let b = spec_rewrite_member(a, "additional_permissions"@, PathField::Profile);
    lemma_first_key_from(ms, "workdir"@, 0);
    lemma_rewrite_member_frame(a, "additional_permissions"@, PathField::Profile);
    lemma_rewrite_member_frame(b, "permissions"@, PathField::Profile);
    assert(a[i].0 == "workdir"@);
}

proof fn lemma_first_key_same_names(
    a: Seq<(Seq<char>, JsonView)>,
    b: Seq<(Seq<char>, JsonView)>,
    key: Seq<char>,
    i: int,
)
    requires
        0 <= i,
        a.len() == b.len(),
        forall|j: int| 0 <= j < a.len() ==> (#[trigger] a[j]).0 == b[j].0,
    ensures
        first_key_from(a, key, i) == first_key_from(b, key, i),
    decreases a.len() - i,
{
    if i < a.len() && a[i].0 != key {
        lemma_first_key_same_names(a, b, key, i + 1);
    }
}

/// The member with a given name keeps its place and name when other members are
/// rewritten, and it is the one rewritten when its name is asked for.
proof fn lemma_rewrite_member_at(
    ms: Seq<(Seq<char>, JsonView)>,
    key: Seq<char>,
    f: PathField,
    i: int,
)
    requires
        0 <= i < ms.len(),
        i == first_key(ms, key),
    ensures
        spec_rewrite_member(ms, key, f)[i] == (ms[i].0, spec_rewrite(f, ms[i].1)),
{
}

proof fn lemma_rewrite_other_member(
    ms: Seq<(Seq<char>, JsonView)>,
    key: Seq<char>,
    other: Seq<char>,
    f: PathField,
    i: int,
)
    requires
        0 <= i < ms.len(),
        i == first_key(ms, key),
        key != other,
    ensures
        spec_rewrite_member(ms, other, f).len() == ms.len(),
        spec_rewrite_member(ms, other, f)[i] == ms[i],
        first_key(spec_rewrite_member(ms, other, f), key) == i,
{
    lemma_first_key_from(ms, key, 0);
    lemma_rewrite_member_frame(ms, other, f);
    lemma_first_key_same_names(spec_rewrite_member(ms, other, f), ms, key, 0);
}

proof fn lemma_argument_names_differ()
    ensures
        "workdir"@ != "additional_permissions"@,
        "workdir"@ != "permissions"@,
        "additional_permissions"@ != "permissions"@,
        "read"@ != "write"@,
        "read"@ != "entries"@,
        "write"@ != "entries"@,
        "path"@ != "glob_pattern"@,
{
    reveal_strlit("path");
    reveal_strlit("glob_pattern");
    assert("path"@.len() == 4);
    assert("glob_pattern"@.len() == 12);
    reveal_strlit("workdir");
    reveal_strlit("additional_permissions");
    reveal_strlit("permissions");
    reveal_strlit("read");
    reveal_strlit("write");
    reveal_strlit("entries");
    assert("workdir"@.len() == 7);
    assert("additional_permissions"@.len() == 22);
    assert("permissions"@.len() == 11);
    assert("read"@[0] != "write"@[0]);
}

/// The first members named `additional_permissions` and `permissions` of tool
/// arguments are each rewritten as a permission profile, like `workdir` is as a path.
pub proof fn lemma_permission_profiles_are_rewritten(ms: Seq<(Seq<char>, JsonView)>, key: Seq<char>)
    requires
        key == "permissions"@ || key == "additional_permissions"@,
        0 <= first_key(ms, key),
    ensures
        spec_rewrite(PathField::Arguments, JsonView::Object(ms)) matches JsonView::Object(out)
            && out.len() == ms.len() && out[first_key(ms, key)] == (
            key,
            spec_rewrite(PathField::Profile, ms[first_key(ms, key)].1),
        ),
{
    lemma_argument_names_differ();
    lemma_first_key_from(ms, key, 0);
    let i = first_key(ms, key);
    let a = spec_rewrite_member(ms, "workdir"@, PathField::PathString);
    let b = spec_rewrite_member(a, "additional_permissions"@, PathField::Profile);
    lemma_rewrite_other_member(ms, key, "workdir"@, PathField::PathString, i);
    lemma_rewrite_member_frame(a, "additional_permissions"@, PathField::Profile);
    lemma_rewrite_member_frame(b, "permissions"@, PathField::Profile);
    if key == "permissions"@ {
        lemma_rewrite_other_member(a, key, "additional_permissions"@, PathField::Profile, i);
        lemma_rewrite_member_at(b, key, PathField::Profile, i);
    } else {
        lemma_rewrite_member_at(a, key, PathField::Profile, i);
        lemma_first_key_from(a, key, 0);
        lemma_first_key_same_names(b, a, key, 0);
        lemma_rewrite_other_member(b, key, "permissions"@, PathField::Profile, i);
    }
}

/// A Git Bash drive path in the `read` or `write` list of the `file_system` of a
/// permission profile (`permissions` or `additional_permissions`) is turned into its
/// Windows spelling; e.g. `/c/x` becomes `C:\x`.
pub proof fn lemma_permission_paths_are_converted(
    ms: Seq<(Seq<char>, JsonView)>,
    key: Seq<char>,
    list_key: Seq<char>,
    pm: Seq<(Seq<char>, JsonView)>,
    fm: Seq<(Seq<char>, JsonView)>,
    items: Seq<JsonView>,
    n: int,
    p: Seq<char>,
)
    requires
        key == "permissions"@ || key == "additional_permissions"@,
        list_key == "read"@ || list_key == "write"@,
        0 <= first_key(ms, key),
        ms[first_key(ms, key)].1 == JsonView::Object(pm),
        0 <= first_key(pm, "file_system"@),
        pm[first_key(pm, "file_system"@)].1 == JsonView::Object(fm),
        0 <= first_key(fm, list_key),
        fm[first_key(fm, list_key)].1 == JsonView::Array(items),
        0 <= n < items.len(),
        items[n] == JsonView::Str(p),
        spec_git_bash_to_windows_is_some(p),
    ensures
        spec_rewrite(PathField::Arguments, JsonView::Object(ms)) matches JsonView::Object(out)
            && out[first_key(ms, key)].1 matches JsonView::Object(pout)
            && pout[first_key(pm, "file_system"@)].1 matches JsonView::Object(fout)
            && fout[first_key(fm, list_key)].1 matches JsonView::Array(iout) && iout[n]
            == JsonView::Str(git_bash_path::spec_git_bash_to_windows(p)->0),
{
    lemma_argument_names_differ();
    lemma_permission_profiles_are_rewritten(ms, key);
    lemma_first_key_from(pm, "file_system"@, 0);
    lemma_first_key_from(fm, list_key, 0);
    let j = first_key(pm, "file_system"@);
    let k = first_key(fm, list_key);
    lemma_rewrite_member_at(pm, "file_system"@, PathField::FileSystem, j);
    let r1 = spec_rewrite_member(fm, "read"@, PathField::PathStringArray);
    let r2 = spec_rewrite_member(r1, "write"@, PathField::PathStringArray);
    if list_key == "read"@ {
        lemma_rewrite_member_at(fm, list_key, PathField::PathStringArray, k);
        lemma_first_key_from(r1, list_key, 0);
        lemma_first_key_same_names(r1, fm, list_key, 0);
        lemma_rewrite_member_frame(fm, "read"@, PathField::PathStringArray);
        lemma_rewrite_other_member(r1, list_key, "write"@, PathField::PathStringArray, k);
        lemma_rewrite_other_member(r2, list_key, "entries"@, PathField::EntryArray, k);
    } else {
        lemma_rewrite_other_member(fm, list_key, "read"@, PathField::PathStringArray, k);
        lemma_rewrite_member_at(r1, list_key, PathField::PathStringArray, k);
        lemma_rewrite_member_frame(r1, "write"@, PathField::PathStringArray);
        lemma_first_key_same_names(r2, r1, list_key, 0);
        lemma_rewrite_other_member(r2, list_key, "entries"@, PathField::EntryArray, k);
    }
    let r3 = spec_rewrite_member(r2, "entries"@, PathField::EntryArray);
    let arr = spec_rewrite(PathField::PathStringArray, JsonView::Array(items));
    assert(r3[k].1 == arr);
    assert(spec_rewrite(PathField::FileSystem, JsonView::Object(fm)) == JsonView::Object(r3));
    let pout = spec_rewrite_member(pm, "file_system"@, PathField::FileSystem);
    assert(pout[j].1 == JsonView::Object(r3));
    assert(spec_rewrite(PathField::Profile, JsonView::Object(pm)) == JsonView::Object(pout));
    assert(arr->Array_0[n] == spec_rewrite(PathField::PathString, items[n]));
    assert(spec_rewrite(PathField::PathString, items[n]) == JsonView::Str(
        git_bash_path::spec_git_bash_to_windows(p)->0,
    ));
}

/// A Git Bash drive path of a file system entry of a permission profile (`permissions`
/// or `additional_permissions`) is turned into its Windows spelling: the `path` of a
/// `path` entry and the `pattern` of a `glob_pattern` entry.
pub proof fn lemma_entry_paths_are_converted(
    ms: Seq<(Seq<char>, JsonView)>,
    key: Seq<char>,
    pm: Seq<(Seq<char>, JsonView)>,
    fm: Seq<(Seq<char>, JsonView)>,
    items: Seq<JsonView>,
    n: int,
    em: Seq<(Seq<char>, JsonView)>,
    pp: Seq<(Seq<char>, JsonView)>,
    field: Seq<char>,
    p: Seq<char>,
)
    requires
        key == "permissions"@ || key == "additional_permissions"@,
        0 <= first_key(ms, key),
        ms[first_key(ms, key)].1 == JsonView::Object(pm),
        0 <= first_key(pm, "file_system"@),
        pm[first_key(pm, "file_system"@)].1 == JsonView::Object(fm),
        0 <= first_key(fm, "entries"@),
        fm[first_key(fm, "entries"@)].1 == JsonView::Array(items),
        0 <= n < items.len(),
        items[n] == JsonView::Object(em),
        0 <= first_key(em, "path"@),
        em[first_key(em, "path"@)].1 == JsonView::Object(pp),
        (field == "path"@ && type_text(pp) == Some("path"@)) || (field == "pattern"@ && type_text(
            pp,
        ) == Some("glob_pattern"@)),
        0 <= first_key(pp, field),
        pp[first_key(pp, field)].1 == JsonView::Str(p),
        spec_git_bash_to_windows_is_some(p),
    ensures
        spec_rewrite(PathField::Arguments, JsonView::Object(ms)) matches JsonView::Object(out)
            && out[first_key(ms, key)].1 matches JsonView::Object(pout)
            && pout[first_key(pm, "file_system"@)].1 matches JsonView::Object(fout)
            && fout[first_key(fm, "entries"@)].1 matches JsonView::Array(iout)
            && iout[n] matches JsonView::Object(eout)
            && eout[first_key(em, "path"@)].1 matches JsonView::Object(ppout)
            && ppout[first_key(pp, field)].1 == JsonView::Str(
            git_bash_path::spec_git_bash_to_windows(p)->0,
        ),
{
    lemma_argument_names_differ();
    lemma_permission_profiles_are_rewritten(ms, key);
    lemma_first_key_from(pm, "file_system"@, 0);
    lemma_first_key_from(fm, "entries"@, 0);
    lemma_first_key_from(em, "path"@, 0);
    lemma_first_key_from(pp, field, 0);
    let j = first_key(pm, "file_system"@);
    let k = first_key(fm, "entries"@);
    let a = first_key(em, "path"@);
    let b = first_key(pp, field);
    lemma_rewrite_member_at(pm, "file_system"@, PathField::FileSystem, j);
    let r1 = spec_rewrite_member(fm, "read"@, PathField::PathStringArray);
    let r2 = spec_rewrite_member(r1, "write"@, PathField::PathStringArray);
    let r3 = spec_rewrite_member(r2, "entries"@, PathField::EntryArray);
    lemma_rewrite_other_member(fm, "entries"@, "read"@, PathField::PathStringArray, k);
    lemma_rewrite_other_member(r1, "entries"@, "write"@, PathField::PathStringArray, k);
    lemma_rewrite_member_at(r2, "entries"@, PathField::EntryArray, k);
    assert(spec_rewrite(PathField::FileSystem, JsonView::Object(fm)) == JsonView::Object(r3));
    let pout = spec_rewrite_member(pm, "file_system"@, PathField::FileSystem);
    assert(spec_rewrite(PathField::Profile, JsonView::Object(pm)) == JsonView::Object(pout));
    let arr = spec_rewrite(PathField::EntryArray, JsonView::Array(items));
    assert(r3[k].1 == arr);
    assert(arr->Array_0[n] == spec_rewrite(PathField::Entry, items[n]));
    lemma_rewrite_member_at(em, "path"@, PathField::EntryPath, a);
    let eout = spec_rewrite_member(em, "path"@, PathField::EntryPath);
    assert(spec_rewrite(PathField::Entry, items[n]) == JsonView::Object(eout));
    lemma_rewrite_member_at(pp, field, PathField::PathString, b);
    let ppout = spec_rewrite_member(pp, field, PathField::PathString);
    assert(spec_rewrite(PathField::EntryPath, JsonView::Object(pp)) == JsonView::Object(ppout));
}

pub open spec fn spec_git_bash_to_windows_is_some(p: Seq<char>) -> bool {
    git_bash_path::spec_git_bash_to_windows(p) is Some
}


// ---------------------------------------------------------------------------
// JSON text
// ---------------------------------------------------------------------------

#[verifier::external_type_specification]
#[verifier::external_body]
pub struct ExSerdeValue(serde_json::Value);

#[verifier::external_type_specification]
#[verifier::external_body]
pub struct ExSerdeJsonError(serde_json::Error);

/// Name for what `serde_json::from_str::<serde_json::Value>` reads from a text, as a
/// `JsonView`; `None` when the text is not JSON.
pub uninterp spec fn json_parse(text: Seq<char>) -> Option<JsonView>;

/// Name for the text that `serde_json::to_string` writes for a value; `None` when a
/// number's text is not a JSON number.
pub uninterp spec fn json_write(v: JsonView) -> Option<Seq<char>>;

/// Why JSON text could not be read or written: `serde_json`'s message.
#[derive(Debug, Clone, PartialEq, Eq)]
pub struct JsonError {
    message: String,
}

impl View for JsonError {
    type V = Seq<char>;

    closed spec fn view(&self) -> Seq<char> {
        self.message@
    }
}

impl JsonError {
    /// The error message.
    pub fn to_string(&self) -> (r: String)
        ensures
            r@ == self@,
    {
        let mut r = String::new();
        r.append(self.message.as_str());
        r
    }
}

/// A `serde_json::Value` as a `JsonValue`, variant for variant.
#[verifier::external_body]
fn json_value_from_serde(value: serde_json::Value) -> JsonValue {
    match value {
        serde_json::Value::Null => JsonValue::Null,
        serde_json::Value::Bool(b) => JsonValue::Bool(b),
        serde_json::Value::Number(n) => JsonValue::Number(n.to_string()),
        serde_json::Value::String(s) => JsonValue::Str(s),
        serde_json::Value::Array(items) => JsonValue::Array(items.into_iter().map(json_value_from_serde).collect()),
        serde_json::Value::Object(members) => JsonValue::Object(members.into_iter().map(|(key, value)| JsonMember { key, value: json_value_from_serde(value) }).collect()),
    }
}

/// A `JsonValue` as a `serde_json::Value`, variant for variant; a number's text is read
/// by `serde_json::Number::from_str`.
#[verifier::external_body]
fn serde_value_from_json(value: JsonValue) -> serde_json::Result<serde_json::Value> {
    Ok(match value {
        JsonValue::Null => serde_json::Value::Null,
        JsonValue::Bool(b) => serde_json::Value::Bool(b),
        JsonValue::Number(text) => serde_json::Value::Number(text.parse::<serde_json::Number>()?),
        JsonValue::Str(s) => serde_json::Value::String(s),
        JsonValue::Array(items) => serde_json::Value::Array(items.into_iter().map(serde_value_from_json).collect::<serde_json::Result<Vec<_>>>()?),
        JsonValue::Object(members) => serde_json::Value::Object(members.into_iter().map(|m| serde_value_from_json(m.value).map(|v| (m.key, v))).collect::<serde_json::Result<serde_json::Map<String, serde_json::Value>>>()?),
    })
}

/// `serde_json::from_str::<serde_json::Value>`: the value that `text` holds, or the
/// error. What the call reads is named `json_parse`; the error's message is not
/// stated here.
#[verifier::external_body]
fn parse_json(text: &str) -> (r: Result<JsonValue, JsonError>)
    ensures
        match r {
            Ok(v) => json_parse(text@) == Some(v@),
            Err(_) => json_parse(text@) is None,
        },
{
    match serde_json::from_str::<serde_json::Value>(text) {
        Ok(value) => Ok(json_value_from_serde(value)),
        Err(err) => Err(JsonError { message: err.to_string() }),
    }
}

/// `serde_json::to_string` of the value: the text it writes, or the error. What the
/// call writes is named `json_write`; the error's message is not stated here.
#[verifier::external_body]
fn write_json(value: JsonValue) -> (r: Result<String, JsonError>)
    ensures
        match r {
            Ok(s) => json_write(value@) == Some(s@),
            Err(_) => json_write(value@) is None,
        },
{
    serde_value_from_json(value)
        .and_then(|v| serde_json::to_string(&v))
        .map_err(|err| JsonError { message: err.to_string() })
}

/// Rewrites the Git Bash paths in the JSON text of a tool call's arguments into
/// Windows spelling: the text is read, rewritten as `rewrite_git_bash_path_arguments_value`
/// does, and written back. Text that is not JSON is an error.
pub fn rewrite_git_bash_path_arguments(arguments: &str) -> (r: Result<String, JsonError>)
    ensures
        json_parse(arguments@) is None ==> r is Err,
        json_parse(arguments@) matches Some(v) ==> match r {
            Ok(s) => json_write(spec_rewrite(PathField::Arguments, v)) == Some(s@),
            Err(_) => json_write(spec_rewrite(PathField::Arguments, v)) is None,
        },
{
    let mut value = match parse_json(arguments) {
        Ok(v) => v,
        Err(err) => return Err(err),
    };
    rewrite_git_bash_path_arguments_value(&mut value);
    write_json(value)
}

} // verus!
