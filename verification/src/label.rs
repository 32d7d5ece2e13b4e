//! Resolving the foreground application's label from its command line and the
//! window's reported application name.
//!
//! The rules, in order: a command line whose first argument names a Java
//! runtime is special-cased (any argument mentioning `minecraft` gives
//! `Minecraft`; otherwise the file stem of the argument after a literal
//! `-jar` flag; otherwise `Unknown Java App`); any other command line keeps
//! the window's application name; an empty result falls back to the window's
//! application name, and then to `Unknown App`.

use crate::text::after_last;
use crate::text::before_last;
use crate::text::contains_seq;
use crate::text::contains_substr;
use crate::text::has_char;
use crate::text::lemma_after_last_absent;
use crate::text::lemma_after_last_at;
use crate::text::lemma_before_last_at;
use crate::text::rfind_char;
use crate::text::str_eq;
use vstd::prelude::*;

verus! {

/// The file-name component of a path: the suffix after the last `/`.
pub open spec fn file_name_of(path: Seq<char>) -> Seq<char> {
    after_last(path, '/')
}

/// The stem of a non-empty file name: the part before the last `.`, except
/// that a name whose only `.` is its first character keeps the whole name.
pub open spec fn stem_of_name(name: Seq<char>) -> Seq<char>
    recommends
        name.len() > 0,
{
    if has_char(name.subrange(1, name.len() as int), '.') {
        before_last(name, '.')
    } else {
        name
    }
}

/// The file stem of a path; `None` when the path has no usable file name
/// (empty, or a trailing `.` or `..` component).
pub open spec fn spec_file_stem(path: Seq<char>) -> Option<Seq<char>> {
    let name = file_name_of(path);
    if name.len() == 0 || name == seq!['.'] || name == seq!['.', '.'] {
        None
    } else {
        Some(stem_of_name(name))
    }
}

/// The label taken from the argument after the first literal `-jar` flag:
/// its file stem, or `Unknown Java App` when there is no `-jar` flag, no
/// argument follows it, or that argument has no file stem.
pub open spec fn jar_label(cmd: Seq<Seq<char>>) -> Seq<char>
    decreases cmd.len(),
{
    if cmd.len() == 0 {
        "Unknown Java App"@
    } else if cmd[0] == "-jar"@ {
        if cmd.len() >= 2 && spec_file_stem(cmd[1]) is Some {
            spec_file_stem(cmd[1])->Some_0
        } else {
            "Unknown Java App"@
        }
    } else {
        jar_label(cmd.subrange(1, cmd.len() as int))
    }
}

/// Whether any argument contains `sub`.
pub open spec fn any_contains(cmd: Seq<Seq<char>>, sub: Seq<char>) -> bool {
    exists|i: int| 0 <= i < cmd.len() && #[trigger] contains_seq(cmd[i], sub)
}

/// The label before the empty-label fallbacks.
pub open spec fn raw_label(cmd: Seq<Seq<char>>, window_name: Seq<char>) -> Seq<char> {
    if cmd.len() > 0 && contains_seq(cmd[0], "java"@) {
        if any_contains(cmd, "minecraft"@) {
            "Minecraft"@
        } else {
            jar_label(cmd)
        }
    } else {
        window_name
    }
}

/// The resolved label: the raw label, falling back to the window's application
/// name when empty, and to `Unknown App` when that is empty too.
pub open spec fn spec_resolve_label(cmd: Seq<Seq<char>>, window_name: Seq<char>) -> Seq<char> {
    let raw = raw_label(cmd, window_name);
    if raw.len() > 0 {
        raw
    } else if window_name.len() > 0 {
        window_name
    } else {
        "Unknown App"@
    }
}

/// The file stem of `path`, as `spec_file_stem` describes it.
pub fn file_stem_of(path: &str) -> (r: Option<String>)
    ensures
        match r {
            Some(st) => spec_file_stem(path@) == Some(st@),
            None => spec_file_stem(path@) is None,
        },
{
    let n = path.unicode_len();
    let name: &str = match rfind_char(path, '/') {
        Some(i) => {
            proof {
                lemma_after_last_at(path@, '/', i as int);
            }
            path.substring_char(i + 1, n)
        },
        None => {
            proof {
                lemma_after_last_absent(path@, '/');
            }
            path
        },
    };
    let nl = name.unicode_len();
    if nl == 0 {
        return None;
    }
    if nl == 1 && name.get_char(0) == '.' {
        proof {
            assert(name@ =~= seq!['.']);
        }
        return None;
    }
    if nl == 2 && name.get_char(0) == '.' && name.get_char(1) == '.' {
        proof {
            assert(name@ =~= seq!['.', '.']);
        }
        return None;
    }
    proof {
        assert(name@ != seq!['.']) by {
            if name@ == seq!['.'] {
                assert(name@.len() == 1 && name@[0] == '.');
            }
        }
        assert(name@ != seq!['.', '.']) by {
            if name@ == seq!['.', '.'] {
                assert(name@.len() == 2 && name@[0] == '.' && name@[1] == '.');
            }
        }
    }
    match rfind_char(name, '.') {
        Some(d) => {
            if d >= 1 {
                proof {
                    assert(name@.subrange(1, nl as int)[d - 1] == '.');
                    lemma_before_last_at(name@, '.', d as int);
                }
                Some(name.substring_char(0, d).to_owned())
            } else {
                proof {
                    assert forall|j: int| 0 <= j < name@.subrange(1, nl as int).len() implies name@.subrange(
                        1,
                        nl as int,
                    )[j] != '.' by {
                        assert(name@.subrange(1, nl as int)[j] == name@[j + 1]);
                    }
                }
                Some(name.to_owned())
            }
        },
        None => {
            proof {
                assert forall|j: int| 0 <= j < name@.subrange(1, nl as int).len() implies name@.subrange(
                    1,
                    nl as int,
                )[j] != '.' by {
                    assert(name@.subrange(1, nl as int)[j] == name@[j + 1]);
                }
            }
            Some(name.to_owned())
        },
    }
}

/// Whether any argument of `cmd` contains `sub`.
fn any_arg_contains(cmd: &Vec<String>, sub: &str) -> (r: bool)
    ensures
        r == any_contains(cmd.deep_view(), sub@),
{
    let mut i: usize = 0;
    while i < cmd.len()
        invariant
            i <= cmd.len(),
            forall|j: int| 0 <= j < i ==> !(#[trigger] contains_seq(cmd.deep_view()[j], sub@)),
        decreases cmd.len() - i,
    {
        if contains_substr(cmd[i].as_str(), sub) {
            proof {
                assert(cmd.deep_view()[i as int] == cmd@[i as int]@);
            }
            return true;
        }
        proof {
            assert(cmd.deep_view()[i as int] == cmd@[i as int]@);
        }
        i += 1;
    }
    false
}

/// The `-jar` label of `cmd`, as `jar_label` describes it.
fn jar_label_of(cmd: &Vec<String>) -> (r: String)
    ensures
        r@ == jar_label(cmd.deep_view()),
{
    let ghost all = cmd.deep_view();
    proof {
        assert(all.subrange(0, all.len() as int) =~= all);
    }
    let mut i: usize = 0;
    while i < cmd.len()
        invariant
            i <= cmd.len(),
            all == cmd.deep_view(),
            all.len() == cmd.len(),
            jar_label(all) == jar_label(all.subrange(i as int, all.len() as int)),
        decreases cmd.len() - i,
    {
        proof {
            assert(cmd.deep_view()[i as int] == cmd@[i as int]@);
        }
        let ghost rest = all.subrange(i as int, all.len() as int);
        if str_eq(cmd[i].as_str(), "-jar") {
            proof {
                assert(rest[0] == all[i as int]);
            }
            if i + 1 < cmd.len() {
                proof {
                    assert(rest[1] == all[i + 1]);
                    assert(cmd.deep_view()[i + 1] == cmd@[i + 1]@);
                }
                match file_stem_of(cmd[i + 1].as_str()) {
                    Some(st) => {
                        return st;
                    },
                    None => {
                        return "Unknown Java App".to_owned();
                    },
                }
            } else {
                proof {
                    assert(rest.len() == 1);
                }
                return "Unknown Java App".to_owned();
            }
        }
        proof {
            assert(rest[0] == all[i as int]);
            assert(rest.subrange(1, rest.len() as int) =~= all.subrange(
                i + 1,
                all.len() as int,
            ));
        }
        i += 1;
    }
    proof {
        assert(all.subrange(all.len() as int, all.len() as int) =~= Seq::<Seq<char>>::empty());
    }
    "Unknown Java App".to_owned()
}

/// Resolve the foreground label from the owning process's command line and the
/// window's reported application name. A failed process lookup is an empty
/// command line: it keeps the window's application name, as the fallbacks say.
pub fn resolve_label(cmd: &Vec<String>, window_name: &str) -> (r: String)
    ensures
        r@ == spec_resolve_label(cmd.deep_view(), window_name@),
{
    let raw: String = if cmd.len() > 0 && contains_substr(cmd[0].as_str(), "java") {
        proof {
            assert(cmd.deep_view()[0] == cmd@[0]@);
        }
        if any_arg_contains(cmd, "minecraft") {
            "Minecraft".to_owned()
        } else {
            jar_label_of(cmd)
        }
    } else {
        proof {
            if cmd.len() > 0 {
                assert(cmd.deep_view()[0] == cmd@[0]@);
            }
        }
        window_name.to_owned()
    };
    if raw.as_str().unicode_len() > 0 {
        raw
    } else if window_name.unicode_len() > 0 {
        window_name.to_owned()
    } else {
        "Unknown App".to_owned()
    }
}

/// The frontmost-application label used on platforms that report it directly:
/// kept as it is, except that the session placeholder process `loginwindow`
/// counts as no foreground application at all.
pub fn frontmost_label(frontmost_name: &str) -> (r: Option<String>)
    ensures
        match r {
            Some(l) => l@ == frontmost_name@ && frontmost_name@ != "loginwindow"@,
            None => frontmost_name@ == "loginwindow"@,
        },
{
    if str_eq(frontmost_name, "loginwindow") {
        None
    } else {
        Some(frontmost_name.to_owned())
    }
}

} // verus!
