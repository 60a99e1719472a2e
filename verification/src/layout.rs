//! Derivation of target names and display keys from trace-file paths.
//!
//! Walking the build tree is I/O and lives outside the library; what lives
//! here is every decision made about a path once it is in hand: which files
//! are trace files, which target a path belongs to, and the normalized
//! display key a file is accounted under.

use vstd::prelude::*;
use crate::strkit::{
    ends_with, is_prefix, is_suffix, join_slash, spec_join, spec_split, split_slash, starts_with,
    str_eqs, str_le, string_le,
};

verus! {

/// Why the build metadata directory could not be resolved. The first two are
/// fatal to the whole run; no partial summary is produced.
#[derive(Clone, Copy, PartialEq, Eq, Structural, Debug)]
pub enum CmakeCachePathInferenceError {
    SourceDirNotFound,
    BuildDirNotFound,
    CmakeCacheNotFound,
}

/// Where one trace file is accounted: the key it is displayed under and the
/// target it belongs to.
pub struct LocatedTraceFile {
    pub display_key: String,
    pub target_name: String,
}

/// The target name the path segments imply: the last segment carrying the
/// target suffix `.dir`, stripped of that suffix; `NONE` if there is none.
pub open spec fn single_config_target(segs: Seq<Seq<char>>) -> Seq<char>
    decreases segs.len(),
{
    if segs.len() == 0 {
        "NONE"@
    } else {
        let e = segs.last();
        if is_suffix(".dir"@, e) {
            e.take(e.len() - 4)
        } else {
            single_config_target(segs.drop_last())
        }
    }
}

/// The segments kept for the display key: target segments and the `CMakeFiles`
/// bookkeeping segment are dropped.
pub open spec fn kept_segments(segs: Seq<Seq<char>>) -> Seq<Seq<char>>
    decreases segs.len(),
{
    if segs.len() == 0 {
        Seq::empty()
    } else {
        let rest = kept_segments(segs.drop_last());
        let e = segs.last();
        if is_suffix(".dir"@, e) || e == "CMakeFiles"@ {
            rest
        } else {
            rest.push(e)
        }
    }
}

/// `s` with a trailing `.json` removed, if it carries one.
pub open spec fn without_json_suffix(s: Seq<char>) -> Seq<char> {
    if is_suffix(".json"@, s) {
        s.take(s.len() - 5)
    } else {
        s
    }
}

/// Where a single-configuration trace file at this path (relative to the
/// selected directory) is accounted: `None` if the path is not a trace file
/// (wrong extension, or the compiler command database).
pub open spec fn spec_single_config_locate(s: Seq<char>) -> Option<(Seq<char>, Seq<char>)> {
    if !is_suffix(".json"@, s) || is_suffix("compile_commands.json"@, s) {
        None
    } else {
        let segs = spec_split(s, '/');
        Some((without_json_suffix(spec_join(kept_segments(segs), '/')), single_config_target(segs)))
    }
}

/// Locate one file of a single-configuration layout from its path relative
/// to the selected directory.
pub fn locate_single_config_file(relative_path: &str) -> (r: Option<LocatedTraceFile>)
    ensures
        match r {
            Some(l) => spec_single_config_locate(relative_path@) == Some(
                (l.display_key@, l.target_name@),
            ),
            None => spec_single_config_locate(relative_path@) is None,
        },
{
    proof {
        reveal_strlit(".json");
        reveal_strlit(".dir");
    }
    if !ends_with(relative_path, ".json") || ends_with(relative_path, "compile_commands.json") {
        return None;
    }
    let segs = split_slash(relative_path);
    let ghost gsegs = spec_split(relative_path@, '/');
    let mut target = String::from_str("NONE");
    let mut kept: Vec<String> = Vec::new();
    let mut i: usize = 0;
    while i < segs.len()
        invariant
            i <= segs@.len(),
            segs@.map_values(|t: String| t@) == gsegs,
            target@ == single_config_target(gsegs.take(i as int)),
            kept@.map_values(|t: String| t@) == kept_segments(gsegs.take(i as int)),
        decreases segs@.len() - i,
    {
        let seg = &segs[i];
        proof {
            assert(gsegs.take(i + 1).drop_last() =~= gsegs.take(i as int));
            assert(gsegs.take(i + 1).last() == gsegs[i as int]);
            assert(segs@[i as int]@ == gsegs[i as int]);
        }
        if ends_with(seg.as_str(), ".dir") {
            proof {
                reveal_strlit(".dir");
                assert(".dir"@.len() == 4);
            }
            let len = seg.as_str().unicode_len();
            target = seg.as_str().substring_char(0, len - 4).to_owned();
        } else if !str_eqs(seg.as_str(), "CMakeFiles") {
            kept.push(seg.clone());
            proof {
                assert(kept@.map_values(|t: String| t@) =~= kept_segments(gsegs.take(i + 1)));
            }
        }
        i = i + 1;
    }
    proof {
        assert(gsegs.take(gsegs.len() as int) =~= gsegs);
    }
    let joined = join_slash(&kept);
    let display_key = if ends_with(joined.as_str(), ".json") {
        proof {
            reveal_strlit(".json");
            assert(".json"@.len() == 5);
        }
        let jlen = joined.as_str().unicode_len();
        joined.as_str().substring_char(0, jlen - 5).to_owned()
    } else {
        joined
    };
    Some(LocatedTraceFile { display_key, target_name: target })
}

/// The target name a top-level directory name implies in a
/// multi-configuration layout: `None` unless it carries the `.dir` suffix.
pub open spec fn spec_multi_config_target(name: Seq<char>) -> Option<Seq<char>> {
    if is_suffix(".dir"@, name) {
        Some(name.take(name.len() - 4))
    } else {
        None
    }
}

/// The target a top-level directory of the metadata directory stands for.
pub fn multi_config_target(name: &str) -> (r: Option<String>)
    ensures
        match r {
            Some(t) => spec_multi_config_target(name@) == Some(t@),
            None => spec_multi_config_target(name@) is None,
        },
{
    if ends_with(name, ".dir") {
        proof {
            reveal_strlit(".dir");
            assert(".dir"@.len() == 4);
        }
        let len = name.unicode_len();
        Some(name.substring_char(0, len - 4).to_owned())
    } else {
        None
    }
}

/// The display key of a multi-configuration trace file from its path
/// relative to the variant directory: `None` unless it is a trace file.
pub open spec fn spec_multi_config_display_key(rel: Seq<char>) -> Option<Seq<char>> {
    if is_suffix(".json"@, rel) {
        Some(rel.take(rel.len() - 5))
    } else {
        None
    }
}

/// The display key of a multi-configuration trace file.
pub fn multi_config_display_key(relative_path: &str) -> (r: Option<String>)
    ensures
        match r {
            Some(k) => spec_multi_config_display_key(relative_path@) == Some(k@),
            None => spec_multi_config_display_key(relative_path@) is None,
        },
{
    if ends_with(relative_path, ".json") {
        proof {
            reveal_strlit(".json");
            assert(".json"@.len() == 5);
        }
        let len = relative_path.unicode_len();
        Some(relative_path.substring_char(0, len - 5).to_owned())
    } else {
        None
    }
}

/// Among the entries of a `build` directory, the lexicographically first
/// name that starts with the host platform's prefix: the directory the
/// metadata is looked for under.
pub fn pick_platform_build_dir(names: &Vec<String>, prefix: &str) -> (r: Option<String>)
    ensures
        match r {
            Some(m) => {
                &&& is_prefix(prefix@, m@)
                &&& (exists|i: int| 0 <= i < names@.len() && names@[i]@ == m@)
                &&& (forall|i: int|
                    0 <= i < names@.len() && is_prefix(prefix@, names@[i]@) ==> str_le(
                        m@,
                        names@[i]@,
                    ))
            },
            None => forall|i: int| 0 <= i < names@.len() ==> !is_prefix(prefix@, names@[i]@),
        },
{
    let mut best: Option<String> = None;
    let mut i: usize = 0;
    while i < names.len()
        invariant
            i <= names@.len(),
            match best {
                Some(m) => {
                    &&& is_prefix(prefix@, m@)
                    &&& (exists|j: int| 0 <= j < i && names@[j]@ == m@)
                    &&& (forall|j: int|
                        0 <= j < i && is_prefix(prefix@, names@[j]@) ==> str_le(m@, names@[j]@))
                },
                None => forall|j: int| 0 <= j < i ==> !is_prefix(prefix@, names@[j]@),
            },
        decreases names@.len() - i,
    {
        let name = &names[i];
        if starts_with(name.as_str(), prefix) {
            let better = match &best {
                Some(m) => string_le(name.as_str(), m.as_str()),
                None => true,
            };
            if better {
                proof {
                    let gb = best;
                    match gb {
                        Some(m) => {
                            assert forall|j: int|
                                0 <= j < i + 1 && is_prefix(
                                    prefix@,
                                    names@[j]@,
                                ) implies str_le(names@[i as int]@, names@[j]@) by {
                                if j < i {
                                    crate::strkit::lemma_str_le_trans(
                                        names@[i as int]@,
                                        m@,
                                        names@[j]@,
                                    );
                                } else {
                                    crate::strkit::lemma_str_le_total(
                                        names@[i as int]@,
                                        names@[i as int]@,
                                    );
                                }
                            }
                        },
                        None => {},
                    }
                    crate::strkit::lemma_str_le_total(names@[i as int]@, names@[i as int]@);
                }
                best = Some(name.clone());
                proof {
                    assert(names@[i as int]@ == name@);
                }
            } else {
                proof {
                    let gb = best;
                    match gb {
                        Some(m) => {
                            crate::strkit::lemma_str_le_total(names@[i as int]@, m@);
                        },
                        None => {},
                    }
                }
            }
        }
        i = i + 1;
    }
    best
}

} // verus!
