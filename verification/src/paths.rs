//! Project-directory naming and cross-device path remapping.
use vstd::prelude::*;

use crate::text::{chars_of, push_char};

verus! {

broadcast use vstd::string::group_string_axioms;

/// One rule of a device's path table: paths under `from_prefix` live under
/// `to_prefix` on this device.
#[derive(Debug)]
pub struct PathMapping {
    pub from_prefix: String,
    pub to_prefix: String,
}

/// `c` is an ASCII letter or digit (`char::is_ascii_alphanumeric`).
pub open spec fn is_ascii_alnum(c: char) -> bool {
    ||| ('0' <= c && c <= '9')
    ||| ('a' <= c && c <= 'z')
    ||| ('A' <= c && c <= 'Z')
}

/// The character that stands for `c` in a project directory name.
pub open spec fn munge_char(c: char) -> char {
    if is_ascii_alnum(c) {
        c
    } else {
        '-'
    }
}

/// The directory name under the `projects` directory of its home for a working directory:
/// every character that is not an ASCII letter or digit becomes `-`.
pub open spec fn munged(cwd: Seq<char>) -> Seq<char> {
    cwd.map_values(|c: char| munge_char(c))
}

fn is_ascii_alnum_exec(c: char) -> (r: bool)
    ensures
        r == is_ascii_alnum(c),
{
    ('0' <= c && c <= '9') || ('a' <= c && c <= 'z') || ('A' <= c && c <= 'Z')
}

/// Maps a working directory to the project directory name the `ClaudeCode` CLI uses.
pub fn munge_claude_project_dir(cwd: &str) -> (r: String)
    ensures
        r@ == munged(cwd@),
        r@.len() == cwd@.len(),
        forall|i: int|
            0 <= i < cwd@.len() ==> #[trigger] r@[i] == if ('0' <= cwd@[i] && cwd@[i] <= '9') || (
            'a' <= cwd@[i] && cwd@[i] <= 'z') || ('A' <= cwd@[i] && cwd@[i] <= 'Z') {
                cwd@[i]
            } else {
                '-'
            },
{
    let cs = chars_of(cwd);
    let mut r = String::new();
    let mut i: usize = 0;
    while i < cs.len()
        invariant
            cs@ == cwd@,
            i <= cs@.len(),
            r@ == munged(cs@.take(i as int)),
        decreases cs@.len() - i,
    {
        let c = cs[i];
        let m = if is_ascii_alnum_exec(c) {
            c
        } else {
            '-'
        };
        push_char(&mut r, m);
        i = i + 1;
        assert(munged(cs@.take(i as int)) =~= munged(cs@.take(i - 1)).push(m));
    }
    assert(cs@.take(i as int) =~= cs@);
    proof {
        lemma_munge_keeps_letters_and_digits(cwd@);
    }
    r
}

/// Munging keeps every ASCII letter and digit in place and turns every other
/// character into `-`, one character for one.
pub proof fn lemma_munge_keeps_letters_and_digits(cwd: Seq<char>)
    ensures
        munged(cwd).len() == cwd.len(),
        forall|i: int|
            0 <= i < cwd.len() ==> #[trigger] munged(cwd)[i] == if ('0' <= cwd[i] && cwd[i] <= '9')
                || ('a' <= cwd[i] && cwd[i] <= 'z') || ('A' <= cwd[i] && cwd[i] <= 'Z') {
                cwd[i]
            } else {
                '-'
            },
{
}

/// Munging keeps the length, leaves only ASCII letters, digits and `-`,
/// and applying it twice gives what applying it once gives.
pub proof fn lemma_munge_shape(cwd: Seq<char>)
    ensures
        munged(cwd).len() == cwd.len(),
        forall|i: int|
            0 <= i < cwd.len() ==> is_ascii_alnum(#[trigger] munged(cwd)[i]) || munged(cwd)[i]
                == '-',
        munged(munged(cwd)) == munged(cwd),
{
    assert(munged(munged(cwd)) =~= munged(cwd));
}

/// `m` applies to `path`: its source prefix begins the path.
pub open spec fn mapping_applies(m: PathMapping, path: Seq<char>) -> bool {
    m.from_prefix@.is_prefix_of(path)
}

/// `maps[k]` is the rule `remap_path` picks for `path`: it applies, no applying
/// rule has a longer source prefix, and no later rule has one as long.
pub open spec fn is_chosen(maps: Seq<PathMapping>, path: Seq<char>, k: int) -> bool {
    &&& 0 <= k < maps.len()
    &&& mapping_applies(maps[k], path)
    &&& forall|j: int|
        0 <= j < maps.len() && #[trigger] mapping_applies(maps[j], path) ==> {
            &&& maps[j].from_prefix@.len() <= maps[k].from_prefix@.len()
            &&& (k < j ==> maps[j].from_prefix@.len() < maps[k].from_prefix@.len())
        }
}

/// A prefix names a Windows drive (`X:\` or `X:/`), judged on its bytes
/// 1..3 in its UTF-8 form: a first character outside ASCII takes more than
/// one byte and so never qualifies.
pub open spec fn is_drive_prefix(p: Seq<char>) -> bool {
    &&& p.len() >= 3
    &&& (p[0] as u32) < 0x80
    &&& p[1] == ':'
    &&& (p[2] == '\\' || p[2] == '/')
}

/// The separator that paths under `to_prefix` use.
pub open spec fn target_separator(to_prefix: Seq<char>) -> char {
    if is_drive_prefix(to_prefix) {
        '\\'
    } else {
        '/'
    }
}

/// `rest` with every `\` and `/` replaced by `sep`.
pub open spec fn convert_separators(rest: Seq<char>, sep: char) -> Seq<char> {
    rest.map_values(|c: char|
        if c == '\\' || c == '/' {
            sep
        } else {
            c
        })
}

/// The path that `m` gives for `path`: the target prefix followed by the rest
/// of the path in the target's separators.
pub open spec fn rewrite_with(m: PathMapping, path: Seq<char>) -> Seq<char> {
    m.to_prefix@ + convert_separators(
        path.skip(m.from_prefix@.len() as int),
        target_separator(m.to_prefix@),
    )
}

fn is_drive_prefix_exec(p: &Vec<char>) -> (r: bool)
    ensures
        r == is_drive_prefix(p@),
{
    p.len() >= 3 && (p[0] as u32) < 0x80 && p[1] == ':' && (p[2] == '\\' || p[2] == '/')
}

/// Rewrites `path` by the rule whose source prefix is the longest one that
/// begins it (the last such rule when several tie), or gives `None` when no
/// rule applies.
pub fn remap_path(path: &str, mappings: &[PathMapping]) -> (r: Option<String>)
    ensures
        r is None <==> (forall|j: int|
            0 <= j < mappings@.len() ==> !#[trigger] mapping_applies(mappings@[j], path@)),
        r matches Some(out) ==> exists|k: int|
            is_chosen(mappings@, path@, k) && out@ == rewrite_with(mappings@[k], path@),
        r matches Some(out) ==> exists|k: int|
            #![trigger mappings@[k]]
            0 <= k < mappings@.len() && mappings@[k].from_prefix@.is_prefix_of(path@) && out@
                == rewrite_with(mappings@[k], path@) && forall|j: int|
                0 <= j < mappings@.len() && #[trigger] mappings@[j].from_prefix@.is_prefix_of(
                    path@,
                ) ==> mappings@[j].from_prefix@.len() <= mappings@[k].from_prefix@.len(),
{
    let pc = chars_of(path);
    let mut best: Option<usize> = None;
    let mut best_len: usize = 0;
    let mut i: usize = 0;
    while i < mappings.len()
        invariant
            pc@ == path@,
            i <= mappings@.len(),
            best is None ==> forall|j: int|
                0 <= j < i ==> !#[trigger] mapping_applies(mappings@[j], path@),
            best matches Some(b) ==> {
                &&& b < i
                &&& best_len == mappings@[b as int].from_prefix@.len()
                &&& mapping_applies(mappings@[b as int], path@)
                &&& forall|j: int|
                    0 <= j < i && #[trigger] mapping_applies(mappings@[j], path@) ==> {
                        &&& mappings@[j].from_prefix@.len() <= best_len
                        &&& (b < j ==> mappings@[j].from_prefix@.len() < best_len)
                    }
            },
        decreases mappings@.len() - i,
    {
        let fc = chars_of(mappings[i].from_prefix.as_str());
        let applies = crate::text::starts_with(path, mappings[i].from_prefix.as_str());
        if applies && (best.is_none() || fc.len() >= best_len) {
            best = Some(i);
            best_len = fc.len();
        }
        i = i + 1;
    }
    match best {
        None => None,
        Some(b) => {
            let m = &mappings[b];
            let tc = chars_of(m.to_prefix.as_str());
            let sep = if is_drive_prefix_exec(&tc) {
                '\\'
            } else {
                '/'
            };
            let ghost rest = path@.skip(best_len as int);
            let mut out = String::new();
            crate::text::append_str(&mut out, m.to_prefix.as_str());
            let mut k: usize = best_len;
            while k < pc.len()
                invariant
                    pc@ == path@,
                    best_len <= k <= pc@.len(),
                    rest == path@.skip(best_len as int),
                    out@ == m.to_prefix@ + convert_separators(
                        rest.take(k - best_len),
                        sep,
                    ),
                decreases pc@.len() - k,
            {
                let c = pc[k];
                let d = if c == '\\' || c == '/' {
                    sep
                } else {
                    c
                };
                push_char(&mut out, d);
                k = k + 1;
                assert(rest.take(k - best_len) =~= rest.take(k - 1 - best_len).push(c));
                assert(convert_separators(rest.take(k - best_len), sep) =~= convert_separators(
                    rest.take(k - 1 - best_len),
                    sep,
                ).push(d));
            }
            assert(rest.take(k - best_len) =~= rest);
            assert(is_chosen(mappings@, path@, b as int));
            proof {
                lemma_chosen_is_longest(mappings@, path@, b as int);
            }
            Some(out)
        },
    }
}

/// Whatever rule `remap_path` picks, the result begins with that rule's
/// target prefix and uses only the target's separator after it.
pub proof fn lemma_remap_uses_target_separator(m: PathMapping, path: Seq<char>)
    ensures
        m.to_prefix@.is_prefix_of(rewrite_with(m, path)),
        forall|i: int|
            m.to_prefix@.len() <= i < rewrite_with(m, path).len() ==> {
                let c = #[trigger] rewrite_with(m, path)[i];
                (c == '\\' || c == '/') ==> c == target_separator(m.to_prefix@)
            },
{
    let out = rewrite_with(m, path);
    assert(out.take(m.to_prefix@.len() as int) =~= m.to_prefix@);
}

/// The longest prefix wins: the rule `remap_path` picks begins the path, and
/// no rule that begins the path has a longer source prefix.
pub proof fn lemma_chosen_is_longest(maps: Seq<PathMapping>, path: Seq<char>, k: int)
    requires
        is_chosen(maps, path, k),
    ensures
        0 <= k < maps.len(),
        maps[k].from_prefix@.is_prefix_of(path),
        forall|j: int|
            0 <= j < maps.len() && #[trigger] maps[j].from_prefix@.is_prefix_of(path)
                ==> maps[j].from_prefix@.len() <= maps[k].from_prefix@.len(),
{
    assert forall|j: int|
        0 <= j < maps.len() && #[trigger] maps[j].from_prefix@.is_prefix_of(path) implies maps[j].from_prefix@.len()
            <= maps[k].from_prefix@.len() by {
        assert(mapping_applies(maps[j], path));
    }
}

/// The chosen rule is unique: at most one index satisfies `is_chosen`.
pub proof fn lemma_chosen_unique(maps: Seq<PathMapping>, path: Seq<char>, k1: int, k2: int)
    requires
        is_chosen(maps, path, k1),
        is_chosen(maps, path, k2),
    ensures
        k1 == k2,
{
    assert(mapping_applies(maps[k1], path));
    assert(mapping_applies(maps[k2], path));
}

/// `base` joined with `part` as `Path::join` joins them on Unix: an absolute
/// `part` replaces `base`; otherwise a `/` separates the two unless `base` is
/// empty or already ends in one.
pub open spec fn path_join(base: Seq<char>, part: Seq<char>) -> Seq<char> {
    if part.len() > 0 && part[0] == '/' {
        part
    } else if base.len() == 0 || base.last() == '/' {
        base + part
    } else {
        base + seq!['/'] + part
    }
}

/// Joins two path pieces as `Path::join` does on Unix. On Windows `Path::join`
/// separates with `\` and treats drive and root prefixes of its own, which
/// this function does not follow.
pub fn join_path(base: &str, part: &str) -> (r: String)
    ensures
        r@ == path_join(base@, part@),
{
    let b = chars_of(base);
    if crate::text::starts_with_char(part, '/') {
        return crate::text::owned(part);
    }
    let mut r = crate::text::owned(base);
    if b.len() > 0 && b[b.len() - 1] != '/' {
        push_char(&mut r, '/');
    }
    crate::text::append_str(&mut r, part);
    r
}

} // verus!
