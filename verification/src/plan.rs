//! Decisions the surrounding downloader makes around one extraction call:
//! which downloaded files are worth fetching, how a character file's paired
//! override descriptor is named, and the user configuration those decisions
//! read. All of it is pure string logic; the filesystem and network work
//! that acts on these decisions stays outside the library.

use crate::archive::ArchiveType;
use vstd::prelude::*;
use vstd::string::{StrSliceExecFns, StringExecFns};

verus! {

/// User configuration. `bepinex_path` is the game's plugin directory chosen
/// by the user; `crewboom_no_cypher` redirects character files to the
/// `no_cypher` subdirectory; `include_character_overrides` asks for a paired
/// override descriptor beside every character file.
#[derive(Debug, Clone)]
pub struct Config {
    pub bepinex_path: Option<String>,
    pub crewboom_no_cypher: bool,
    pub include_character_overrides: bool,
}

impl Default for Config {
    /// No path chosen, both switches off.
    fn default() -> (r: Config)
        ensures
            r.bepinex_path is None,
            !r.crewboom_no_cypher,
            !r.include_character_overrides,
    {
        Config { bepinex_path: None, crewboom_no_cypher: false, include_character_overrides: false }
    }
}

/// Index right after the last occurrence of `a` or `b` in `s`, or 0 when
/// neither occurs.
pub open spec fn cut_after_last(s: Seq<char>, a: char, b: char) -> int
    decreases s.len(),
{
    if s.len() == 0 {
        0
    } else if s.last() == a || s.last() == b {
        s.len() as int
    } else {
        cut_after_last(s.drop_last(), a, b)
    }
}

proof fn lemma_cut_after_last_bounds(s: Seq<char>, a: char, b: char)
    ensures
        0 <= cut_after_last(s, a, b) <= s.len(),
    decreases s.len(),
{
    if s.len() == 0 {
    } else if s.last() == a || s.last() == b {
    } else {
        lemma_cut_after_last_bounds(s.drop_last(), a, b);
    }
}

/// The characters of `s` after the last occurrence of `a` or `b`.
pub open spec fn spec_tail_after_last(s: Seq<char>, a: char, b: char) -> Seq<char> {
    s.subrange(cut_after_last(s, a, b), s.len() as int)
}

/// The part of `s` after its last occurrence of `a` or `b`; all of `s` when
/// neither occurs, empty when `s` ends with one.
fn tail_after_last(s: &str, a: char, b: char) -> (r: String)
    ensures
        r@ == spec_tail_after_last(s@, a, b),
{
    let n = s.unicode_len();
    let mut cut: usize = 0;
    let mut i: usize = 0;
    while i < n
        invariant
            i <= n,
            n == s@.len(),
            cut <= i,
            cut == cut_after_last(s@.take(i as int), a, b),
        decreases n - i,
    {
        let c = s.get_char(i);
        proof {
            assert(s@.take(i as int + 1).drop_last() =~= s@.take(i as int));
            assert(s@.take(i as int + 1).last() == s@[i as int]);
        }
        if c == a || c == b {
            cut = i + 1;
        }
        i = i + 1;
    }
    proof {
        assert(s@.take(n as int) =~= s@);
        lemma_cut_after_last_bounds(s@, a, b);
    }
    let tail = s.substring_char(cut, n);
    tail.to_owned()
}

/// The in-archive name's final path component: what stands after the last
/// `/` or `\`, the whole name when it has no separator.
pub open spec fn spec_basename(s: Seq<char>) -> Seq<char> {
    spec_tail_after_last(s, '/', '\\')
}

/// Strip an entry name down to its final path component, so a nested entry
/// is placed flat in the target directory. Callers hand in names whose
/// final component is a plain file name — nonempty and neither `.` nor
/// `..` — as every name that passed the suffix whitelist is; a name ending
/// in a separator or in a relative-reference component names no file, and
/// on such strings the final component is not well defined, so they are
/// excluded. On the admitted domain the result agrees with the platform
/// file-name rule under the Windows convention of `/` and `\` as
/// separators.
pub fn path_to_filename(path: &str) -> (r: String)
    requires
        spec_basename(path@).len() > 0,
        spec_basename(path@) != "."@,
        spec_basename(path@) != ".."@,
    ensures
        r@ == spec_basename(path@),
{
    tail_after_last(path, '/', '\\')
}

/// The extension a downloaded file declares: what stands after the last
/// `.`, the whole name when it has no dot.
pub open spec fn spec_extension(s: Seq<char>) -> Seq<char> {
    spec_tail_after_last(s, '.', '.')
}

/// How one downloaded file is handled, decided from its name alone.
#[derive(Clone, Copy, Debug, PartialEq, Eq, Structural)]
pub enum DownloadKind {
    /// A bare character file, stored under its own name without extraction.
    RawCharacter,
    /// An archive to run through the extraction engine as the given format.
    Packed(ArchiveType),
    /// Any other extension; the file is passed over.
    Unsupported,
}

/// The declared handling of a file name: `cbb` is taken raw, `zip`, `rar`
/// and `7z` are extracted, anything else is passed over.
pub open spec fn spec_classify(name: Seq<char>) -> DownloadKind {
    let ext = spec_extension(name);
    if ext == "cbb"@ {
        DownloadKind::RawCharacter
    } else if ext == "zip"@ {
        DownloadKind::Packed(ArchiveType::Zip)
    } else if ext == "rar"@ {
        DownloadKind::Packed(ArchiveType::Rar)
    } else if ext == "7z"@ {
        DownloadKind::Packed(ArchiveType::SevenZ)
    } else {
        DownloadKind::Unsupported
    }
}

/// Decide from a downloaded file's name how it is handled.
pub fn classify_filename(name: &str) -> (k: DownloadKind)
    ensures
        k == spec_classify(name@),
{
    let ext = tail_after_last(name, '.', '.');
    if ext == String::from_str("cbb") {
        DownloadKind::RawCharacter
    } else if ext == String::from_str("zip") {
        DownloadKind::Packed(ArchiveType::Zip)
    } else if ext == String::from_str("rar") {
        DownloadKind::Packed(ArchiveType::Rar)
    } else if ext == String::from_str("7z") {
        DownloadKind::Packed(ArchiveType::SevenZ)
    } else {
        DownloadKind::Unsupported
    }
}

/// The name of a character file's paired override descriptor: every
/// occurrence of `.cbb` replaced by `.json`, scanning left to right without
/// overlap.
pub open spec fn spec_override_name(s: Seq<char>) -> Seq<char>
    decreases s.len(),
{
    if s.len() < 4 {
        s
    } else if s.take(4) == ".cbb"@ {
        ".json"@ + spec_override_name(s.skip(4))
    } else {
        seq![s[0]] + spec_override_name(s.skip(1))
    }
}

/// Derive the paired override descriptor's name from a character file's
/// name.
pub fn override_name(name: &str) -> (r: String)
    ensures
        r@ == spec_override_name(name@),
{
    let n = name.unicode_len();
    let mut out = String::new();
    let mut i: usize = 0;
    proof {
        assert(out@ =~= Seq::<char>::empty());
        assert(name@.skip(0) =~= name@);
        assert(out@ + spec_override_name(name@) =~= spec_override_name(name@));
    }
    while i < n
        invariant
            i <= n,
            n == name@.len(),
            spec_override_name(name@) == out@ + spec_override_name(name@.skip(i as int)),
        decreases n - i,
    {
        let ghost t = name@.skip(i as int);
        let ghost out0 = out@;
        if n - i >= 4 && name.get_char(i) == '.' && name.get_char(i + 1) == 'c' && name.get_char(
            i + 2,
        ) == 'b' && name.get_char(i + 3) == 'b' {
            out.append(".json");
            proof {
                reveal_strlit(".cbb");
                reveal_strlit(".json");
                assert(t.take(4) =~= ".cbb"@);
                assert(t.skip(4) =~= name@.skip(i as int + 4));
                assert(spec_override_name(t) == ".json"@ + spec_override_name(
                    name@.skip(i as int + 4),
                ));
                assert(out@ =~= out0 + ".json"@);
                assert(out0 + spec_override_name(t) =~= out@ + spec_override_name(
                    name@.skip(i as int + 4),
                ));
            }
            i = i + 4;
        } else {
            let part = name.substring_char(i, i + 1);
            out.append(part);
            proof {
                assert(part@ =~= seq![name@[i as int]]);
                if t.len() >= 4 && t.take(4) == ".cbb"@ {
                    reveal_strlit(".cbb");
                    assert(t.take(4)[0] == '.' && t.take(4)[1] == 'c' && t.take(4)[2] == 'b'
                        && t.take(4)[3] == 'b');
                    assert(t[0] == name@[i as int] && t[1] == name@[i as int + 1] && t[2] == name@[
                        i as int + 2] && t[3] == name@[i as int + 3]);
                    assert(false);
                }
                assert(t[0] == name@[i as int]);
                assert(t.skip(1) =~= name@.skip(i as int + 1));
                if t.len() >= 4 {
                    assert(spec_override_name(t) == seq![t[0]] + spec_override_name(t.skip(1)));
                } else {
                    assert(spec_override_name(t) == t);
                    assert(spec_override_name(t.skip(1)) == t.skip(1));
                    assert(t =~= seq![t[0]] + t.skip(1));
                }
                assert(out0 + spec_override_name(t) =~= out@ + spec_override_name(
                    name@.skip(i as int + 1),
                ));
            }
            i = i + 1;
        }
    }
    proof {
        assert(name@.skip(n as int) =~= Seq::<char>::empty());
        assert(out@ + spec_override_name(name@.skip(n as int)) =~= out@);
    }
    out
}

} // verus!
