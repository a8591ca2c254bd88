//! Which driver is installed, read from the listing of installed packages
//! that the package manager prints, and the arguments that install another.

use vstd::prelude::*;

use crate::text::{
    decimal_text, push_decimal, has_prefix, lemma_split_on_nonempty, parse_u32, split_char,
    split_on, starts_with, u32_of_text, views,
};
use crate::versioning::{opt_view, RtkRustcDriverVersion, VersionModel};

verus! {

/// The package name of the driver.
pub open spec fn driver_name() -> Seq<char> {
    "rtk-rustc-driver"@
}

/// Whether `c` is white space in the sense of Unicode's `White_Space`
/// property.
pub open spec fn is_white(c: char) -> bool {
    ('\t' <= c && c <= '\r') || c == ' ' || c == '\u{85}' || c == '\u{a0}' || c == '\u{1680}'
        || ('\u{2000}' <= c && c <= '\u{200a}') || c == '\u{2028}' || c == '\u{2029}'
        || c == '\u{202f}' || c == '\u{205f}' || c == '\u{3000}'
}

fn white(c: char) -> (r: bool)
    ensures
        r == is_white(c),
{
    ('\t' <= c && c <= '\r') || c == ' ' || c == '\u{85}' || c == '\u{a0}' || c == '\u{1680}'
        || ('\u{2000}' <= c && c <= '\u{200a}') || c == '\u{2028}' || c == '\u{2029}'
        || c == '\u{202f}' || c == '\u{205f}' || c == '\u{3000}'
}

/// A line without the carriage return that may end it.
pub open spec fn strip_cr(l: Seq<char>) -> Seq<char> {
    if l.len() > 0 && l.last() == '\r' {
        l.drop_last()
    } else {
        l
    }
}

/// The first of `lines`, from position `from` on, that names the driver.
pub open spec fn first_driver_line(lines: Seq<Seq<char>>, from: int) -> Option<Seq<char>>
    decreases lines.len() - from,
{
    if from < 0 || from >= lines.len() {
        None
    } else if has_prefix(strip_cr(lines[from]), driver_name()) {
        Some(strip_cr(lines[from]))
    } else {
        first_driver_line(lines, from + 1)
    }
}

/// `s` without leading white space.
pub open spec fn trim_start(s: Seq<char>) -> Seq<char>
    decreases s.len(),
{
    if s.len() > 0 && is_white(s[0]) {
        trim_start(s.drop_first())
    } else {
        s
    }
}

/// `s` without trailing white space.
pub open spec fn trim_end(s: Seq<char>) -> Seq<char>
    decreases s.len(),
{
    if s.len() > 0 && is_white(s.last()) {
        trim_end(s.drop_last())
    } else {
        s
    }
}

/// The position of the first `c` in `s` at or after `from`.
pub open spec fn first_index(s: Seq<char>, c: char, from: int) -> Option<int>
    decreases s.len() - from,
{
    if from < 0 || from >= s.len() {
        None
    } else if s[from] == c {
        Some(from)
    } else {
        first_index(s, c, from + 1)
    }
}

/// For a line `name version (path):`, the text between the first `(` and
/// the closing `):` that ends the line.
pub open spec fn local_path_of(line: Seq<char>) -> Option<Seq<char>> {
    match first_index(line, '(', 0) {
        None => None,
        Some(k) => {
            let rest = line.subrange(k + 1, line.len() as int);
            if rest.len() >= 2 && rest[rest.len() - 2] == ')' && rest[rest.len() - 1] == ':' {
                Some(rest.subrange(0, rest.len() - 2))
            } else {
                None
            }
        },
    }
}

/// The words of `s`: its maximal runs of characters that are not white
/// space, in order.
pub open spec fn words(s: Seq<char>) -> Seq<Seq<char>>
    decreases s.len(),
{
    if s.len() == 0 {
        Seq::empty()
    } else {
        let w = words(s.drop_last());
        if is_white(s.last()) {
            w
        } else if s.len() >= 2 && !is_white(s[s.len() - 2]) && w.len() > 0 {
            w.update(w.len() - 1, w.last().push(s.last()))
        } else {
            w.push(seq![s.last()])
        }
    }
}

/// Why the installed driver's version could not be read.
#[derive(Clone, Copy, Debug, PartialEq, Eq, Structural)]
pub enum InstalledVersionError {
    /// The driver's line has no version after its name.
    MissingVersion,
    Major,
    Minor,
    Patch,
}

/// The sentence that describes an unreadable installed version.
pub open spec fn installed_error_text(e: InstalledVersionError) -> Seq<char> {
    match e {
        InstalledVersionError::MissingVersion => "failed to parse installed RTK Rustc driver version"@,
        InstalledVersionError::Major => "failed to parse major version"@,
        InstalledVersionError::Minor => "failed to parse minor version"@,
        InstalledVersionError::Patch => "failed to parse patch version"@,
    }
}

impl InstalledVersionError {
    /// A sentence describing the error.
    pub fn message(&self) -> (r: String)
        ensures
            r@ == installed_error_text(*self),
    {
        proof {
            reveal_strlit("failed to parse installed RTK Rustc driver version");
            reveal_strlit("failed to parse major version");
            reveal_strlit("failed to parse minor version");
            reveal_strlit("failed to parse patch version");
        }
        match self {
            InstalledVersionError::MissingVersion => String::from_str(
                "failed to parse installed RTK Rustc driver version",
            ),
            InstalledVersionError::Major => String::from_str("failed to parse major version"),
            InstalledVersionError::Minor => String::from_str("failed to parse minor version"),
            InstalledVersionError::Patch => String::from_str("failed to parse patch version"),
        }
    }
}

/// The numbers of a version word `v<major>.<minor>.<patch>`; pieces after
/// the third are not read.
pub open spec fn release_of_word(w: Seq<char>) -> Result<VersionModel, InstalledVersionError> {
    let parts = split_on(w, '.');
    let first = parts[0];
    if !(first.len() >= 1 && first[0] == 'v') || u32_of_text(first.drop_first()) is None {
        Err(InstalledVersionError::Major)
    } else if parts.len() < 2 || u32_of_text(parts[1]) is None {
        Err(InstalledVersionError::Minor)
    } else if parts.len() < 3 || u32_of_text(parts[2]) is None {
        Err(InstalledVersionError::Patch)
    } else {
        Ok(VersionModel::Release {
            major: u32_of_text(first.drop_first())->0,
            minor: u32_of_text(parts[1])->0,
            patch: u32_of_text(parts[2])->0,
        })
    }
}

/// The driver version that a listing of installed packages shows: none when
/// the driver is not listed or its local path is blank; a local driver when
/// its line ends in `(<path>):`; otherwise the release that the line's
/// second word names.
pub open spec fn installed_version_of(listing: Seq<char>) -> Result<Option<VersionModel>, InstalledVersionError> {
    match first_driver_line(split_on(listing, '\n'), 0) {
        None => Ok(None),
        Some(line) => match local_path_of(line) {
            Some(p) => {
                let t = trim_end(trim_start(p));
                if t.len() == 0 {
                    Ok(None)
                } else {
                    Ok(Some(VersionModel::Local { path: t }))
                }
            },
            None => {
                let ws = words(line);
                if ws.len() < 2 {
                    Err(InstalledVersionError::MissingVersion)
                } else {
                    match release_of_word(ws[1]) {
                        Ok(v) => Ok(Some(v)),
                        Err(e) => Err(e),
                    }
                }
            },
        },
    }
}

/// `s` without leading and trailing white space.
fn trim(s: &str) -> (r: String)
    ensures
        r@ == trim_end(trim_start(s@)),
{
    let len = s.unicode_len();
    let mut a: usize = 0;
    proof {
        assert(s@.subrange(0, len as int) =~= s@);
    }
    while a < len && white(s.get_char(a))
        invariant
            len == s@.len(),
            a <= len,
            trim_start(s@.subrange(a as int, len as int)) == trim_start(s@),
        decreases len - a,
    {
        proof {
            let t = s@.subrange(a as int, len as int);
            assert(t.drop_first() =~= s@.subrange(a + 1, len as int));
        }
        a = a + 1;
    }
    let ghost front = s@.subrange(a as int, len as int);
    proof {
        assert(trim_start(front) == front);
    }
    let mut b: usize = len;
    while b > a && white(s.get_char(b - 1))
        invariant
            len == s@.len(),
            a <= b <= len,
            front == s@.subrange(a as int, len as int),
            trim_end(s@.subrange(a as int, b as int)) == trim_end(front),
        decreases b,
    {
        proof {
            let t = s@.subrange(a as int, b as int);
            assert(t.drop_last() =~= s@.subrange(a as int, b - 1));
        }
        b = b - 1;
    }
    proof {
        let t = s@.subrange(a as int, b as int);
        assert(trim_end(t) == t);
    }
    String::from_str(s.substring_char(a, b))
}

/// The words of `s`.
fn words_of(s: &str) -> (r: Vec<String>)
    ensures
        views(r@) == words(s@),
{
    let len = s.unicode_len();
    let mut out: Vec<String> = Vec::new();
    let mut start: usize = 0;
    let mut in_word = false;
    let mut i: usize = 0;
    while i < len
        invariant
            len == s@.len(),
            i <= len,
            start <= i,
            in_word ==> start < i && !is_white(s@[i - 1]),
            !in_word ==> (i == 0 || is_white(s@[i - 1])),
            words(s@.subrange(0, i as int)) == (if in_word {
                views(out@).push(s@.subrange(start as int, i as int))
            } else {
                views(out@)
            }),
        decreases len - i,
    {
        let c = s.get_char(i);
        let ghost pre = s@.subrange(0, i as int);
        let ghost next = s@.subrange(0, i as int + 1);
        proof {
            assert(next.drop_last() =~= pre);
            assert(next.last() == c);
            if i >= 1 {
                assert(next[next.len() - 2] == s@[i - 1]);
            }
        }
        if white(c) {
            if in_word {
                let w = String::from_str(s.substring_char(start, i));
                let ghost before = out@;
                out.push(w);
                proof {
                    assert(views(out@) =~= views(before).push(w@));
                }
                in_word = false;
            }
        } else {
            if !in_word {
                start = i;
                in_word = true;
                proof {
                    assert(s@.subrange(start as int, i + 1) =~= seq![c]);
                }
            } else {
                proof {
                    assert(s@.subrange(start as int, i + 1) =~= s@.subrange(start as int, i as int).push(c));
                }
            }
        }
        i = i + 1;
    }
    if in_word {
        let w = String::from_str(s.substring_char(start, len));
        let ghost before = out@;
        out.push(w);
        proof {
            assert(views(out@) =~= views(before).push(w@));
        }
    }
    proof {
        assert(s@.subrange(0, len as int) =~= s@);
    }
    out
}

/// The release that a version word names.
fn release_of(w: &str) -> (r: Result<RtkRustcDriverVersion, InstalledVersionError>)
    ensures
        match r {
            Ok(v) => release_of_word(w@) == Ok::<VersionModel, InstalledVersionError>(v@),
            Err(e) => release_of_word(w@) == Err::<VersionModel, InstalledVersionError>(e),
        },
{
    let parts = split_char(w, '.');
    proof {
        lemma_split_on_nonempty(w@, '.');
        assert(parts@.len() == split_on(w@, '.').len());
        assert(parts@[0]@ == split_on(w@, '.')[0]);
    }
    let first = parts[0].as_str();
    let n = first.unicode_len();
    if n < 1 || first.get_char(0) != 'v' {
        return Err(InstalledVersionError::Major);
    }
    let major = match parse_u32(first.substring_char(1, n)) {
        Some(x) => x,
        None => {
            proof {
                assert(first@.subrange(1, n as int) =~= first@.drop_first());
            }
            return Err(InstalledVersionError::Major);
        },
    };
    proof {
        assert(first@.subrange(1, n as int) =~= first@.drop_first());
    }
    if parts.len() < 2 {
        return Err(InstalledVersionError::Minor);
    }
    proof {
        assert(parts@[1]@ == split_on(w@, '.')[1]);
    }
    let minor = match parse_u32(parts[1].as_str()) {
        Some(x) => x,
        None => return Err(InstalledVersionError::Minor),
    };
    if parts.len() < 3 {
        return Err(InstalledVersionError::Patch);
    }
    proof {
        assert(parts@[2]@ == split_on(w@, '.')[2]);
    }
    let patch = match parse_u32(parts[2].as_str()) {
        Some(x) => x,
        None => return Err(InstalledVersionError::Patch),
    };
    Ok(RtkRustcDriverVersion::CratesIo { major, minor, patch })
}

/// The text between the first `(` of `line` and the `):` that ends it.
fn local_path(line: &str) -> (r: Option<String>)
    ensures
        match r {
            Some(p) => local_path_of(line@) == Some(p@),
            None => local_path_of(line@) is None,
        },
{
    let len = line.unicode_len();
    let mut k: usize = 0;
    while k < len && line.get_char(k) != '('
        invariant
            len == line@.len(),
            k <= len,
            first_index(line@, '(', 0) == first_index(line@, '(', k as int),
        decreases len - k,
    {
        k = k + 1;
    }
    if k == len {
        return None;
    }
    let rest = line.substring_char(k + 1, len);
    let m = rest.unicode_len();
    if m >= 2 && rest.get_char(m - 2) == ')' && rest.get_char(m - 1) == ':' {
        Some(String::from_str(rest.substring_char(0, m - 2)))
    } else {
        None
    }
}

/// The first line of the listing that names the driver.
fn driver_line(listing: &str) -> (r: Option<String>)
    ensures
        match r {
            Some(l) => first_driver_line(split_on(listing@, '\n'), 0) == Some(l@),
            None => first_driver_line(split_on(listing@, '\n'), 0) is None,
        },
{
    proof {
        reveal_strlit("rtk-rustc-driver");
    }
    let lines = split_char(listing, '\n');
    let ghost ls = split_on(listing@, '\n');
    let mut i: usize = 0;
    while i < lines.len()
        invariant
            ls == split_on(listing@, '\n'),
            views(lines@) == ls,
            i <= lines@.len(),
            first_driver_line(ls, 0) == first_driver_line(ls, i as int),
        decreases lines@.len() - i,
    {
        let l = lines[i].as_str();
        let n = l.unicode_len();
        let stripped = if n > 0 && l.get_char(n - 1) == '\r' {
            l.substring_char(0, n - 1)
        } else {
            l
        };
        proof {
            assert(ls[i as int] == lines@[i as int]@);
            assert(stripped@ =~= strip_cr(ls[i as int]));
        }
        if starts_with(stripped, "rtk-rustc-driver") {
            proof {
                assert(ls.len() == lines@.len());
                assert(has_prefix(strip_cr(ls[i as int]), driver_name()));
            }
            return Some(String::from_str(stripped));
        }
        i = i + 1;
    }
    None
}

/// The installed driver's version, read from the listing of installed
/// packages.
pub fn currently_installed_rtk_rustc_driver_version(listing: &str) -> (r: Result<
    Option<RtkRustcDriverVersion>,
    InstalledVersionError,
>)
    ensures
        match r {
            Ok(v) => installed_version_of(listing@) == Ok::<Option<VersionModel>, InstalledVersionError>(opt_view(v)),
            Err(e) => installed_version_of(listing@) == Err::<Option<VersionModel>, InstalledVersionError>(e),
        },
{
    let line = match driver_line(listing) {
        Some(l) => l,
        None => return Ok(None),
    };
    match local_path(line.as_str()) {
        Some(p) => {
            let t = trim(p.as_str());
            if t.unicode_len() == 0 {
                return Ok(None);
            }
            return Ok(Some(RtkRustcDriverVersion::Local { path: t }));
        },
        None => {},
    }
    let ws = words_of(line.as_str());
    if ws.len() < 2 {
        return Err(InstalledVersionError::MissingVersion);
    }
    proof {
        assert(ws@[1]@ == words(line@)[1]);
    }
    match release_of(ws[1].as_str()) {
        Ok(v) => Ok(Some(v)),
        Err(e) => Err(e),
    }
}

/// Whether two versions are the same.
pub fn same_version(a: &RtkRustcDriverVersion, b: &RtkRustcDriverVersion) -> (r: bool)
    ensures
        r == (a@ == b@),
{
    match (a, b) {
        (RtkRustcDriverVersion::CratesIoLatest, RtkRustcDriverVersion::CratesIoLatest) => true,
        (
            RtkRustcDriverVersion::CratesIo { major: a1, minor: a2, patch: a3 },
            RtkRustcDriverVersion::CratesIo { major: b1, minor: b2, patch: b3 },
        ) => *a1 == *b1 && *a2 == *b2 && *a3 == *b3,
        (RtkRustcDriverVersion::Local { path: p }, RtkRustcDriverVersion::Local { path: q }) => *p == *q,
        _ => false,
    }
}

/// Whether the driver must be installed: unless the installed version is the
/// desired one.
pub fn needs_install(installed: &Option<RtkRustcDriverVersion>, desired: &RtkRustcDriverVersion) -> (r: bool)
    ensures
        r == (opt_view(*installed) != Some(desired@)),
{
    match installed {
        Some(v) => !same_version(v, desired),
        None => true,
    }
}

/// The arguments of the package manager that install a driver version:
/// `install`, then what names the version, then `--force --locked
/// --no-track`.
pub open spec fn install_args(v: VersionModel) -> Seq<Seq<char>> {
    let which = match v {
        VersionModel::Release { major, minor, patch } => seq![
            driver_name() + seq!['@'] + decimal_text(major as nat) + seq!['.'] + decimal_text(minor as nat)
                + seq!['.'] + decimal_text(patch as nat),
        ],
        VersionModel::Latest => seq![driver_name()],
        VersionModel::Local { path } => seq!["--path"@, path],
    };
    seq!["install"@] + which + seq!["--force"@, "--locked"@, "--no-track"@]
}

/// The arguments of the package manager that install `version`.
pub fn install_rtk_rustc_driver_args(version: &RtkRustcDriverVersion) -> (r: Vec<String>)
    ensures
        views(r@) == install_args(version@),
{
    proof {
        reveal_strlit("@");
        reveal_strlit(".");
    }
    let mut out: Vec<String> = Vec::new();
    out.push(String::from_str("install"));
    let ghost o1 = out@;
    match version {
        RtkRustcDriverVersion::CratesIo { major, minor, patch } => {
            let mut s = String::from_str("rtk-rustc-driver");
            s.append("@");
            push_decimal(&mut s, *major as u64);
            s.append(".");
            push_decimal(&mut s, *minor as u64);
            s.append(".");
            push_decimal(&mut s, *patch as u64);
            out.push(s);
            proof {
                assert(s@ =~= install_args(version@)[1]);
            }
        },
        RtkRustcDriverVersion::CratesIoLatest => {
            out.push(String::from_str("rtk-rustc-driver"));
        },
        RtkRustcDriverVersion::Local { path } => {
            out.push(String::from_str("--path"));
            out.push(path.clone());
        },
    }
    let ghost o2 = out@;
    out.push(String::from_str("--force"));
    out.push(String::from_str("--locked"));
    out.push(String::from_str("--no-track"));
    proof {
        let w = install_args(version@);
        assert(views(out@).len() == w.len());
        assert forall|i: int| 0 <= i < w.len() implies views(out@)[i] == w[i] by {
            if i >= o2.len() {
                assert(out@[i] == out@[i]);
            }
        }
        assert(views(out@) =~= w);
    }
    out
}

} // verus!
