//! The driver version a script asks for: its text form, and the preflight
//! pass that records what a script requested.

use vstd::prelude::*;

use crate::text::{
    has_prefix, is_digit, lemma_decimal_text, lemma_split_append, lemma_split_none,
    lemma_u32_of_decimal, push_decimal, decimal_text, parse_u32, same_text, split_char, split_on,
    starts_with, u32_of_text,
};

verus! {

/// The driver version a script requests.
#[derive(Clone, Debug, PartialEq, Eq)]
pub enum RtkRustcDriverVersion {
    /// The latest release in the public registry.
    CratesIoLatest,
    /// One release in the public registry.
    CratesIo { major: u32, minor: u32, patch: u32 },
    /// A driver built from a local checkout.
    Local { path: String },
}

/// The mathematical value of a [`RtkRustcDriverVersion`].
pub enum VersionModel {
    Latest,
    Release { major: u32, minor: u32, patch: u32 },
    Local { path: Seq<char> },
}

impl View for RtkRustcDriverVersion {
    type V = VersionModel;

    open spec fn view(&self) -> VersionModel {
        match self {
            RtkRustcDriverVersion::CratesIoLatest => VersionModel::Latest,
            RtkRustcDriverVersion::CratesIo { major, minor, patch } => VersionModel::Release {
                major: *major,
                minor: *minor,
                patch: *patch,
            },
            RtkRustcDriverVersion::Local { path } => VersionModel::Local { path: path@ },
        }
    }
}

/// Why a version text was refused, naming the piece that failed.
#[derive(Clone, Debug, PartialEq, Eq)]
pub enum VersionParseError {
    /// The text is not three pieces separated by dots.
    Format { text: String },
    Major { segment: String },
    Minor { segment: String },
    Patch { segment: String },
}

/// The mathematical value of a [`VersionParseError`].
pub enum VersionParseErrorModel {
    Format(Seq<char>),
    Major(Seq<char>),
    Minor(Seq<char>),
    Patch(Seq<char>),
}

impl View for VersionParseError {
    type V = VersionParseErrorModel;

    open spec fn view(&self) -> VersionParseErrorModel {
        match self {
            VersionParseError::Format { text } => VersionParseErrorModel::Format(text@),
            VersionParseError::Major { segment } => VersionParseErrorModel::Major(segment@),
            VersionParseError::Minor { segment } => VersionParseErrorModel::Minor(segment@),
            VersionParseError::Patch { segment } => VersionParseErrorModel::Patch(segment@),
        }
    }
}

pub open spec fn latest_text() -> Seq<char> {
    seq!['l', 'a', 't', 'e', 's', 't']
}

pub open spec fn local_prefix() -> Seq<char> {
    seq!['l', 'o', 'c', 'a', 'l', ':']
}

/// What a version text means: `latest`, `local:<path>` (the path is all
/// that follows the first `local:`), or
/// `<major>.<minor>.<patch>` with three unsigned 32-bit numbers.
pub open spec fn version_of_text(s: Seq<char>) -> Result<VersionModel, VersionParseErrorModel> {
    if s == latest_text() {
        Ok(VersionModel::Latest)
    } else if has_prefix(s, local_prefix()) {
        Ok(VersionModel::Local { path: s.subrange(6, s.len() as int) })
    } else {
        let parts = split_on(s, '.');
        if parts.len() != 3 {
            Err(VersionParseErrorModel::Format(s))
        } else if u32_of_text(parts[0]) is None {
            Err(VersionParseErrorModel::Major(parts[0]))
        } else if u32_of_text(parts[1]) is None {
            Err(VersionParseErrorModel::Minor(parts[1]))
        } else if u32_of_text(parts[2]) is None {
            Err(VersionParseErrorModel::Patch(parts[2]))
        } else {
            Ok(
                VersionModel::Release {
                    major: u32_of_text(parts[0])->0,
                    minor: u32_of_text(parts[1])->0,
                    patch: u32_of_text(parts[2])->0,
                },
            )
        }
    }
}

/// The text form of a version, which [`parse_version`] reads back.
pub open spec fn version_text(v: VersionModel) -> Seq<char> {
    match v {
        VersionModel::Latest => latest_text(),
        VersionModel::Release { major, minor, patch } => decimal_text(major as nat) + seq!['.']
            + decimal_text(minor as nat) + seq!['.'] + decimal_text(patch as nat),
        VersionModel::Local { path } => local_prefix() + path,
    }
}

/// Reads a version text.
pub fn parse_version(s: &str) -> (r: Result<RtkRustcDriverVersion, VersionParseError>)
    ensures
        match r {
            Ok(v) => version_of_text(s@) == Ok::<VersionModel, VersionParseErrorModel>(v@),
            Err(e) => version_of_text(s@) == Err::<VersionModel, VersionParseErrorModel>(e@),
        },
{
    proof {
        reveal_strlit("latest");
        reveal_strlit("local:");
    }
    assert("latest"@ =~= latest_text());
    assert("local:"@ =~= local_prefix());
    if same_text(s, "latest") {
        return Ok(RtkRustcDriverVersion::CratesIoLatest);
    }
    if starts_with(s, "local:") {
        let n = s.unicode_len();
        return Ok(RtkRustcDriverVersion::Local { path: String::from_str(s.substring_char(6, n)) });
    }
    let parts = split_char(s, '.');
    proof {
        assert(parts@.len() == split_on(s@, '.').len());
    }
    if parts.len() != 3 {
        return Err(VersionParseError::Format { text: String::from_str(s) });
    }
    proof {
        assert(parts@[0]@ == split_on(s@, '.')[0]);
        assert(parts@[1]@ == split_on(s@, '.')[1]);
        assert(parts@[2]@ == split_on(s@, '.')[2]);
    }
    let major = match parse_u32(parts[0].as_str()) {
        Some(v) => v,
        None => return Err(VersionParseError::Major { segment: parts[0].clone() }),
    };
    let minor = match parse_u32(parts[1].as_str()) {
        Some(v) => v,
        None => return Err(VersionParseError::Minor { segment: parts[1].clone() }),
    };
    let patch = match parse_u32(parts[2].as_str()) {
        Some(v) => v,
        None => return Err(VersionParseError::Patch { segment: parts[2].clone() }),
    };
    Ok(RtkRustcDriverVersion::CratesIo { major, minor, patch })
}

impl RtkRustcDriverVersion {
    /// The text form of this version: `latest`, `<major>.<minor>.<patch>` or
    /// `local:<path>`.
    pub fn to_version_string(&self) -> (r: String)
        ensures
            r@ == version_text(self@),
    {
        proof {
            reveal_strlit("latest");
            reveal_strlit("local:");
            reveal_strlit(".");
        }
        match self {
            RtkRustcDriverVersion::CratesIoLatest => String::from_str("latest"),
            RtkRustcDriverVersion::CratesIo { major, minor, patch } => {
                let mut out = String::new();
                push_decimal(&mut out, *major as u64);
                out.append(".");
                push_decimal(&mut out, *minor as u64);
                out.append(".");
                push_decimal(&mut out, *patch as u64);
                out
            },
            RtkRustcDriverVersion::Local { path } => {
                let mut out = String::from_str("local:");
                out.append(path.as_str());
                out
            },
        }
    }
}

/// The sentence that describes a refused version text, naming the piece.
pub open spec fn version_parse_error_text(e: VersionParseErrorModel) -> Seq<char> {
    match e {
        VersionParseErrorModel::Format(t) => "Invalid version format: "@ + t + ". Expected format: major.minor.patch"@,
        VersionParseErrorModel::Major(t) => "Invalid major version: "@ + t,
        VersionParseErrorModel::Minor(t) => "Invalid minor version: "@ + t,
        VersionParseErrorModel::Patch(t) => "Invalid patch version: "@ + t,
    }
}

impl VersionParseError {
    /// A sentence describing the error.
    pub fn message(&self) -> (r: String)
        ensures
            r@ == version_parse_error_text(self@),
    {
        proof {
            reveal_strlit("Invalid version format: ");
            reveal_strlit("Invalid major version: ");
            reveal_strlit("Invalid minor version: ");
            reveal_strlit("Invalid patch version: ");
        }
        match self {
            VersionParseError::Format { text } => {
                let mut out = String::from_str("Invalid version format: ");
                out.append(text.as_str());
                out.append(". Expected format: major.minor.patch");
                out
            },
            VersionParseError::Major { segment } => {
                let mut out = String::from_str("Invalid major version: ");
                out.append(segment.as_str());
                out
            },
            VersionParseError::Minor { segment } => {
                let mut out = String::from_str("Invalid minor version: ");
                out.append(segment.as_str());
                out
            },
            VersionParseError::Patch { segment } => {
                let mut out = String::from_str("Invalid patch version: ");
                out.append(segment.as_str());
                out
            },
        }
    }
}

/// A call a script made to request a driver version, with the text it passed.
#[derive(Clone, Debug, PartialEq, Eq)]
pub enum VersionRequest {
    /// The version to use in release builds.
    Release(String),
    /// The version to use when debug assertions are on.
    Debug(String),
}

/// Why no driver version could be taken from a script.
#[derive(Clone, Copy, Debug, PartialEq, Eq, Structural)]
pub enum VersioningError {
    /// The script asked for a version more than once.
    DoubleSet,
    /// The script never asked for a release version.
    NoVersion,
}

/// The sentence that describes a versioning error.
pub open spec fn versioning_error_text(e: VersioningError) -> Seq<char> {
    match e {
        VersioningError::DoubleSet => "Lua script attempted to set the desired version multiple times, the desired version should be specified first and once"@,
        VersioningError::NoVersion => "No version was set in the Lua script"@,
    }
}

impl VersioningError {
    /// A sentence describing the error.
    pub fn message(&self) -> (r: String)
        ensures
            r@ == versioning_error_text(*self),
    {
        proof {
            reveal_strlit(
                "Lua script attempted to set the desired version multiple times, the desired version should be specified first and once",
            );
            reveal_strlit("No version was set in the Lua script");
        }
        match self {
            VersioningError::DoubleSet => String::from_str(
                "Lua script attempted to set the desired version multiple times, the desired version should be specified first and once",
            ),
            VersioningError::NoVersion => String::from_str("No version was set in the Lua script"),
        }
    }
}

/// What the preflight pass has recorded so far.
pub struct PreflightModel {
    pub version: Option<VersionModel>,
    pub debug_version: Option<VersionModel>,
    pub double_set: bool,
}

/// The dry run of a script that records which driver version it requests.
pub struct PreflightVersioner {
    pub version: Option<RtkRustcDriverVersion>,
    pub debug_version: Option<RtkRustcDriverVersion>,
    pub version_double_set_attempted: bool,
}

pub open spec fn opt_view(v: Option<RtkRustcDriverVersion>) -> Option<VersionModel> {
    match v {
        Some(x) => Some(x@),
        None => None,
    }
}

impl View for PreflightVersioner {
    type V = PreflightModel;

    open spec fn view(&self) -> PreflightModel {
        PreflightModel {
            version: opt_view(self.version),
            debug_version: opt_view(self.debug_version),
            double_set: self.version_double_set_attempted,
        }
    }
}

/// The state before a script runs.
pub open spec fn preflight_start() -> PreflightModel {
    PreflightModel { version: None, debug_version: None, double_set: false }
}

/// A release version request: the first one is kept, a later one marks a
/// double set.
pub open spec fn intake_release(p: PreflightModel, v: VersionModel) -> PreflightModel {
    if p.version is Some {
        PreflightModel { double_set: true, ..p }
    } else {
        PreflightModel { version: Some(v), ..p }
    }
}

/// A debug version request: the latest one is kept, and any after the first
/// marks a double set.
pub open spec fn intake_debug(p: PreflightModel, v: VersionModel) -> PreflightModel {
    PreflightModel {
        debug_version: Some(v),
        double_set: p.double_set || p.debug_version is Some,
        ..p
    }
}

/// The state after one request. A text that does not read as a version raises
/// an error in the script and changes nothing.
pub open spec fn preflight_step(p: PreflightModel, req: VersionRequest) -> PreflightModel {
    match req {
        VersionRequest::Release(t) => match version_of_text(t@) {
            Ok(v) => intake_release(p, v),
            Err(_) => p,
        },
        VersionRequest::Debug(t) => match version_of_text(t@) {
            Ok(v) => intake_debug(p, v),
            Err(_) => p,
        },
    }
}

/// The state after the requests `reqs`, in order.
pub open spec fn preflight_after(reqs: Seq<VersionRequest>) -> PreflightModel
    decreases reqs.len(),
{
    if reqs.len() == 0 {
        preflight_start()
    } else {
        preflight_step(preflight_after(reqs.drop_last()), reqs.last())
    }
}

/// What the preflight pass concludes: the release version and the debug
/// version if any, unless a version was requested twice or none was.
pub open spec fn preflight_outcome(p: PreflightModel) -> Result<
    (VersionModel, Option<VersionModel>),
    VersioningError,
> {
    if p.double_set {
        Err(VersioningError::DoubleSet)
    } else if p.version is None {
        Err(VersioningError::NoVersion)
    } else {
        Ok((p.version->0, p.debug_version))
    }
}

impl PreflightVersioner {
    /// The state before a script runs.
    pub fn new() -> (r: PreflightVersioner)
        ensures
            r@ == preflight_start(),
    {
        PreflightVersioner { version: None, debug_version: None, version_double_set_attempted: false }
    }

    /// Records a release version request.
    pub fn intake_version(&mut self, version: RtkRustcDriverVersion)
        ensures
            final(self)@ == intake_release(old(self)@, version@),
    {
        if self.version.is_some() {
            self.version_double_set_attempted = true;
        } else {
            self.version = Some(version);
        }
    }

    /// Records a debug version request.
    pub fn intake_debug_version(&mut self, version: RtkRustcDriverVersion)
        ensures
            final(self)@ == intake_debug(old(self)@, version@),
    {
        if self.debug_version.is_some() {
            self.version_double_set_attempted = true;
        }
        self.debug_version = Some(version);
    }

    /// Records one request as the scripting bridge hands it over: the text is
    /// read first, and a text that is no version is refused with its error.
    pub fn intake_request(&mut self, req: &VersionRequest) -> (r: Result<(), VersionParseError>)
        ensures
            final(self)@ == preflight_step(old(self)@, *req),
            r is Err <==> (match req {
                VersionRequest::Release(t) => version_of_text(t@) is Err,
                VersionRequest::Debug(t) => version_of_text(t@) is Err,
            }),
    {
        match req {
            VersionRequest::Release(t) => match parse_version(t.as_str()) {
                Ok(v) => {
                    self.intake_version(v);
                    Ok(())
                },
                Err(e) => Err(e),
            },
            VersionRequest::Debug(t) => match parse_version(t.as_str()) {
                Ok(v) => {
                    self.intake_debug_version(v);
                    Ok(())
                },
                Err(e) => Err(e),
            },
        }
    }

    /// Whether a version was requested more than once.
    pub fn double_set_attempted(&self) -> (r: bool)
        ensures
            r == self@.double_set,
    {
        self.version_double_set_attempted
    }

    /// The conclusion of the pass.
    pub fn outcome(self) -> (r: Result<
        (RtkRustcDriverVersion, Option<RtkRustcDriverVersion>),
        VersioningError,
    >)
        ensures
            match r {
                Ok((v, d)) => preflight_outcome(self@) == Ok::<
                    (VersionModel, Option<VersionModel>),
                    VersioningError,
                >((v@, opt_view(d))),
                Err(e) => preflight_outcome(self@) == Err::<
                    (VersionModel, Option<VersionModel>),
                    VersioningError,
                >(e),
            },
    {
        if self.version_double_set_attempted {
            return Err(VersioningError::DoubleSet);
        }
        match self.version {
            Some(v) => Ok((v, self.debug_version)),
            None => Err(VersioningError::NoVersion),
        }
    }
}

/// Runs the preflight pass over the version requests a script made, in order.
fn preflight_run(requests: &Vec<VersionRequest>) -> (r: PreflightVersioner)
    ensures
        r@ == preflight_after(requests@),
{
    let mut p = PreflightVersioner::new();
    let mut i: usize = 0;
    while i < requests.len()
        invariant
            i <= requests@.len(),
            p@ == preflight_after(requests@.subrange(0, i as int)),
        decreases requests@.len() - i,
    {
        let _ = p.intake_request(&requests[i]);
        proof {
            let s = requests@.subrange(0, i as int + 1);
            assert(s.drop_last() =~= requests@.subrange(0, i as int));
        }
        i = i + 1;
    }
    proof {
        assert(requests@.subrange(0, i as int) =~= requests@);
    }
    p
}

/// The release version and the optional debug version that a script's
/// requests select.
pub fn desired_version_for_script(requests: &Vec<VersionRequest>) -> (r: Result<
    (RtkRustcDriverVersion, Option<RtkRustcDriverVersion>),
    VersioningError,
>)
    ensures
        match r {
            Ok((v, d)) => preflight_outcome(preflight_after(requests@)) == Ok::<
                (VersionModel, Option<VersionModel>),
                VersioningError,
            >((v@, opt_view(d))),
            Err(e) => preflight_outcome(preflight_after(requests@)) == Err::<
                (VersionModel, Option<VersionModel>),
                VersioningError,
            >(e),
        },
{
    preflight_run(requests).outcome()
}

/// Checks a script's version requests: refused only when a version was
/// requested more than once.
pub fn ck_lua(requests: &Vec<VersionRequest>) -> (r: Result<(), VersioningError>)
    ensures
        r is Err <==> preflight_after(requests@).double_set,
        r is Err ==> r == Err::<(), VersioningError>(VersioningError::DoubleSet),
{
    let p = preflight_run(requests);
    if p.double_set_attempted() {
        Err(VersioningError::DoubleSet)
    } else {
        Ok(())
    }
}

/// A version's text form reads back as the version.
pub proof fn lemma_version_text_round_trip(v: VersionModel)
    ensures
        version_of_text(version_text(v)) == Ok::<VersionModel, VersionParseErrorModel>(v),
{
    match v {
        VersionModel::Latest => {
            assert(version_text(v) == latest_text());
            assert(version_of_text(version_text(v)) == Ok::<VersionModel, VersionParseErrorModel>(v));
        },
        VersionModel::Local { path } => {
            let t = local_prefix() + path;
            assert(version_text(v) == t);
            assert(t != latest_text()) by {
                assert(t[1] == 'o');
            }
            assert(t.subrange(0, 6) =~= local_prefix());
            assert(t.subrange(6, t.len() as int) =~= path);
            assert(version_of_text(version_text(v)) == Ok::<VersionModel, VersionParseErrorModel>(v));
        },
        VersionModel::Release { major, minor, patch } => {
            let a = decimal_text(major as nat);
            let b = decimal_text(minor as nat);
            let c = decimal_text(patch as nat);
            lemma_decimal_text(major as nat);
            lemma_decimal_text(minor as nat);
            lemma_decimal_text(patch as nat);
            lemma_u32_of_decimal(major);
            lemma_u32_of_decimal(minor);
            lemma_u32_of_decimal(patch);
            assert forall|i: int| 0 <= i < a.len() implies a[i] != '.' by { assert(is_digit(a[i])); }
            assert forall|i: int| 0 <= i < b.len() implies b[i] != '.' by { assert(is_digit(b[i])); }
            assert forall|i: int| 0 <= i < c.len() implies c[i] != '.' by { assert(is_digit(c[i])); }
            let t = a + seq!['.'] + b + seq!['.'] + c;
            assert(t == version_text(v));
            lemma_split_none(a, '.');
            let a1 = a + seq!['.'];
            assert(a1.drop_last() =~= a);
            assert(split_on(a1, '.') =~= seq![a, Seq::empty()]);
            lemma_split_append(a1, b, '.');
            assert(split_on(a1 + b, '.') =~= seq![a, b]) by {
                assert(Seq::<char>::empty() + b =~= b);
            }
            let b1 = a1 + b + seq!['.'];
            assert(b1.drop_last() =~= a1 + b);
            assert(split_on(b1, '.') =~= seq![a, b, Seq::empty()]);
            lemma_split_append(b1, c, '.');
            assert(split_on(b1 + c, '.') =~= seq![a, b, c]) by {
                assert(Seq::<char>::empty() + c =~= c);
            }
            assert(b1 + c =~= t);
            assert(is_digit(t[0])) by {
                assert(t[0] == a[0]);
            }
            assert(t != latest_text()) by {
                assert(t[0] != 'l');
            }
            assert(!has_prefix(t, local_prefix())) by {
                if t.len() >= 6 {
                    assert(t.subrange(0, 6)[0] == t[0]);
                }
            }
            assert(split_on(t, '.') == seq![a, b, c]);
            assert(version_of_text(version_text(v)) == Ok::<VersionModel, VersionParseErrorModel>(v));
        },
    }
}

proof fn lemma_preflight_monotone(reqs: Seq<VersionRequest>, n: int, k: int)
    requires
        0 <= n <= k <= reqs.len(),
    ensures
        preflight_after(reqs.subrange(0, n)).version is Some ==> preflight_after(reqs.subrange(0, k)).version is Some,
        preflight_after(reqs.subrange(0, n)).double_set ==> preflight_after(reqs.subrange(0, k)).double_set,
    decreases k - n,
{
    if k > n {
        lemma_preflight_monotone(reqs, n, k - 1);
        assert(reqs.subrange(0, k).drop_last() =~= reqs.subrange(0, k - 1));
    }
}

/// Two readable release version requests make the script's outcome the
/// double-set error, whether or not the two versions are equal.
pub proof fn lemma_double_set(reqs: Seq<VersionRequest>, i: int, j: int)
    requires
        0 <= i < j < reqs.len(),
        reqs[i] matches VersionRequest::Release(t) && version_of_text(t@) is Ok,
        reqs[j] matches VersionRequest::Release(t) && version_of_text(t@) is Ok,
    ensures
        preflight_outcome(preflight_after(reqs)) == Err::<(VersionModel, Option<VersionModel>), VersioningError>(
            VersioningError::DoubleSet,
        ),
{
    assert(reqs.subrange(0, i + 1).drop_last() =~= reqs.subrange(0, i));
    lemma_preflight_monotone(reqs, i + 1, j);
    assert(reqs.subrange(0, j + 1).drop_last() =~= reqs.subrange(0, j));
    lemma_preflight_monotone(reqs, j + 1, reqs.len() as int);
    assert(reqs.subrange(0, reqs.len() as int) =~= reqs);
}

/// A script with no release version request, and at most one debug version
/// request, ends with the no-version error.
pub proof fn lemma_no_version(reqs: Seq<VersionRequest>)
    requires
        forall|i: int| 0 <= i < reqs.len() ==> !(#[trigger] reqs[i] is Release),
        forall|i: int, j: int| 0 <= i < j < reqs.len() ==> !(#[trigger] reqs[i] is Debug && #[trigger] reqs[j] is Debug),
    ensures
        preflight_outcome(preflight_after(reqs)) == Err::<(VersionModel, Option<VersionModel>), VersioningError>(
            VersioningError::NoVersion,
        ),
{
    lemma_no_version_prefix(reqs, reqs.len() as int);
    assert(reqs.subrange(0, reqs.len() as int) =~= reqs);
}

proof fn lemma_no_version_prefix(reqs: Seq<VersionRequest>, n: int)
    requires
        0 <= n <= reqs.len(),
        forall|i: int| 0 <= i < reqs.len() ==> !(#[trigger] reqs[i] is Release),
        forall|i: int, j: int| 0 <= i < j < reqs.len() ==> !(#[trigger] reqs[i] is Debug && #[trigger] reqs[j] is Debug),
    ensures
        preflight_after(reqs.subrange(0, n)).version is None,
        !preflight_after(reqs.subrange(0, n)).double_set,
        preflight_after(reqs.subrange(0, n)).debug_version is Some ==> exists|i: int| 0 <= i < n && #[trigger] reqs[i] is Debug,
    decreases n,
{
    if n > 0 {
        lemma_no_version_prefix(reqs, n - 1);
        assert(reqs.subrange(0, n).drop_last() =~= reqs.subrange(0, n - 1));
        assert(reqs.subrange(0, n).last() == reqs[n - 1]);
        assert(!(reqs[n - 1] is Release));
        let p = preflight_after(reqs.subrange(0, n - 1));
        if reqs[n - 1] is Debug && p.debug_version is Some {
            let i = choose|i: int| 0 <= i < n - 1 && #[trigger] reqs[i] is Debug;
            assert(reqs[i] is Debug && reqs[n - 1] is Debug);
        }
        if preflight_after(reqs.subrange(0, n)).debug_version is Some {
            if reqs[n - 1] is Debug {
                assert(reqs[n - 1] is Debug);
            } else {
                let i = choose|i: int| 0 <= i < n - 1 && #[trigger] reqs[i] is Debug;
                assert(0 <= i < n && reqs[i] is Debug);
            }
        }
    }
}

/// How many requests of `reqs` ask for a version of the given kind (debug or
/// release) with a text that reads as a version.
pub open spec fn readable_requests(reqs: Seq<VersionRequest>, debug: bool) -> nat
    decreases reqs.len(),
{
    if reqs.len() == 0 {
        0
    } else {
        readable_requests(reqs.drop_last(), debug) + match reqs.last() {
            VersionRequest::Release(t) => if !debug && version_of_text(t@) is Ok { 1nat } else { 0nat },
            VersionRequest::Debug(t) => if debug && version_of_text(t@) is Ok { 1nat } else { 0nat },
        }
    }
}

/// The preflight pass records a version exactly when one was readably
/// requested, and marks a double set exactly when a release version or a
/// debug version was readably requested twice or more, equal or not.
pub proof fn lemma_preflight_counts(reqs: Seq<VersionRequest>)
    ensures
        preflight_after(reqs).version is Some <==> readable_requests(reqs, false) >= 1,
        preflight_after(reqs).debug_version is Some <==> readable_requests(reqs, true) >= 1,
        preflight_after(reqs).double_set <==> (readable_requests(reqs, false) >= 2 || readable_requests(reqs, true) >= 2),
    decreases reqs.len(),
{
    if reqs.len() > 0 {
        lemma_preflight_counts(reqs.drop_last());
    }
}

} // verus!
