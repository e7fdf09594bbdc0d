//! The update check: whether the version that an update feed offers is newer
//! than the running one, by `semver`'s reading and ordering of versions.
use vstd::prelude::*;
use crate::text::{decimal, decimal_string, push_char, push_str};

verus! {

#[verifier::external_type_specification]
#[verifier::external_body]
pub struct ExSemverVersion(semver::Version);

/// A version as `semver::Version::parse` read it: its numbers, its pre-release
/// and build texts, and the parsed value itself, which orders versions.
pub struct SemVer {
    major: u64,
    minor: u64,
    patch: u64,
    pre: String,
    build: String,
    parsed: semver::Version,
}

pub struct SemVerView {
    pub major: u64,
    pub minor: u64,
    pub patch: u64,
    pub pre: Seq<char>,
    pub build: Seq<char>,
}

impl View for SemVer {
    type V = SemVerView;

    closed spec fn view(&self) -> SemVerView {
        SemVerView {
            major: self.major,
            minor: self.minor,
            patch: self.patch,
            pre: self.pre@,
            build: self.build@,
        }
    }
}

/// What `semver::Version::parse` makes of a text: the version's parts, or the
/// text of the error it reports.
pub uninterp spec fn semver_parse(text: Seq<char>) -> Result<SemVerView, Seq<char>>;

/// Reads a version with `semver::Version::parse`. The contract ties the result
/// to the text through `semver_parse` alone: which texts are versions is
/// `semver`'s grammar, and it is not restated here.
#[verifier::external_body]
fn parse_semver(text: &str) -> (r: Result<SemVer, String>)
    ensures
        match r {
            Ok(v) => semver_parse(text@) == Ok::<SemVerView, Seq<char>>(v@),
            Err(e) => semver_parse(text@) == Err::<SemVerView, Seq<char>>(e@),
        },
{
    match semver::Version::parse(text) {
        Ok(v) => Ok(SemVer {
            major: v.major,
            minor: v.minor,
            patch: v.patch,
            pre: v.pre.as_str().to_owned(),
            build: v.build.as_str().to_owned(),
            parsed: v,
        }),
        Err(err) => Err(err.to_string()),
    }
}

/// Whether `a <= b` holds of the two `semver::Version` values.
pub uninterp spec fn semver_le(a: SemVerView, b: SemVerView) -> bool;

pub open spec fn same_numbers(a: SemVerView, b: SemVerView) -> bool {
    a.major == b.major && a.minor == b.minor && a.patch == b.patch
}

/// `(major, minor, patch)` of `a` comes before that of `b`, as tuples of integers.
pub open spec fn numbers_before(a: SemVerView, b: SemVerView) -> bool {
    ||| a.major < b.major
    ||| a.major == b.major && a.minor < b.minor
    ||| a.major == b.major && a.minor == b.minor && a.patch < b.patch
}

/// `<=` on two parsed versions, by `semver::Version`'s order. `semver`'s
/// documentation compares major, minor and patch first, as a tuple of integers,
/// and, where those agree, puts a pre-release below the release; the order is
/// derived field by field, so equal parts give equal versions. These facts are
/// stated; how different pre-release or build texts compare is left to
/// `semver_le`. A `SemVer` is only made by `parse_semver`, from one parsed
/// value, so its parts are those of the value compared here.
#[verifier::external_body]
fn version_le(a: &SemVer, b: &SemVer) -> (r: bool)
    ensures
        r == semver_le(a@, b@),
        !same_numbers(a@, b@) ==> (r <==> numbers_before(a@, b@)),
        same_numbers(a@, b@) && a@.pre.len() == 0 && b@.pre.len() > 0 ==> !r,
        same_numbers(a@, b@) && a@.pre.len() > 0 && b@.pre.len() == 0 ==> r,
        same_numbers(a@, b@) && a@.pre == b@.pre && a@.build == b@.build ==> r,
{
    a.parsed <= b.parsed
}

/// A version written out: `major.minor.patch`, then `-pre` and `+build` where
/// those are not empty.
pub open spec fn version_text(v: SemVerView) -> Seq<char> {
    let numbers = decimal(v.major as nat).push('.') + decimal(v.minor as nat).push('.') + decimal(
        v.patch as nat,
    );
    let with_pre = if v.pre.len() == 0 {
        numbers
    } else {
        numbers.push('-') + v.pre
    };
    if v.build.len() == 0 {
        with_pre
    } else {
        with_pre.push('+') + v.build
    }
}

impl SemVer {
    /// The version written out, as `semver::Version` displays it.
    pub fn to_text(&self) -> (r: String)
        ensures
            r@ == version_text(self@),
    {
        let mut r = decimal_string(self.major);
        push_char(&mut r, '.');
        let minor = decimal_string(self.minor);
        push_str(&mut r, minor.as_str());
        push_char(&mut r, '.');
        let patch = decimal_string(self.patch);
        push_str(&mut r, patch.as_str());
        if self.pre.as_str().unicode_len() > 0 {
            push_char(&mut r, '-');
            push_str(&mut r, self.pre.as_str());
        }
        if self.build.as_str().unicode_len() > 0 {
            push_char(&mut r, '+');
            push_str(&mut r, self.build.as_str());
        }
        r
    }
}

/// What an update check decides once both versions are read.
pub enum UpdateDecision {
    /// The feed offers nothing newer; the running version, written out.
    AlreadyCurrent(String),
    /// The feed's version is newer: fetch its installer.
    FetchInstaller,
}

pub ghost enum UpdateDecisionView {
    AlreadyCurrent(Seq<char>),
    FetchInstaller,
}

impl View for UpdateDecision {
    type V = UpdateDecisionView;

    open spec fn view(&self) -> UpdateDecisionView {
        match self {
            UpdateDecision::AlreadyCurrent(text) => UpdateDecisionView::AlreadyCurrent(text@),
            UpdateDecision::FetchInstaller => UpdateDecisionView::FetchInstaller,
        }
    }
}

/// The decision for two parse outcomes, the running version's first: a failed
/// parse is reported with what it concerned; a feed version at or below the
/// running one leaves the running one current.
pub open spec fn decision_view(
    current: Result<SemVerView, Seq<char>>,
    available: Result<SemVerView, Seq<char>>,
) -> Result<UpdateDecisionView, Seq<char>> {
    match current {
        Err(e) => Err("current version parse failed: "@ + e),
        Ok(c) => match available {
            Err(e) => Err("update version parse failed: "@ + e),
            Ok(a) => if semver_le(a, c) {
                Ok(UpdateDecisionView::AlreadyCurrent(version_text(c)))
            } else {
                Ok(UpdateDecisionView::FetchInstaller)
            },
        },
    }
}

pub open spec fn parse_view(r: Result<SemVer, String>) -> Result<SemVerView, Seq<char>> {
    match r {
        Ok(v) => Ok(v@),
        Err(e) => Err(e@),
    }
}

pub open spec fn decision_result_view(r: Result<UpdateDecision, String>) -> Result<
    UpdateDecisionView,
    Seq<char>,
> {
    match r {
        Ok(d) => Ok(d@),
        Err(e) => Err(e@),
    }
}

/// Decides an update from the two parse outcomes, the running version's first.
pub fn decide_update(current: Result<SemVer, String>, available: Result<SemVer, String>) -> (r:
    Result<UpdateDecision, String>)
    ensures
        decision_result_view(r) == decision_view(parse_view(current), parse_view(available)),
        match (current, available) {
            (Ok(c), Ok(a)) => {
                &&& !same_numbers(a@, c@) ==> (r is Ok && (r->Ok_0 is AlreadyCurrent
                    <==> numbers_before(a@, c@)))
                &&& same_numbers(a@, c@) && a@.pre == c@.pre && a@.build == c@.build ==> r is Ok
                    && r->Ok_0 is AlreadyCurrent
                &&& same_numbers(a@, c@) && a@.pre.len() == 0 && c@.pre.len() > 0 ==> r is Ok
                    && r->Ok_0 is FetchInstaller
            },
            _ => true,
        },
{
    match current {
        Err(e) => {
            let mut message = "current version parse failed: ".to_owned();
            push_str(&mut message, e.as_str());
            Err(message)
        },
        Ok(c) => match available {
            Err(e) => {
                let mut message = "update version parse failed: ".to_owned();
                push_str(&mut message, e.as_str());
                Err(message)
            },
            Ok(a) => {
                if version_le(&a, &c) {
                    Ok(UpdateDecision::AlreadyCurrent(c.to_text()))
                } else {
                    Ok(UpdateDecision::FetchInstaller)
                }
            },
        },
    }
}

/// Reads the running version and the feed's version and decides whether to
/// fetch the feed's installer.
pub fn check_update(current_version: &str, available_version: &str) -> (r: Result<UpdateDecision, String>)
    ensures
        decision_result_view(r) == decision_view(
            semver_parse(current_version@),
            semver_parse(available_version@),
        ),
        current_version@ == available_version@ && semver_parse(current_version@) is Ok ==> r is Ok
            && r->Ok_0 is AlreadyCurrent,
{
    let current = parse_semver(current_version);
    let available = parse_semver(available_version);
    decide_update(current, available)
}

} // verus!
