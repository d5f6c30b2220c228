//! Decisions about dependencies: which names and requests are valid, how a
//! dependency is identified, which git reference pins it, which artifacts a
//! platform needs, and which installed packages are stale.
use vstd::prelude::*;
use crate::package::manifest::{BuildArtifact, BuildConfig, Dependency, LockFile, LockedPackage};
use crate::text::{chars_of, is_whitespace, is_ws, str_eq, string_from_chars, trim_start};

verus! {

// ---------------------------------------------------------------------------
// Names and requests
// ---------------------------------------------------------------------------

/// A dependency name is one plain path component: not empty, not starting
/// with `-`, without `/`, and neither `.` nor `..`.
pub open spec fn valid_dependency_name(n: Seq<char>) -> bool {
    &&& n.len() > 0
    &&& n[0] != '-'
    &&& !n.contains('/')
    &&& n != "."@
    &&& n != ".."@
}

/// The message for an invalid dependency name.
pub open spec fn invalid_name_message(n: Seq<char>) -> Seq<char> {
    "Некорректное имя зависимости '"@ + n + "'"@
}

/// Accepts a name that is one plain path component.
pub fn validate_dependency_name(name: &str) -> (r: Result<(), String>)
    ensures
        match r {
            Ok(()) => valid_dependency_name(name@),
            Err(m) => !valid_dependency_name(name@) && m@ == invalid_name_message(name@),
        },
{
    let cs = chars_of(name);
    let mut ok = cs.len() > 0 && cs[0] != '-' && !str_eq(name, ".") && !str_eq(name, "..");
    let mut i: usize = 0;
    while ok && i < cs.len()
        invariant
            cs@ == name@,
            i <= cs@.len(),
            ok ==> forall|j: int| 0 <= j < i ==> cs@[j] != '/',
            ok ==> (cs@.len() > 0 && cs@[0] != '-' && name@ != "."@ && name@ != ".."@),
            !ok ==> !valid_dependency_name(name@),
        decreases cs@.len() - i,
    {
        if cs[i] == '/' {
            assert(name@[i as int] == '/');
            ok = false;
        }
        i = i + 1;
    }
    if ok {
        Ok(())
    } else {
        let mut msg = String::from_str("Некорректное имя зависимости '");
        msg.append(name);
        msg.append("'");
        Err(msg)
    }
}

/// The first error of a request to add a dependency: an invalid name, not
/// exactly one source, a revision, branch or tag for a local directory, or
/// more than one of them; `None` when the request is valid.
pub open spec fn add_request_error(name: Seq<char>, git: bool, path: bool, rev: bool, branch: bool, tag: bool) -> Option<
    Seq<char>,
> {
    if !valid_dependency_name(name) {
        Some(invalid_name_message(name))
    } else if git == path {
        Some("Укажите ровно один источник зависимости: --git или --path"@)
    } else if path && (rev || branch || tag) {
        Some("--rev, --branch и --tag доступны только для --git зависимостей"@)
    } else if (if rev { 1int } else { 0 }) + (if branch { 1int } else { 0 }) + (if tag { 1int } else { 0 }) > 1 {
        Some("Укажите только один вариант: --rev, --branch или --tag"@)
    } else {
        None
    }
}

/// Checks a request to add the dependency `name` with the given options.
pub fn validate_add_request(
    name: &str,
    git: &Option<String>,
    path: &Option<String>,
    rev: &Option<String>,
    branch: &Option<String>,
    tag: &Option<String>,
) -> (r: Result<(), String>)
    ensures
        match (r, add_request_error(name@, git is Some, path is Some, rev is Some, branch is Some, tag is Some)) {
            (Ok(()), None) => true,
            (Err(m), Some(e)) => m@ == e,
            _ => false,
        },
{
    validate_dependency_name(name)?;
    if git.is_some() == path.is_some() {
        return Err(String::from_str("Укажите ровно один источник зависимости: --git или --path"));
    }
    if path.is_some() && (rev.is_some() || branch.is_some() || tag.is_some()) {
        return Err(String::from_str("--rev, --branch и --tag доступны только для --git зависимостей"));
    }
    let count: u8 = (if rev.is_some() { 1u8 } else { 0u8 }) + (if branch.is_some() { 1u8 } else { 0u8 }) + (if tag.is_some() {
        1u8
    } else {
        0u8
    });
    if count > 1 {
        return Err(String::from_str("Укажите только один вариант: --rev, --branch или --tag"));
    }
    Ok(())
}

// ---------------------------------------------------------------------------
// Identity and git references
// ---------------------------------------------------------------------------

/// The git reference a dependency asks for: its revision, branch or tag,
/// else `HEAD`.
pub open spec fn requested_reference(d: Dependency) -> Seq<char> {
    match d.rev {
        Some(r) => r@,
        None => match d.branch {
            Some(b) => b@,
            None => match d.tag {
                Some(t) => t@,
                None => "HEAD"@,
            },
        },
    }
}

/// How a dependency is identified when two manifests name it: its git
/// source and reference, or its resolved local directory `local_path`.
pub open spec fn identity_of(d: Dependency, local_path: Seq<char>) -> Result<Seq<char>, Seq<char>> {
    match d.git {
        Some(g) => Ok("git+"@ + g@ + "#"@ + requested_reference(d)),
        None => match d.path {
            Some(_) => Ok("path+"@ + local_path),
            None => Err("Dependency source is missing"@),
        },
    }
}

/// The identity of a dependency; `local_path` is its local directory as
/// resolved, for a dependency without git source.
pub fn dependency_identity(dependency: &Dependency, local_path: &str) -> (r: Result<String, String>)
    ensures
        match (r, identity_of(*dependency, local_path@)) {
            (Ok(v), Ok(s)) => v@ == s,
            (Err(v), Err(s)) => v@ == s,
            _ => false,
        },
{
    match &dependency.git {
        Some(git) => {
            let mut id = String::from_str("git+");
            id.append(git.as_str());
            id.append("#");
            let reference: &str = match &dependency.rev {
                Some(r) => r.as_str(),
                None => match &dependency.branch {
                    Some(b) => b.as_str(),
                    None => match &dependency.tag {
                        Some(t) => t.as_str(),
                        None => "HEAD",
                    },
                },
            };
            id.append(reference);
            Ok(id)
        },
        None => match &dependency.path {
            Some(_) => {
                let mut id = String::from_str("path+");
                id.append(local_path);
                Ok(id)
            },
            None => Err(String::from_str("Dependency source is missing")),
        },
    }
}

/// Whether `c` is a hexadecimal digit.
pub open spec fn is_hex(c: char) -> bool {
    ('0' <= c <= '9') || ('a' <= c <= 'f') || ('A' <= c <= 'F')
}

/// A full commit hash: forty hexadecimal digits.
pub open spec fn full_sha(s: Seq<char>) -> bool {
    s.len() == 40 && forall|i: int| 0 <= i < s.len() ==> is_hex(#[trigger] s[i])
}

/// Whether `value` is a full commit hash.
pub fn is_full_git_sha(value: &str) -> (r: bool)
    ensures
        r == full_sha(value@),
{
    let cs = chars_of(value);
    if cs.len() != 40 {
        return false;
    }
    let mut i: usize = 0;
    while i < cs.len()
        invariant
            cs@ == value@,
            i <= cs@.len(),
            forall|j: int| 0 <= j < i ==> is_hex(#[trigger] cs@[j]),
        decreases cs@.len() - i,
    {
        let c = cs[i];
        if !(('0' <= c && c <= '9') || ('a' <= c && c <= 'f') || ('A' <= c && c <= 'F')) {
            assert(!is_hex(value@[i as int]));
            return false;
        }
        i = i + 1;
    }
    true
}

/// Where the revision of a git dependency comes from.
#[derive(Debug)]
pub enum RevisionLookup {
    /// The requested revision is a full hash and is used as it is.
    Pinned(String),
    /// The revision is what the remote lists for this reference.
    Remote(String),
}

/// Whether the revision is pinned, and the hash or reference.
pub open spec fn revision_plan(d: Dependency) -> (bool, Seq<char>) {
    match d.rev {
        Some(r) => (full_sha(r@), r@),
        None => match d.branch {
            Some(b) => (false, "refs/heads/"@ + b@),
            None => match d.tag {
                Some(t) => (false, "refs/tags/"@ + t@),
                None => (false, "HEAD"@),
            },
        },
    }
}

/// How to find the revision of a git dependency: a full hash given as its
/// revision is used as it is; otherwise its revision, branch
/// (`refs/heads/..`), tag (`refs/tags/..`) or `HEAD` is looked up.
pub fn revision_lookup(dependency: &Dependency) -> (r: RevisionLookup)
    ensures
        match r {
            RevisionLookup::Pinned(s) => revision_plan(*dependency) == (true, s@),
            RevisionLookup::Remote(s) => revision_plan(*dependency) == (false, s@),
        },
{
    match &dependency.rev {
        Some(rev) => {
            if is_full_git_sha(rev.as_str()) {
                RevisionLookup::Pinned(rev.clone())
            } else {
                RevisionLookup::Remote(rev.clone())
            }
        },
        None => match &dependency.branch {
            Some(branch) => {
                let mut s = String::from_str("refs/heads/");
                s.append(branch.as_str());
                RevisionLookup::Remote(s)
            },
            None => match &dependency.tag {
                Some(tag) => {
                    let mut s = String::from_str("refs/tags/");
                    s.append(tag.as_str());
                    RevisionLookup::Remote(s)
                },
                None => RevisionLookup::Remote(String::from_str("HEAD")),
            },
        },
    }
}

/// The length of the run of non-whitespace characters that starts `s`.
pub open spec fn word_len(s: Seq<char>) -> int
    decreases s.len(),
{
    if s.len() > 0 && !is_ws(s[0]) {
        1 + word_len(s.drop_first())
    } else {
        0
    }
}

/// The first whitespace-separated word of `s`, if any.
pub open spec fn first_word(s: Seq<char>) -> Option<Seq<char>> {
    let t = trim_start(s);
    if t.len() == 0 {
        None
    } else {
        Some(t.take(word_len(t)))
    }
}

/// The message for a reference that the remote does not list.
pub open spec fn missing_reference_message(reference: Seq<char>) -> Seq<char> {
    "Git-ссылка '"@ + reference + "' не найдена"@
}

/// The revision in the output of `git ls-remote` for `reference`: the
/// first word of the first line that has one.
pub fn first_listed_revision(stdout: &str, reference: &str) -> (r: Result<String, String>)
    ensures
        match (r, first_word(stdout@)) {
            (Ok(v), Some(w)) => v@ == w,
            (Err(m), None) => m@ == missing_reference_message(reference@),
            _ => false,
        },
{
    let cs = chars_of(stdout);
    let mut i: usize = 0;
    assert(cs@.skip(0) =~= cs@);
    while i < cs.len() && is_whitespace(cs[i])
        invariant
            cs@ == stdout@,
            i <= cs@.len(),
            trim_start(cs@) == trim_start(cs@.skip(i as int)),
        decreases cs@.len() - i,
    {
        proof {
            assert(cs@.skip(i as int).drop_first() =~= cs@.skip(i + 1));
        }
        i = i + 1;
    }
    let ghost t = cs@.skip(i as int);
    if i == cs.len() {
        assert(t.len() == 0);
        let mut msg = String::from_str("Git-ссылка '");
        msg.append(reference);
        msg.append("' не найдена");
        return Err(msg);
    }
    assert(trim_start(t) == t);
    let start = i;
    while i < cs.len() && !is_whitespace(cs[i])
        invariant
            cs@ == stdout@,
            start <= i <= cs@.len(),
            t == cs@.skip(start as int),
            word_len(t) == (i - start) + word_len(cs@.skip(i as int)),
        decreases cs@.len() - i,
    {
        proof {
            assert(cs@.skip(i as int).drop_first() =~= cs@.skip(i + 1));
        }
        i = i + 1;
    }
    assert(word_len(cs@.skip(i as int)) == 0);
    let word = string_from_chars(&cs.as_slice()[start..i]);
    assert(word@ =~= t.take(word_len(t)));
    Ok(word)
}

// ---------------------------------------------------------------------------
// Builds
// ---------------------------------------------------------------------------

/// Whether an artifact lacks its source or its destination.
pub open spec fn artifact_incomplete(a: BuildArtifact) -> bool {
    a.source@.len() == 0 || a.destination@.len() == 0
}

/// The first problem of a build configuration: an empty program, or an
/// artifact without source or destination.
pub open spec fn build_config_error(b: BuildConfig) -> Option<Seq<char>> {
    if b.command@.len() > 0 && b.command@[0]@.len() == 0 {
        Some("build.command program must not be empty"@)
    } else if exists|i: int| 0 <= i < b.artifacts@.len() && #[trigger] artifact_incomplete(b.artifacts@[i]) {
        Some("build artifact source and destination must not be empty"@)
    } else {
        None
    }
}

/// Checks that the build program is not empty and that every artifact has
/// a source and a destination.
pub fn validate_build_config(build: &BuildConfig) -> (r: Result<(), String>)
    ensures
        match (r, build_config_error(*build)) {
            (Ok(()), None) => true,
            (Err(m), Some(e)) => m@ == e,
            _ => false,
        },
{
    if build.command.len() > 0 && build.command[0].as_str().unicode_len() == 0 {
        assert(build.command@[0]@.len() == 0);
        return Err(String::from_str("build.command program must not be empty"));
    }
    let mut i: usize = 0;
    while i < build.artifacts.len()
        invariant
            i <= build.artifacts@.len(),
            !(build.command@.len() > 0 && build.command@[0]@.len() == 0),
            forall|j: int| 0 <= j < i ==> !#[trigger] artifact_incomplete(build.artifacts@[j]),
        decreases build.artifacts@.len() - i,
    {
        let artifact = &build.artifacts[i];
        if artifact.source.as_str().unicode_len() == 0 || artifact.destination.as_str().unicode_len() == 0 {
            assert(artifact_incomplete(build.artifacts@[i as int]));
            return Err(String::from_str("build artifact source and destination must not be empty"));
        }
        i = i + 1;
    }
    Ok(())
}

/// `os-arch`, the name of a target platform.
pub open spec fn platform_name(os: Seq<char>, arch: Seq<char>) -> Seq<char> {
    os + "-"@ + arch
}

/// The name of the platform with the given operating system and
/// architecture.
pub fn current_platform(os: &str, arch: &str) -> (r: String)
    ensures
        r@ == platform_name(os@, arch@),
{
    let mut s = String::from_str(os);
    s.append("-");
    s.append(arch);
    s
}

/// Whether an artifact is for the platform: it names no platform, or `*`,
/// the operating system or the platform's full name.
pub open spec fn artifact_for(a: BuildArtifact, os: Seq<char>, arch: Seq<char>) -> bool {
    a.platforms@.len() == 0 || exists|i: int|
        0 <= i < a.platforms@.len() && (#[trigger] a.platforms@[i]@ == "*"@ || a.platforms@[i]@ == os
            || a.platforms@[i]@ == platform_name(os, arch))
}

/// Whether an artifact is to be installed on the platform `os`/`arch`.
pub fn artifact_matches_platform(artifact: &BuildArtifact, os: &str, arch: &str) -> (r: bool)
    ensures
        r == artifact_for(*artifact, os@, arch@),
{
    if artifact.platforms.len() == 0 {
        return true;
    }
    let platform = current_platform(os, arch);
    let mut i: usize = 0;
    while i < artifact.platforms.len()
        invariant
            i <= artifact.platforms@.len(),
            platform@ == platform_name(os@, arch@),
            forall|j: int|
                0 <= j < i ==> !(#[trigger] artifact.platforms@[j]@ == "*"@ || artifact.platforms@[j]@ == os@
                    || artifact.platforms@[j]@ == platform_name(os@, arch@)),
        decreases artifact.platforms@.len() - i,
    {
        let p = artifact.platforms[i].as_str();
        if str_eq(p, "*") || str_eq(p, os) || str_eq(p, platform.as_str()) {
            assert(artifact.platforms@[i as int]@ == "*"@ || artifact.platforms@[i as int]@ == os@
                || artifact.platforms@[i as int]@ == platform_name(os@, arch@));
            return true;
        }
        i = i + 1;
    }
    false
}


// ---------------------------------------------------------------------------
// Resolution bookkeeping
// ---------------------------------------------------------------------------

/// The identity recorded for each name, later records replacing earlier
/// ones.
pub open spec fn source_map(e: Seq<(String, String)>) -> Map<Seq<char>, Seq<char>>
    decreases e.len(),
{
    if e.len() == 0 {
        Map::empty()
    } else {
        source_map(e.drop_last()).insert(e.last().0@, e.last().1@)
    }
}

/// The names in a list.
pub open spec fn name_set(v: Seq<String>) -> Set<Seq<char>> {
    Set::new(|k: Seq<char>| exists|i: int| 0 <= i < v.len() && #[trigger] v[i]@ == k)
}

/// The message for one name given two different sources.
pub open spec fn conflict_message(name: Seq<char>, existing: Seq<char>, identity: Seq<char>) -> Seq<char> {
    "Dependency name conflict for '"@ + name + "': '"@ + existing + "' and '"@ + identity + "'"@
}

/// The message for a package that depends on itself.
pub open spec fn cycle_message(name: Seq<char>) -> Seq<char> {
    "Cyclic package dependency detected at '"@ + name + "'"@
}

/// What to do with a dependency met while synchronising.
#[derive(Debug, PartialEq, Eq, Structural)]
pub enum Visit {
    /// Already installed from the same source: nothing to do.
    Known,
    /// To be resolved and installed now.
    Resolve,
}

/// The sources of the dependencies installed so far and the names being
/// resolved, to detect conflicting sources and cycles.
#[derive(Debug)]
pub struct DependencyTracker {
    sources: Vec<(String, String)>,
    resolving: Vec<String>,
}

impl DependencyTracker {
    /// The identity installed under each name.
    pub closed spec fn sources(&self) -> Map<Seq<char>, Seq<char>> {
        source_map(self.sources@)
    }

    /// The names whose resolution is under way.
    pub closed spec fn resolving(&self) -> Set<Seq<char>> {
        name_set(self.resolving@)
    }

    /// Nothing installed, nothing under way.
    pub fn new() -> (r: DependencyTracker)
        ensures
            r.sources() == Map::<Seq<char>, Seq<char>>::empty(),
            r.resolving() == Set::<Seq<char>>::empty(),
    {
        let r = DependencyTracker { sources: Vec::new(), resolving: Vec::new() };
        assert(r.resolving() =~= Set::<Seq<char>>::empty());
        r
    }

    fn find_source(&self, name: &str) -> (r: Option<&String>)
        ensures
            match r {
                Some(s) => self.sources().contains_key(name@) && self.sources()[name@] == s@,
                None => !self.sources().contains_key(name@),
            },
    {
        let mut i = self.sources.len();
        assert(self.sources@.take(i as int) =~= self.sources@);
        while i > 0
            invariant
                i <= self.sources@.len(),
                source_map(self.sources@.take(i as int)).contains_key(name@) == source_map(self.sources@).contains_key(name@),
                source_map(self.sources@.take(i as int)).contains_key(name@) ==> source_map(self.sources@.take(i as int))[name@]
                    == source_map(self.sources@)[name@],
            decreases i,
        {
            let ghost d = self.sources@.take(i as int);
            proof {
                assert(d.drop_last() =~= self.sources@.take(i - 1));
                assert(d.last() == self.sources@[i - 1]);
            }
            if str_eq(self.sources[i - 1].0.as_str(), name) {
                return Some(&self.sources[i - 1].1);
            }
            i = i - 1;
        }
        assert(source_map(self.sources@.take(0)) =~= Map::<Seq<char>, Seq<char>>::empty());
        None
    }

    fn is_resolving(&self, name: &str) -> (r: bool)
        ensures
            r == self.resolving().contains(name@),
    {
        let mut i: usize = 0;
        while i < self.resolving.len()
            invariant
                i <= self.resolving@.len(),
                forall|j: int| 0 <= j < i ==> self.resolving@[j]@ != name@,
            decreases self.resolving@.len() - i,
        {
            if str_eq(self.resolving[i].as_str(), name) {
                assert(self.resolving@[i as int]@ == name@);
                return true;
            }
            i = i + 1;
        }
        false
    }

    /// Meets the dependency `name` with source `identity`: nothing to do if
    /// it is installed from the same source, an error if from another one
    /// or if it is being resolved already (a cycle), else it is now under
    /// way.
    pub fn begin(&mut self, name: &str, identity: &str) -> (r: Result<Visit, String>)
        ensures
            final(self).sources() == old(self).sources(),
            old(self).sources().contains_key(name@) ==> {
                let existing = old(self).sources()[name@];
                &&& final(self).resolving() == old(self).resolving()
                &&& if existing == identity@ {
                    r == Ok::<Visit, String>(Visit::Known)
                } else {
                    r matches Err(m) && m@ == conflict_message(name@, existing, identity@)
                }
            },
            !old(self).sources().contains_key(name@) && old(self).resolving().contains(name@) ==> {
                &&& final(self).resolving() == old(self).resolving()
                &&& r matches Err(m) && m@ == cycle_message(name@)
            },
            !old(self).sources().contains_key(name@) && !old(self).resolving().contains(name@) ==> {
                &&& final(self).resolving() == old(self).resolving().insert(name@)
                &&& r == Ok::<Visit, String>(Visit::Resolve)
            },
    {
        match self.find_source(name) {
            Some(existing) => {
                if str_eq(existing.as_str(), identity) {
                    return Ok(Visit::Known);
                }
                let mut msg = String::from_str("Dependency name conflict for '");
                msg.append(name);
                msg.append("': '");
                msg.append(existing.as_str());
                msg.append("' and '");
                msg.append(identity);
                msg.append("'");
                return Err(msg);
            },
            None => {},
        }
        if self.is_resolving(name) {
            let mut msg = String::from_str("Cyclic package dependency detected at '");
            msg.append(name);
            msg.append("'");
            return Err(msg);
        }
        let ghost before = self.resolving@;
        self.resolving.push(String::from_str(name));
        proof {
            assert forall|k: Seq<char>| #[trigger] name_set(self.resolving@).contains(k) == name_set(before).insert(
                name@,
            ).contains(k) by {
                if name_set(before).contains(k) {
                    let j = choose|j: int| 0 <= j < before.len() && #[trigger] before[j]@ == k;
                    assert(self.resolving@[j]@ == k);
                }
                if k == name@ {
                    assert(self.resolving@[before.len() as int]@ == k);
                }
                if name_set(self.resolving@).contains(k) {
                    let j = choose|j: int| 0 <= j < self.resolving@.len() && #[trigger] self.resolving@[j]@ == k;
                    if j < before.len() {
                        assert(before[j]@ == k);
                    }
                }
            }
            assert(name_set(self.resolving@) =~= name_set(before).insert(name@));
        }
        Ok(Visit::Resolve)
    }

    /// Records that `name` is installed from `identity`.
    pub fn record(&mut self, name: &str, identity: &str)
        ensures
            final(self).sources() == old(self).sources().insert(name@, identity@),
            final(self).resolving() == old(self).resolving(),
    {
        let ghost before = self.sources@;
        self.sources.push((String::from_str(name), String::from_str(identity)));
        assert(self.sources@.drop_last() =~= before);
    }

    /// Ends the resolution of `name`.
    pub fn finish(&mut self, name: &str)
        ensures
            final(self).sources() == old(self).sources(),
            final(self).resolving() == old(self).resolving().remove(name@),
    {
        let ghost before = self.resolving@;
        let mut kept: Vec<String> = Vec::new();
        let mut i: usize = 0;
        while i < self.resolving.len()
            invariant
                self.resolving@ == before,
                i <= before.len(),
                forall|k: Seq<char>| #[trigger] name_set(kept@).contains(k) == (name_set(before.take(i as int)).contains(k) && k != name@),
            decreases before.len() - i,
        {
            let ghost prev = kept@;
            if !str_eq(self.resolving[i].as_str(), name) {
                kept.push(self.resolving[i].clone());
            }
            proof {
                assert forall|k: Seq<char>| #[trigger] name_set(kept@).contains(k) == (name_set(before.take(i + 1)).contains(k)
                    && k != name@) by {
                    if name_set(before.take(i + 1)).contains(k) {
                        let j = choose|j: int| 0 <= j < before.take(i + 1).len() && #[trigger] before.take(i + 1)[j]@ == k;
                        if j < i {
                            assert(before.take(i as int)[j]@ == k);
                        }
                    }
                    if name_set(before.take(i as int)).contains(k) {
                        let j = choose|j: int| 0 <= j < before.take(i as int).len() && #[trigger] before.take(i as int)[j]@ == k;
                        assert(before.take(i + 1)[j]@ == k);
                    }
                    if name_set(kept@).contains(k) {
                        let j = choose|j: int| 0 <= j < kept@.len() && #[trigger] kept@[j]@ == k;
                        if j < prev.len() {
                            assert(prev[j]@ == k);
                        } else {
                            assert(before.take(i + 1)[i as int]@ == k);
                        }
                    }
                    if name_set(prev).contains(k) {
                        let j = choose|j: int| 0 <= j < prev.len() && #[trigger] prev[j]@ == k;
                        assert(kept@[j]@ == k);
                    }
                    if k != name@ && k == before[i as int]@ {
                        assert(kept@[prev.len() as int]@ == k);
                    }
                }
            }
            i = i + 1;
        }
        self.resolving = kept;
        proof {
            assert(before.take(before.len() as int) =~= before);
            assert(name_set(self.resolving@) =~= name_set(before).remove(name@));
        }
    }
}

// ---------------------------------------------------------------------------
// Lock file bookkeeping
// ---------------------------------------------------------------------------

/// Whether a package of the given name is in the list.
pub open spec fn has_package(pkgs: Seq<LockedPackage>, name: Seq<char>) -> bool {
    exists|i: int| 0 <= i < pkgs.len() && #[trigger] pkgs[i].name@ == name
}

/// The install paths of the `previous` packages that `current` no longer
/// has, in order.
pub open spec fn stale_paths(previous: Seq<LockedPackage>, current: Seq<LockedPackage>) -> Seq<Seq<char>>
    decreases previous.len(),
{
    if previous.len() == 0 {
        seq![]
    } else {
        stale_paths(previous.drop_last(), current) + if has_package(current, previous.last().name@) {
            seq![]
        } else {
            seq![previous.last().path@]
        }
    }
}

fn has_package_named(pkgs: &Vec<LockedPackage>, name: &str) -> (r: bool)
    ensures
        r == has_package(pkgs@, name@),
{
    let mut i: usize = 0;
    while i < pkgs.len()
        invariant
            i <= pkgs@.len(),
            forall|j: int| 0 <= j < i ==> pkgs@[j].name@ != name@,
        decreases pkgs@.len() - i,
    {
        if str_eq(pkgs[i].name.as_str(), name) {
            assert(pkgs@[i as int].name@ == name@);
            return true;
        }
        i = i + 1;
    }
    false
}

/// The install paths of the packages of `previous` that `current` no
/// longer has.
pub fn stale_dependencies(previous: &LockFile, current: &LockFile) -> (r: Vec<String>)
    ensures
        r@.map_values(|s: String| s@) == stale_paths(previous.package@, current.package@),
{
    let mut out: Vec<String> = Vec::new();
    let mut i: usize = 0;
    while i < previous.package.len()
        invariant
            i <= previous.package@.len(),
            out@.map_values(|s: String| s@) =~= stale_paths(previous.package@.take(i as int), current.package@),
        decreases previous.package@.len() - i,
    {
        let package = &previous.package[i];
        let ghost before = out@;
        if !has_package_named(&current.package, package.name.as_str()) {
            out.push(package.path.clone());
        }
        proof {
            assert(previous.package@.take(i + 1).drop_last() =~= previous.package@.take(i as int));
            assert(previous.package@.take(i + 1).last() == *package);
            assert(out@.map_values(|s: String| s@) =~= stale_paths(previous.package@.take(i + 1), current.package@));
        }
        i = i + 1;
    }
    assert(previous.package@.take(previous.package@.len() as int) =~= previous.package@);
    out
}

/// The packages not named `name`, in order.
pub open spec fn without_package(pkgs: Seq<LockedPackage>, name: Seq<char>) -> Seq<LockedPackage>
    decreases pkgs.len(),
{
    if pkgs.len() == 0 {
        seq![]
    } else {
        without_package(pkgs.drop_last(), name) + if pkgs.last().name@ == name {
            seq![]
        } else {
            seq![pkgs.last()]
        }
    }
}

/// The install path of the first package named `name`, if any.
pub open spec fn first_path(pkgs: Seq<LockedPackage>, name: Seq<char>) -> Option<Seq<char>>
    decreases pkgs.len(),
{
    if pkgs.len() == 0 {
        None
    } else if pkgs[0].name@ == name {
        Some(pkgs[0].path@)
    } else {
        first_path(pkgs.drop_first(), name)
    }
}

/// Removing a name from the lock leaves no package of that name, and keeps
/// every package of another name.
pub proof fn lemma_removal_drops_exactly_the_name(pkgs: Seq<LockedPackage>, name: Seq<char>)
    ensures
        forall|i: int| 0 <= i < without_package(pkgs, name).len() ==> (#[trigger] without_package(pkgs, name)[i]).name@
            != name,
        forall|p: LockedPackage| pkgs.contains(p) && p.name@ != name ==> #[trigger] without_package(pkgs, name).contains(p),
    decreases pkgs.len(),
{
    if pkgs.len() > 0 {
        let rest = pkgs.drop_last();
        let last = pkgs.last();
        lemma_removal_drops_exactly_the_name(rest, name);
        let tail: Seq<LockedPackage> = if last.name@ == name { seq![] } else { seq![last] };
        let w = without_package(pkgs, name);
        assert(w == without_package(rest, name) + tail);
        assert forall|i: int| 0 <= i < w.len() implies (#[trigger] w[i]).name@ != name by {
            if i < without_package(rest, name).len() {
                assert(w[i] == without_package(rest, name)[i]);
            } else {
                assert(w[i] == tail[i - without_package(rest, name).len()]);
            }
        }
        assert forall|p: LockedPackage| pkgs.contains(p) && p.name@ != name implies #[trigger] w.contains(p) by {
            let j = choose|j: int| 0 <= j < pkgs.len() && pkgs[j] == p;
            if j < rest.len() {
                assert(rest[j] == p);
                assert(rest.contains(p));
                assert(without_package(rest, name).contains(p));
                let k = choose|k: int| 0 <= k < without_package(rest, name).len() && without_package(rest, name)[k] == p;
                assert(w[k] == p);
            } else {
                assert(w[w.len() - 1] == p);
            }
        }
    }
}

/// Removes the packages named `name` from the lock file and returns the
/// install path of the first of them, if any.
pub fn remove_locked_package(lock: &mut LockFile, name: &str) -> (r: Option<String>)
    ensures
        final(lock).version == old(lock).version,
        final(lock).package@ == without_package(old(lock).package@, name@),
        match (r, first_path(old(lock).package@, name@)) {
            (Some(p), Some(q)) => p@ == q,
            (None, None) => true,
            _ => false,
        },
{
    let ghost all = lock.package@;
    let mut rest: Vec<LockedPackage> = Vec::new();
    std::mem::swap(&mut rest, &mut lock.package);
    let mut kept: Vec<LockedPackage> = Vec::new();
    let mut found: Option<String> = None;
    let mut i: usize = 0;
    let n = rest.len();
    assert(all.skip(0) =~= all);
    while 0 < rest.len()
        invariant
            n == all.len(),
            i <= n,
            i + rest@.len() == n,
            rest@ == all.skip(i as int),
            kept@ == without_package(all.take(i as int), name@),
            match found {
                Some(p) => first_path(all, name@) == Some(p@),
                None => first_path(all, name@) == first_path(all.skip(i as int), name@),
            },
        decreases rest@.len(),
    {
        let package = rest.remove(0);
        proof {
            assert(package == all[i as int]);
            assert(all.skip(i as int).drop_first() =~= all.skip(i + 1));
            assert(all.take(i + 1).drop_last() =~= all.take(i as int));
            assert(all.take(i + 1).last() == package);
        }
        if str_eq(package.name.as_str(), name) {
            if found.is_none() {
                found = Some(package.path.clone());
            }
        } else {
            kept.push(package);
        }
        i = i + 1;
    }
    proof {
        assert(all.take(n as int) =~= all);
        assert(all.skip(n as int) =~= Seq::<LockedPackage>::empty());
    }
    lock.package = kept;
    found
}

/// Whether an install path is inside the active virtual environment.
pub open spec fn in_venv(path: Seq<char>) -> bool {
    path.len() >= 12 && path.take(12) == "$GOIDA_VENV/"@
}

/// Whether a locked install path is relative to the virtual environment
/// (`$GOIDA_VENV/...`).
pub fn is_venv_path(path: &str) -> (r: bool)
    ensures
        r == in_venv(path@),
{
    let cs = chars_of(path);
    let prefix = chars_of("$GOIDA_VENV/");
    proof {
        reveal_strlit("$GOIDA_VENV/");
    }
    if cs.len() < 12 {
        return false;
    }
    let mut i: usize = 0;
    while i < 12
        invariant
            cs@ == path@,
            prefix@ == "$GOIDA_VENV/"@,
            prefix@.len() == 12,
            cs@.len() >= 12,
            i <= 12,
            forall|j: int| 0 <= j < i ==> cs@[j] == prefix@[j],
        decreases 12 - i,
    {
        if cs[i] != prefix[i] {
            assert(path@.take(12)[i as int] != "$GOIDA_VENV/"@[i as int]);
            return false;
        }
        i = i + 1;
    }
    assert(path@.take(12) =~= "$GOIDA_VENV/"@);
    true
}

} // verus!

