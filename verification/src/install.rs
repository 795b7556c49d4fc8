//! How OpenClaw is installed.

use vstd::prelude::*;
use vstd::string::*;
use vstd::utf8::{decode_utf8, encode_utf8, encode_utf8_decode_utf8, is_char_boundary};

use crate::clock::host_name;
use crate::commands::{filled, CommandResult, CommandView};
use crate::json::{
    at, either, json_opt_text, json_text, lemma_entry_value, opt_json_view, opt_slice, opt_str_view,
    opt_text, parse_json, parsed_json, text_in, text_or_null, value_at, value_or, Fields, Json,
    JsonView,
};
use crate::paths::{join_path, joined_path};
use crate::text::{
    begins_with, cat, cat5, fields, law_fields, split_fields, starts_with, texts, CharClass,
};
use crate::versions::{normalize_version, normalized};

verus! {

/// How the program came onto the machine.
#[derive(Debug, Clone, Copy, PartialEq, Eq, Structural)]
pub enum InstallStrategy {
    Unknown,
    NpmGlobal,
}

impl InstallStrategy {
    /// The word for it.
    pub open spec fn word(self) -> Seq<char> {
        match self {
            InstallStrategy::Unknown => "unknown"@,
            InstallStrategy::NpmGlobal => "npm-global"@,
        }
    }

    /// The word for it.
    pub fn as_str(self) -> (r: &'static str)
        ensures
            r@ == self.word(),
    {
        match self {
            InstallStrategy::Unknown => "unknown",
            InstallStrategy::NpmGlobal => "npm-global",
        }
    }
}

/// How the program is installed.
pub struct InstallInfo {
    pub hostname: String,
    pub openclaw_version: Option<String>,
    pub version_full: Option<String>,
    pub openclaw_path: Option<String>,
    pub install_strategy: InstallStrategy,
    pub npm_package_dir: Option<String>,
}

/// What an [`InstallInfo`] stands for.
pub struct InstallView {
    pub hostname: Seq<char>,
    pub openclaw_version: Option<Seq<char>>,
    pub version_full: Option<Seq<char>>,
    pub openclaw_path: Option<Seq<char>>,
    pub install_strategy: InstallStrategy,
    pub npm_package_dir: Option<Seq<char>>,
}

impl View for InstallInfo {
    type V = InstallView;

    open spec fn view(&self) -> InstallView {
        InstallView {
            hostname: self.hostname@,
            openclaw_version: opt_text(self.openclaw_version),
            version_full: opt_text(self.version_full),
            openclaw_path: opt_text(self.openclaw_path),
            install_strategy: self.install_strategy,
            npm_package_dir: opt_text(self.npm_package_dir),
        }
    }
}

impl InstallView {
    /// The report on the installation.
    pub open spec fn report(self) -> JsonView {
        JsonView::Object(
            seq![
                ("hostname"@, JsonView::Str(self.hostname)),
                ("openclaw_version"@, text_or_null(self.openclaw_version)),
                ("openclaw_version_full"@, text_or_null(self.version_full)),
                ("openclaw_path"@, text_or_null(self.openclaw_path)),
                ("install_strategy"@, JsonView::Str(self.install_strategy.word())),
                ("npm_package_dir"@, text_or_null(self.npm_package_dir)),
            ],
        )
    }
}

impl InstallInfo {
    /// The report on the installation.
    pub fn to_json(&self) -> (r: Json)
        ensures
            r@ == self@.report(),
    {
        let mut f = Fields::new();
        f.put("hostname", json_text(self.hostname.as_str()));
        f.put("openclaw_version", json_opt_text(opt_slice(&self.openclaw_version)));
        f.put("openclaw_version_full", json_opt_text(opt_slice(&self.version_full)));
        f.put("openclaw_path", json_opt_text(opt_slice(&self.openclaw_path)));
        f.put("install_strategy", json_text(self.install_strategy.as_str()));
        f.put("npm_package_dir", json_opt_text(opt_slice(&self.npm_package_dir)));
        assert(f@ == self@.report()->Object_0);
        f.object()
    }
}

// ---------------------------------------------------------------------------
// The package
// ---------------------------------------------------------------------------

/// An entry of a directory: its name, and whether a `package.json` stands in it.
pub struct DirEntry {
    pub name: String,
    pub has_package: bool,
}

/// Whether the package can stand in the entry.
pub open spec fn holds_package(e: DirEntry) -> bool {
    e.has_package && begins_with(e.name@, ".openclaw-"@)
}

/// The first of the entries, as the directory lists them, that holds the package.
pub open spec fn first_package(entries: Seq<DirEntry>) -> Option<Seq<char>>
    decreases entries.len(),
{
    if entries.len() == 0 {
        None
    } else if holds_package(entries[0]) {
        Some(entries[0].name@)
    } else {
        first_package(entries.drop_first())
    }
}

/// The directory of the package: `openclaw` below the root where a `package.json`
/// stands in it, or else the first entry that holds the package.
pub open spec fn package_dir(
    npm_root: Seq<char>,
    direct: bool,
    entries: Seq<DirEntry>,
) -> Option<Seq<char>> {
    if direct {
        Some(joined_path(npm_root, "openclaw"@))
    } else {
        match first_package(entries) {
            Some(name) => Some(joined_path(npm_root, name)),
            None => None,
        }
    }
}

/// The directory of the package. `direct` tells whether a `package.json` stands in
/// `openclaw` below the root.
pub fn locate_openclaw_package_dir(
    npm_root: &str,
    direct: bool,
    entries: &Vec<DirEntry>,
) -> (r: Option<String>)
    ensures
        opt_text(r) == package_dir(npm_root@, direct, entries@),
{
    if direct {
        return Some(join_path(npm_root, "openclaw"));
    }
    let mut i: usize = 0;
    assert(entries@.skip(0) =~= entries@);
    while i < entries.len()
        invariant
            !direct,
            i <= entries@.len(),
            first_package(entries@.skip(i as int)) == first_package(entries@),
        decreases entries@.len() - i,
    {
        assert(entries@.skip(i as int).drop_first() =~= entries@.skip(i + 1));
        if entries[i].has_package && starts_with(entries[i].name.as_str(), ".openclaw-") {
            return Some(join_path(npm_root, entries[i].name.as_str()));
        }
        i = i + 1;
    }
    None
}

/// What was read of the package.
pub struct PackageFiles {
    pub dir: String,
    /// Whether `openclaw.mjs` stands in the directory.
    pub has_entry: bool,
    /// The text of `dist/build-info.json`.
    pub build_info: Option<String>,
    /// The text of `package.json`.
    pub package_info: Option<String>,
}

/// What the package tells of itself.
pub struct Package {
    pub dir: String,
    pub has_entry: bool,
    pub build_info: Option<Json>,
    pub package_info: Option<Json>,
}

/// What a [`Package`] stands for.
pub struct PackageView {
    pub dir: Seq<char>,
    pub has_entry: bool,
    pub build_info: Option<JsonView>,
    pub package_info: Option<JsonView>,
}

impl View for Package {
    type V = PackageView;

    open spec fn view(&self) -> PackageView {
        PackageView {
            dir: self.dir@,
            has_entry: self.has_entry,
            build_info: opt_json_view(self.build_info),
            package_info: opt_json_view(self.package_info),
        }
    }
}

/// The value that an optional text writes.
pub open spec fn parsed_opt(text: Option<String>) -> Option<JsonView> {
    match text {
        Some(t) => parsed_json(t@),
        None => None,
    }
}

/// What the files of the package tell.
pub open spec fn package_of(files: PackageFiles) -> PackageView {
    PackageView {
        dir: files.dir@,
        has_entry: files.has_entry,
        build_info: parsed_opt(files.build_info),
        package_info: parsed_opt(files.package_info),
    }
}

fn parse_opt(text: &Option<String>) -> (r: Option<Json>)
    ensures
        opt_json_view(r) == parsed_opt(*text),
{
    match text {
        Some(t) => parse_json(t.as_str()),
        None => None,
    }
}

/// What the files of the package tell.
pub fn read_package(files: &PackageFiles) -> (r: Package)
    ensures
        r@ == package_of(*files),
{
    Package {
        dir: files.dir.clone(),
        has_entry: files.has_entry,
        build_info: parse_opt(&files.build_info),
        package_info: parse_opt(&files.package_info),
    }
}

// ---------------------------------------------------------------------------
// Versions
// ---------------------------------------------------------------------------

/// The version that the program tells: the second word of what it writes.
pub open spec fn told_version(version: CommandView) -> Option<Seq<char>> {
    let words = fields(value_or(version.stdout, ""@), CharClass::White);
    if words.len() >= 2 {
        Some(normalized(words[1]))
    } else {
        None
    }
}

/// The version that a file of the package tells.
pub open spec fn file_version(info: Option<JsonView>) -> Option<Seq<char>> {
    match text_in(value_at(info, "version"@)) {
        Some(v) => Some(normalized(v)),
        None => None,
    }
}

/// The version that the package tells: that of its build, or else its own.
pub open spec fn package_version(p: PackageView) -> Option<Seq<char>> {
    either(file_version(p.build_info), file_version(p.package_info))
}

/// The number of bytes of a text, at most seven.
pub open spec fn short_len(commit: Seq<char>) -> int {
    if encode_utf8(commit).len() < 7 {
        encode_utf8(commit).len() as int
    } else {
        7
    }
}

/// Whether the first seven bytes of a text end where a character ends.
pub open spec fn can_be_cut(commit: Seq<char>) -> bool {
    is_char_boundary(encode_utf8(commit), short_len(commit))
}

/// The first seven bytes of a text.
pub open spec fn short_commit(commit: Seq<char>) -> Seq<char> {
    decode_utf8(encode_utf8(commit).take(short_len(commit)))
}

fn cut_len(commit: &str) -> (r: usize)
    ensures
        r == short_len(commit@),
{
    let n = commit.as_bytes().len();
    if n < 7 {
        n
    } else {
        7
    }
}

/// Whether the first seven bytes of a text end where a character ends.
pub fn is_cuttable(commit: &str) -> (r: bool)
    ensures
        r == can_be_cut(commit@),
{
    commit.is_char_boundary(cut_len(commit))
}

/// The first seven bytes of a text.
pub fn cut_commit(commit: &str) -> (r: &str)
    requires
        can_be_cut(commit@),
    ensures
        r@ == short_commit(commit@),
{
    let n = cut_len(commit);
    let (head, _tail) = commit.split_at(n);
    proof {
        assert(encode_utf8(commit@).subrange(0, n as int) =~= encode_utf8(commit@).take(n as int));
        encode_utf8_decode_utf8(head@);
    }
    head
}

/// The commit that the build of the package tells, where it is told in full words:
/// the program tells no version, and the package tells one with a commit.
pub open spec fn commit_used(version: CommandView, package: Option<PackageView>) -> Option<Seq<char>> {
    match package {
        Some(p) => if value_or(version.stdout, ""@).len() == 0 && package_version(p) is Some {
            match text_in(value_at(p.build_info, "commit"@)) {
                Some(c) => filled(c),
                None => None,
            }
        } else {
            None
        },
        None => None,
    }
}

/// The version in full words: what the program writes, or else what the package
/// tells.
pub open spec fn full_version(version: CommandView, package: Option<PackageView>) -> Option<
    Seq<char>,
> {
    let told = value_or(version.stdout, ""@);
    if told.len() > 0 {
        Some(told)
    } else {
        match package {
            Some(p) => match package_version(p) {
                Some(v) => match commit_used(version, package) {
                    Some(c) => Some("OpenClaw "@ + v + " ("@ + short_commit(c) + ")"@),
                    None => Some("OpenClaw "@ + v),
                },
                None => None,
            },
            None => None,
        }
    }
}

/// How the program is installed, given what it tells, where it was found, and what
/// its package tells.
pub open spec fn installed(
    hostname: Seq<char>,
    version: CommandView,
    which: CommandView,
    package: Option<PackageView>,
) -> InstallView {
    InstallView {
        hostname,
        openclaw_version: either(
            told_version(version),
            match package {
                Some(p) => package_version(p),
                None => None,
            },
        ),
        version_full: full_version(version, package),
        openclaw_path: either(
            which.stdout,
            match package {
                Some(p) => if p.has_entry {
                    Some(joined_path(p.dir, "openclaw.mjs"@))
                } else {
                    None
                },
                None => None,
            },
        ),
        install_strategy: if package is Some {
            InstallStrategy::NpmGlobal
        } else {
            InstallStrategy::Unknown
        },
        npm_package_dir: match package {
            Some(p) => Some(p.dir),
            None => None,
        },
    }
}

/// What an optional package stands for.
pub open spec fn opt_package(package: Option<&Package>) -> Option<PackageView> {
    match package {
        Some(p) => Some(p@),
        None => None,
    }
}

fn version_in(info: &Option<Json>) -> (r: Option<String>)
    ensures
        opt_text(r) == file_version(opt_json_view(*info)),
{
    let found = match info {
        Some(v) => v.str_at("version"),
        None => None,
    };
    match found {
        Some(v) => Some(normalize_version(v)),
        None => None,
    }
}

fn version_of_package(p: &Package) -> (r: Option<String>)
    ensures
        opt_text(r) == package_version(p@),
{
    match version_in(&p.build_info) {
        Some(v) => Some(v),
        None => version_in(&p.package_info),
    }
}

fn version_told(version: &CommandResult) -> (r: Option<String>)
    ensures
        opt_text(r) == told_version(version@),
{
    let told = match &version.stdout {
        Some(s) => s.as_str(),
        None => "",
    };
    let words = split_fields(told, CharClass::White);
    assert(texts(words@).len() == words@.len());
    if words.len() >= 2 {
        assert(texts(words@)[1] == words@[1]@);
        Some(normalize_version(words[1].as_str()))
    } else {
        None
    }
}

fn commit_in_use<'a>(version: &CommandResult, package: Option<&'a Package>) -> (r: Option<&'a str>)
    ensures
        opt_str_view(r) == commit_used(version@, opt_package(package)),
{
    let silent = match &version.stdout {
        Some(s) => s.as_str().is_empty(),
        None => true,
    };
    proof {
        reveal_strlit("");
    }
    match package {
        Some(p) => {
            let known = version_of_package(p);
            if silent && known.is_some() {
                let commit = match &p.build_info {
                    Some(v) => v.str_at("commit"),
                    None => None,
                };
                match commit {
                    Some(c) => if c.is_empty() {
                        None
                    } else {
                        Some(c)
                    },
                    None => None,
                }
            } else {
                None
            }
        },
        None => None,
    }
}

fn version_in_full(version: &CommandResult, package: Option<&Package>) -> (r: Option<String>)
    requires
        commit_used(version@, opt_package(package)) matches Some(c) ==> can_be_cut(c),
    ensures
        opt_text(r) == full_version(version@, opt_package(package)),
{
    proof {
        reveal_strlit("");
    }
    match &version.stdout {
        Some(s) => if !s.as_str().is_empty() {
            return Some(s.clone());
        },
        None => {},
    }
    match package {
        Some(p) => match version_of_package(p) {
            Some(v) => match commit_in_use(version, package) {
                Some(c) => Some(cat5("OpenClaw ", v.as_str(), " (", cut_commit(c), ")")),
                None => Some(cat("OpenClaw ", v.as_str())),
            },
            None => None,
        },
        None => None,
    }
}

/// How the program is installed. The commit of the build, where it is used, has to
/// be one whose first seven bytes end where a character ends.
pub fn derive_install_info(
    hostname: String,
    version: &CommandResult,
    which: &CommandResult,
    package: Option<&Package>,
) -> (r: InstallInfo)
    requires
        commit_used(version@, opt_package(package)) matches Some(c) ==> can_be_cut(c),
    ensures
        r@ == installed(hostname@, version@, which@, opt_package(package)),
{
    let openclaw_version = match version_told(version) {
        Some(v) => Some(v),
        None => match package {
            Some(p) => version_of_package(p),
            None => None,
        },
    };
    let found = match &which.stdout {
        Some(s) => Some(s.clone()),
        None => match package {
            Some(p) => if p.has_entry {
                Some(join_path(p.dir.as_str(), "openclaw.mjs"))
            } else {
                None
            },
            None => None,
        },
    };
    InstallInfo {
        hostname,
        openclaw_version,
        version_full: version_in_full(version, package),
        openclaw_path: found,
        install_strategy: match package {
            Some(_) => InstallStrategy::NpmGlobal,
            None => InstallStrategy::Unknown,
        },
        npm_package_dir: match package {
            Some(p) => Some(p.dir.clone()),
            None => None,
        },
    }
}

/// What the optional files of the package tell.
pub open spec fn opt_package_of(files: Option<&PackageFiles>) -> Option<PackageView> {
    match files {
        Some(f) => Some(package_of(*f)),
        None => None,
    }
}

/// How the program is installed on this machine, from what the commands wrote and
/// the files of the package hold; nothing where the commit of the build is used and
/// cannot be cut after seven bytes.
pub fn get_openclaw_install_info(
    version: &CommandResult,
    which: &CommandResult,
    files: Option<&PackageFiles>,
) -> (r: Option<InstallInfo>)
    ensures
        match r {
            Some(info) => info@ == installed(
                info.hostname@,
                version@,
                which@,
                opt_package_of(files),
            ),
            None => commit_used(version@, opt_package_of(files)) matches Some(c) && !can_be_cut(c),
        },
        (commit_used(version@, opt_package_of(files)) matches Some(c) ==> can_be_cut(c)) ==> r is Some,
{
    let read = match files {
        Some(f) => Some(read_package(f)),
        None => None,
    };
    let package = match &read {
        Some(p) => Some(p),
        None => None,
    };
    assert(opt_package(package) == opt_package_of(files));
    match commit_in_use(version, package) {
        Some(c) => if !is_cuttable(c) {
            return None;
        },
        None => {},
    }
    Some(derive_install_info(host_name(), version, which, package))
}

// ---------------------------------------------------------------------------
// Laws
// ---------------------------------------------------------------------------

/// The directory of the package is the one of its own name where the package stands in it;
/// otherwise the first of those that the registry moves it to, in the order in which they
/// are listed; and none where it stands in none of them.
pub proof fn law_package_found(
    npm_root: Seq<char>,
    direct: bool,
    entries: Seq<DirEntry>,
    i: int,
)
    ensures
        direct ==> package_dir(npm_root, direct, entries) == Some(
            joined_path(npm_root, "openclaw"@),
        ),
        !direct && 0 <= i < entries.len() && entries[i].has_package && begins_with(
            entries[i].name@,
            ".openclaw-"@,
        ) && (forall|j: int|
            0 <= j < i ==> !((#[trigger] entries[j]).has_package && begins_with(
                entries[j].name@,
                ".openclaw-"@,
            ))) ==> package_dir(npm_root, direct, entries) == Some(
            joined_path(npm_root, entries[i].name@),
        ),
        !direct && (forall|j: int|
            0 <= j < entries.len() ==> !((#[trigger] entries[j]).has_package && begins_with(
                entries[j].name@,
                ".openclaw-"@,
            ))) ==> package_dir(npm_root, direct, entries) is None,
    decreases entries.len(),
{
    if entries.len() > 0 && !holds_package(entries[0]) {
        let rest = entries.drop_first();
        law_package_found(npm_root, direct, rest, i - 1);
        assert forall|j: int| 0 <= j < rest.len() implies #[trigger] rest[j] == entries[j + 1] by {}
        if 0 < i < entries.len() {
            assert(rest[i - 1] == entries[i]);
        }
    }
}

/// The version that is installed is the one that the program tells, its second word, and
/// where it tells none that of the build of the package, or else that of the package
/// itself; the place is the one that the system finds, or else the entry of the package.
/// Only where there is a package it is an installation by the package registry.
pub proof fn law_installation_read(
    hostname: Seq<char>,
    version: CommandView,
    which: CommandView,
    p: PackageView,
    build: JsonView,
    info: JsonView,
    v: Seq<char>,
)
    ensures
        ({
            let r = installed(hostname, version, which, Some(p));
            let bare = installed(hostname, version, which, None);
            let told = version.stdout matches Some(s) && fields(s, CharClass::White).len() >= 2;
            &&& r.hostname == hostname && bare.hostname == hostname
            &&& told ==> r.openclaw_version == Some(
                normalized(fields(version.stdout->0, CharClass::White)[1]),
            ) && bare.openclaw_version == r.openclaw_version
            &&& !told ==> bare.openclaw_version is None
            &&& !told && p.build_info == Some(build) && build.get("version"@) == Some(
                JsonView::Str(v),
            ) ==> r.openclaw_version == Some(normalized(v))
            &&& !told && p.build_info is None && p.package_info == Some(info) && info.get(
                "version"@,
            ) == Some(JsonView::Str(v)) ==> r.openclaw_version == Some(normalized(v))
            &&& !told && p.build_info is None && p.package_info is None
                ==> r.openclaw_version is None
            &&& which.stdout is Some ==> r.openclaw_path == which.stdout && bare.openclaw_path
                == which.stdout
            &&& which.stdout is None && p.has_entry ==> r.openclaw_path == Some(
                joined_path(p.dir, "openclaw.mjs"@),
            )
            &&& which.stdout is None && !p.has_entry ==> r.openclaw_path is None
            &&& which.stdout is None ==> bare.openclaw_path is None
            &&& r.install_strategy is NpmGlobal && r.npm_package_dir == Some(p.dir)
            &&& bare.install_strategy is Unknown && bare.npm_package_dir is None
        }),
{
    reveal_strlit("");
    let none = ""@;
    assert(none =~= Seq::<char>::empty());
    law_fields(none, ' ', none, CharClass::White);
}

/// The version in full words is what the program writes, if anything; otherwise it is made
/// of the version that the package tells, with the beginning of its commit in brackets where
/// the build tells one.
pub proof fn law_full_version(
    version: CommandView,
    p: PackageView,
    build: JsonView,
    v: Seq<char>,
    commit: Seq<char>,
)
    ensures
        version.stdout matches Some(s) ==> s.len() > 0 ==> full_version(version, Some(p)) == Some(s)
            && full_version(version, None) == Some(s),
        version.stdout is None ==> full_version(version, None) is None,
        version.stdout is None && p.build_info == Some(build) && build.get("version"@) == Some(
            JsonView::Str(v),
        ) && build.get("commit"@) == Some(JsonView::Str(commit)) && commit.len() > 0
            ==> full_version(version, Some(p)) == Some(
            "OpenClaw "@ + normalized(v) + " ("@ + short_commit(commit) + ")"@,
        ),
        version.stdout is None && p.build_info == Some(build) && build.get("version"@) == Some(
            JsonView::Str(v),
        ) && build.get("commit"@) is None ==> full_version(version, Some(p)) == Some(
            "OpenClaw "@ + normalized(v),
        ),
{
    reveal_strlit("");
}

/// The report on the installation shows each thing that is known under its own name.
pub proof fn law_installation_reported(r: InstallView)
    ensures
        r.report().get("hostname"@) == Some(JsonView::Str(r.hostname)),
        r.report().get("openclaw_version"@) == Some(text_or_null(r.openclaw_version)),
        r.report().get("openclaw_version_full"@) == Some(text_or_null(r.version_full)),
        r.report().get("openclaw_path"@) == Some(text_or_null(r.openclaw_path)),
        r.report().get("install_strategy"@) == Some(
            JsonView::Str(
                match r.install_strategy {
                    InstallStrategy::NpmGlobal => "npm-global"@,
                    InstallStrategy::Unknown => "unknown"@,
                },
            ),
        ),
        r.report().get("npm_package_dir"@) == Some(text_or_null(r.npm_package_dir)),
{
    let entries = r.report()->Object_0;
    reveal_strlit("hostname");
    assert("hostname"@.len() == 8);
    reveal_strlit("openclaw_version");
    assert("openclaw_version"@.len() == 16);
    reveal_strlit("openclaw_version_full");
    assert("openclaw_version_full"@.len() == 21);
    reveal_strlit("openclaw_path");
    assert("openclaw_path"@.len() == 13);
    reveal_strlit("install_strategy");
    assert("install_strategy"@.len() == 16);
    reveal_strlit("npm_package_dir");
    assert("npm_package_dir"@.len() == 15);
    assert("openclaw_version"@[0] != "install_strategy"@[0]);
    lemma_entry_value(entries, "hostname"@, 0);
    lemma_entry_value(entries, "openclaw_version"@, 1);
    lemma_entry_value(entries, "openclaw_version_full"@, 2);
    lemma_entry_value(entries, "openclaw_path"@, 3);
    lemma_entry_value(entries, "install_strategy"@, 4);
    lemma_entry_value(entries, "npm_package_dir"@, 5);
}

} // verus!
