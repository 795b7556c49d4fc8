//! The latest release of OpenClaw, and whether it is an update.

use vstd::prelude::*;
use vstd::string::*;

use crate::commands::{filled, CommandResult, CommandView};
use crate::install::{InstallInfo, InstallStrategy, InstallView};
use crate::json::{
    bool_or_null, either, first_text, json_opt, json_opt_bool, json_opt_text, json_text,
    lemma_entry_value, opt_owned, opt_ref_view, opt_slice, opt_str_view, opt_text, parse_json,
    parsed_json, text_in, text_or, text_or_null, value_at, value_or, value_or_null, Fields, Json,
    JsonView,
};
use crate::versions::{is_later, is_later_version, normalize_version, normalized, update_known};

verus! {

/// Where the releases are shown.
pub open spec fn release_page() -> Seq<char> {
    "https://github.com/openclaw/openclaw/releases"@
}

/// Where the latest release is asked for.
pub open spec fn release_api() -> Seq<char> {
    "https://api.github.com/repos/openclaw/openclaw/releases/latest"@
}

/// Where the releases are shown.
pub fn release_url() -> (r: &'static str)
    ensures
        r@ == release_page(),
{
    "https://github.com/openclaw/openclaw/releases"
}

/// Where the latest release is asked for.
pub fn api_url() -> (r: &'static str)
    ensures
        r@ == release_api(),
{
    "https://api.github.com/repos/openclaw/openclaw/releases/latest"
}

/// The answer to the question for the latest release.
pub enum ReleaseReply {
    /// The text that came back.
    Body(String),
    /// Something came back that is no text.
    Unreadable,
    /// Nothing came back.
    Failed { error: String },
}

/// What is known of the latest release.
pub struct Release {
    pub current_version: Option<String>,
    pub latest_version: Option<String>,
    pub latest_tag: Option<String>,
    pub latest_name: Json,
    pub published_at: Json,
    pub html_url: String,
    pub prerelease: Json,
    pub draft: Json,
    pub release_update_available: Option<bool>,
    pub install_strategy: InstallStrategy,
    pub package_latest_version: Option<String>,
    pub package_error: Option<String>,
    pub package_update_available: Option<bool>,
    pub install_target_version: Option<String>,
    pub update_available: Option<bool>,
    pub fetched_at: String,
    pub error: Option<String>,
}

/// What a [`Release`] stands for.
pub struct ReleaseView {
    pub current_version: Option<Seq<char>>,
    pub latest_version: Option<Seq<char>>,
    pub latest_tag: Option<Seq<char>>,
    pub latest_name: JsonView,
    pub published_at: JsonView,
    pub html_url: Seq<char>,
    pub prerelease: JsonView,
    pub draft: JsonView,
    pub release_update_available: Option<bool>,
    pub install_strategy: InstallStrategy,
    pub package_latest_version: Option<Seq<char>>,
    pub package_error: Option<Seq<char>>,
    pub package_update_available: Option<bool>,
    pub install_target_version: Option<Seq<char>>,
    pub update_available: Option<bool>,
    pub fetched_at: Seq<char>,
    pub error: Option<Seq<char>>,
}

impl View for Release {
    type V = ReleaseView;

    open spec fn view(&self) -> ReleaseView {
        ReleaseView {
            current_version: opt_text(self.current_version),
            latest_version: opt_text(self.latest_version),
            latest_tag: opt_text(self.latest_tag),
            latest_name: self.latest_name@,
            published_at: self.published_at@,
            html_url: self.html_url@,
            prerelease: self.prerelease@,
            draft: self.draft@,
            release_update_available: self.release_update_available,
            install_strategy: self.install_strategy,
            package_latest_version: opt_text(self.package_latest_version),
            package_error: opt_text(self.package_error),
            package_update_available: self.package_update_available,
            install_target_version: opt_text(self.install_target_version),
            update_available: self.update_available,
            fetched_at: self.fetched_at@,
            error: opt_text(self.error),
        }
    }
}

/// The version that the package registry tells.
pub open spec fn registry_version(npm: CommandView) -> Option<Seq<char>> {
    match npm.stdout {
        Some(s) => filled(normalized(s)),
        None => None,
    }
}

/// The error that the package registry tells.
pub open spec fn registry_error(npm: CommandView) -> Option<Seq<char>> {
    match npm.stderr {
        Some(s) => filled(s),
        None => None,
    }
}

/// The version and the error that the package registry tells.
pub fn npm_package_latest_version(npm: &CommandResult) -> (r: (Option<String>, Option<String>))
    ensures
        opt_text(r.0) == registry_version(npm@),
        opt_text(r.1) == registry_error(npm@),
{
    let version = match &npm.stdout {
        Some(s) => {
            let v = normalize_version(s.as_str());
            if v.as_str().is_empty() {
                None
            } else {
                Some(v)
            }
        },
        None => None,
    };
    let error = match &npm.stderr {
        Some(s) => if s.as_str().is_empty() {
            None
        } else {
            Some(s.clone())
        },
        None => None,
    };
    (version, error)
}

/// Whether the package registry is to be asked.
pub fn asks_registry(install: &InstallInfo) -> (r: bool)
    ensures
        r == (install@.install_strategy is NpmGlobal),
{
    install.install_strategy == InstallStrategy::NpmGlobal
}

/// The version of a release: that of its tag, or else that of its name.
pub open spec fn release_version(payload: Option<JsonView>) -> Option<Seq<char>> {
    match either(text_in(value_at(payload, "tag_name"@)), text_in(value_at(payload, "name"@))) {
        Some(v) => Some(normalized(v)),
        None => None,
    }
}

/// What is known of the latest release, given how the program is installed, what the
/// registry tells where it is asked, and the value that came back, or the error. An
/// installation by the package registry is updated to what the registry has, any
/// other to the release.
pub open spec fn release_of(
    install: InstallView,
    npm: Option<CommandView>,
    payload: Option<JsonView>,
    error: Option<Seq<char>>,
    fetched_at: Seq<char>,
) -> ReleaseView {
    let by_npm = install.install_strategy is NpmGlobal;
    let current = install.openclaw_version;
    let released = release_version(payload);
    let packaged = if by_npm && npm is Some {
        registry_version(npm->0)
    } else {
        None
    };
    ReleaseView {
        current_version: current,
        latest_version: released,
        latest_tag: text_in(value_at(payload, "tag_name"@)),
        latest_name: value_or_null(value_at(payload, "name"@)),
        published_at: value_or_null(value_at(payload, "published_at"@)),
        html_url: value_or(text_in(value_at(payload, "html_url"@)), release_page()),
        prerelease: value_or_null(value_at(payload, "prerelease"@)),
        draft: value_or_null(value_at(payload, "draft"@)),
        release_update_available: update_known(released, current),
        install_strategy: install.install_strategy,
        package_latest_version: packaged,
        package_error: if by_npm && npm is Some {
            registry_error(npm->0)
        } else {
            None
        },
        package_update_available: update_known(packaged, current),
        install_target_version: if by_npm {
            packaged
        } else {
            released
        },
        update_available: if by_npm {
            update_known(packaged, current)
        } else {
            update_known(released, current)
        },
        fetched_at,
        error,
    }
}

/// What an optional result of a command stands for.
pub open spec fn opt_command(c: Option<&CommandResult>) -> Option<CommandView> {
    match c {
        Some(c) => Some(c@),
        None => None,
    }
}

fn copy_text(o: &Option<String>) -> (r: Option<String>)
    ensures
        opt_text(r) == opt_text(*o),
{
    opt_owned(opt_slice(o))
}

fn known_update(candidate: &Option<String>, current: &Option<String>) -> (r: Option<bool>)
    ensures
        r == update_known(opt_text(*candidate), opt_text(*current)),
{
    match (current, candidate) {
        (Some(c), Some(n)) => Some(is_later_version(n.as_str(), c.as_str())),
        _ => None,
    }
}

/// What is known of the latest release, given the value that came back, or the
/// error.
pub fn derive_release(
    install: &InstallInfo,
    npm: Option<&CommandResult>,
    payload: Option<&Json>,
    error: Option<&str>,
    fetched_at: &str,
) -> (r: Release)
    ensures
        r@ == release_of(
            install@,
            opt_command(npm),
            opt_ref_view(payload),
            opt_str_view(error),
            fetched_at@,
        ),
{
    let by_npm = asks_registry(install);
    let (packaged, package_error) = if by_npm {
        match npm {
            Some(c) => npm_package_latest_version(c),
            None => (None, None),
        }
    } else {
        (None, None)
    };
    let (tag, name, html, latest_name, published_at, prerelease, draft) = match payload {
        Some(v) => (
            v.str_at("tag_name"),
            v.str_at("name"),
            v.str_at("html_url"),
            json_opt(v.get("name")),
            json_opt(v.get("published_at")),
            json_opt(v.get("prerelease")),
            json_opt(v.get("draft")),
        ),
        None => (None, None, None, Json::Null, Json::Null, Json::Null, Json::Null),
    };
    let released = match first_text(tag, name) {
        Some(v) => Some(normalize_version(v)),
        None => None,
    };
    let current = copy_text(&install.openclaw_version);
    let release_update = known_update(&released, &current);
    let package_update = known_update(&packaged, &current);
    let (target, update) = if by_npm {
        (copy_text(&packaged), package_update)
    } else {
        (copy_text(&released), release_update)
    };
    Release {
        current_version: current,
        latest_version: released,
        latest_tag: opt_owned(tag),
        latest_name,
        published_at,
        html_url: text_or(html, release_url()).to_owned(),
        prerelease,
        draft,
        release_update_available: release_update,
        install_strategy: install.install_strategy,
        package_latest_version: packaged,
        package_error,
        package_update_available: package_update,
        install_target_version: target,
        update_available: update,
        fetched_at: fetched_at.to_owned(),
        error: opt_owned(error),
    }
}

/// The value that came back, if one did.
pub open spec fn reply_value(reply: ReleaseReply) -> Option<JsonView> {
    match reply {
        ReleaseReply::Body(text) => parsed_json(text@),
        _ => None,
    }
}

/// The error, where nothing came back.
pub open spec fn reply_error(reply: ReleaseReply) -> Option<Seq<char>> {
    match reply {
        ReleaseReply::Failed { error } => Some(error@),
        _ => None,
    }
}

/// What is known of the latest release, given what came back.
pub fn get_openclaw_latest_release(
    install: &InstallInfo,
    npm: Option<&CommandResult>,
    reply: &ReleaseReply,
    fetched_at: &str,
) -> (r: Release)
    ensures
        r@ == release_of(
            install@,
            opt_command(npm),
            reply_value(*reply),
            reply_error(*reply),
            fetched_at@,
        ),
{
    match reply {
        ReleaseReply::Body(text) => match parse_json(text.as_str()) {
            Some(v) => derive_release(install, npm, Some(&v), None, fetched_at),
            None => derive_release(install, npm, None, None, fetched_at),
        },
        ReleaseReply::Unreadable => derive_release(install, npm, None, None, fetched_at),
        ReleaseReply::Failed { error } => derive_release(
            install,
            npm,
            None,
            Some(error.as_str()),
            fetched_at,
        ),
    }
}

impl ReleaseView {
    /// The name of the package, where the registry is asked.
    pub open spec fn package_name(self) -> JsonView {
        if self.install_strategy is NpmGlobal {
            JsonView::Str("openclaw"@)
        } else {
            JsonView::Null
        }
    }

    /// Where an update would come from.
    pub open spec fn target_source(self) -> Seq<char> {
        if self.install_strategy is NpmGlobal {
            "npm-dist-tag"@
        } else {
            "github-release"@
        }
    }

    /// The report on the latest release.
    pub open spec fn report(self) -> JsonView {
        JsonView::Object(
            seq![
                ("source"@, JsonView::Str("github-releases"@)),
                ("repo"@, JsonView::Str("openclaw/openclaw"@)),
                ("release_url"@, JsonView::Str(release_page())),
                ("api_url"@, JsonView::Str(release_api())),
                ("current_version"@, text_or_null(self.current_version)),
                ("latest_version"@, text_or_null(self.latest_version)),
                ("latest_tag"@, text_or_null(self.latest_tag)),
                ("latest_name"@, self.latest_name),
                ("published_at"@, self.published_at),
                ("html_url"@, JsonView::Str(self.html_url)),
                ("prerelease"@, self.prerelease),
                ("draft"@, self.draft),
                ("release_update_available"@, bool_or_null(self.release_update_available)),
                ("package_name"@, self.package_name()),
                ("package_latest_version"@, text_or_null(self.package_latest_version)),
                ("package_error"@, text_or_null(self.package_error)),
                ("package_update_available"@, bool_or_null(self.package_update_available)),
                ("install_target_version"@, text_or_null(self.install_target_version)),
                ("install_target_source"@, JsonView::Str(self.target_source())),
                ("update_available"@, bool_or_null(self.update_available)),
                ("fetched_at"@, JsonView::Str(self.fetched_at)),
                ("error"@, text_or_null(self.error)),
            ],
        )
    }
}

impl Release {
    /// The report on the latest release.
    pub fn to_json(&self) -> (r: Json)
        ensures
            r@ == self@.report(),
    {
        let by_npm = self.install_strategy == InstallStrategy::NpmGlobal;
        let package = if by_npm {
            json_text("openclaw")
        } else {
            Json::Null
        };
        let source = if by_npm {
            "npm-dist-tag"
        } else {
            "github-release"
        };
        let mut f = Fields::new();
        f.put("source", json_text("github-releases"));
        f.put("repo", json_text("openclaw/openclaw"));
        f.put("release_url", json_text(release_url()));
        f.put("api_url", json_text(api_url()));
        f.put("current_version", json_opt_text(opt_slice(&self.current_version)));
        f.put("latest_version", json_opt_text(opt_slice(&self.latest_version)));
        f.put("latest_tag", json_opt_text(opt_slice(&self.latest_tag)));
        f.put("latest_name", self.latest_name.copy());
        f.put("published_at", self.published_at.copy());
        f.put("html_url", json_text(self.html_url.as_str()));
        f.put("prerelease", self.prerelease.copy());
        f.put("draft", self.draft.copy());
        f.put("release_update_available", json_opt_bool(self.release_update_available));
        f.put("package_name", package);
        f.put("package_latest_version", json_opt_text(opt_slice(&self.package_latest_version)));
        f.put("package_error", json_opt_text(opt_slice(&self.package_error)));
        f.put("package_update_available", json_opt_bool(self.package_update_available));
        f.put("install_target_version", json_opt_text(opt_slice(&self.install_target_version)));
        f.put("install_target_source", json_text(source));
        f.put("update_available", json_opt_bool(self.update_available));
        f.put("fetched_at", json_text(self.fetched_at.as_str()));
        f.put("error", json_opt_text(opt_slice(&self.error)));
        assert(f@ == self@.report()->Object_0);
        f.object()
    }
}

/// An installation by the package registry is only ever updated to what the registry
/// has, and any other only to what was released; and an update is only told of where
/// the target is known and is later than the current version.
pub proof fn law_update_target(
    install: InstallView,
    npm: Option<CommandView>,
    payload: Option<JsonView>,
    error: Option<Seq<char>>,
    fetched_at: Seq<char>,
)
    ensures
        ({
            let r = release_of(install, npm, payload, error, fetched_at);
            &&& install.install_strategy is NpmGlobal ==> r.install_target_version
                == r.package_latest_version
            &&& !(install.install_strategy is NpmGlobal) ==> r.install_target_version
                == r.latest_version
            &&& r.update_available == update_known(r.install_target_version, r.current_version)
        }),
{
}

/// What is known of the latest release. Its version is that of its tag, or of its name where
/// it has no tag; the version to install is that of the package registry for what is
/// installed from there, whatever was released, and otherwise the released one; and there
/// is an update where the version to install is later than the installed one.
pub proof fn law_release_read(
    install: InstallView,
    npm: CommandView,
    payload: JsonView,
    error: Option<Seq<char>>,
    fetched_at: Seq<char>,
    tag: Seq<char>,
)
    ensures
        ({
            let r = release_of(install, Some(npm), Some(payload), error, fetched_at);
            let by_npm = install.install_strategy is NpmGlobal;
            &&& payload.get("tag_name"@) == Some(JsonView::Str(tag)) ==> r.latest_tag == Some(tag)
                && r.latest_version == Some(normalized(tag))
            &&& payload.get("tag_name"@) is None && payload.get("name"@) == Some(JsonView::Str(tag))
                ==> r.latest_tag is None && r.latest_version == Some(normalized(tag))
            &&& payload.get("tag_name"@) is None && payload.get("name"@) is None
                ==> r.latest_version is None
            &&& r.current_version == install.openclaw_version
            &&& r.error == error
            &&& r.fetched_at == fetched_at
            &&& payload.get("html_url"@) == Some(JsonView::Str(tag)) ==> r.html_url == tag
            &&& payload.get("html_url"@) is None ==> r.html_url
                == "https://github.com/openclaw/openclaw/releases"@
            &&& r.latest_name == value_or_null(payload.get("name"@))
            &&& r.published_at == value_or_null(payload.get("published_at"@))
            &&& r.prerelease == value_or_null(payload.get("prerelease"@))
            &&& r.draft == value_or_null(payload.get("draft"@))
            &&& by_npm ==> {
                &&& r.install_target_version == r.package_latest_version
                &&& npm.stdout matches Some(s) ==> r.package_latest_version == if normalized(
                    s,
                ).len() == 0 {
                    None
                } else {
                    Some(normalized(s))
                }
                &&& npm.stdout is None ==> r.package_latest_version is None
                &&& npm.stderr matches Some(e) ==> r.package_error == if e.len() == 0 {
                    None
                } else {
                    Some(e)
                }
            }
            &&& !by_npm ==> {
                &&& r.install_target_version == r.latest_version
                &&& r.package_latest_version is None
                &&& r.package_error is None
                &&& r.package_update_available is None
            }
            &&& r.update_available is Some <==> r.install_target_version is Some
                && r.current_version is Some
            &&& r.update_available is Some ==> r.update_available == Some(
                is_later(r.install_target_version->0, r.current_version->0),
            )
            &&& r.release_update_available is Some ==> r.release_update_available == Some(
                is_later(r.latest_version->0, r.current_version->0),
            )
            &&& r.package_update_available is Some ==> r.package_update_available == Some(
                is_later(r.package_latest_version->0, r.current_version->0),
            )
            &&& r.release_update_available is Some <==> r.latest_version is Some
                && r.current_version is Some
        }),
{
}

/// The report on the latest release shows each thing that is known under its own name, and
/// says where the version to install comes from.
pub proof fn law_release_reported(r: ReleaseView)
    ensures
        ({
            let told = r.report();
            let by_npm = r.install_strategy is NpmGlobal;
            &&& told.get("source"@) == Some(JsonView::Str("github-releases"@))
            &&& told.get("repo"@) == Some(JsonView::Str("openclaw/openclaw"@))
            &&& told.get("release_url"@) == Some(
                JsonView::Str("https://github.com/openclaw/openclaw/releases"@),
            )
            &&& told.get("api_url"@) == Some(
                JsonView::Str("https://api.github.com/repos/openclaw/openclaw/releases/latest"@),
            )
            &&& told.get("current_version"@) == Some(text_or_null(r.current_version))
            &&& told.get("latest_version"@) == Some(text_or_null(r.latest_version))
            &&& told.get("latest_tag"@) == Some(text_or_null(r.latest_tag))
            &&& told.get("latest_name"@) == Some(r.latest_name)
            &&& told.get("published_at"@) == Some(r.published_at)
            &&& told.get("html_url"@) == Some(JsonView::Str(r.html_url))
            &&& told.get("prerelease"@) == Some(r.prerelease)
            &&& told.get("draft"@) == Some(r.draft)
            &&& told.get("release_update_available"@) == Some(
                bool_or_null(r.release_update_available),
            )
            &&& told.get("package_latest_version"@) == Some(text_or_null(r.package_latest_version))
            &&& told.get("package_error"@) == Some(text_or_null(r.package_error))
            &&& told.get("package_update_available"@) == Some(
                bool_or_null(r.package_update_available),
            )
            &&& told.get("install_target_version"@) == Some(text_or_null(r.install_target_version))
            &&& told.get("update_available"@) == Some(bool_or_null(r.update_available))
            &&& told.get("fetched_at"@) == Some(JsonView::Str(r.fetched_at))
            &&& told.get("error"@) == Some(text_or_null(r.error))
            &&& told.get("package_name"@) == Some(
                if by_npm {
                    JsonView::Str("openclaw"@)
                } else {
                    JsonView::Null
                },
            )
            &&& told.get("install_target_source"@) == Some(
                JsonView::Str(
                    if by_npm {
                        "npm-dist-tag"@
                    } else {
                        "github-release"@
                    },
                ),
            )
        }),
{
    let entries = r.report()->Object_0;
    reveal_strlit("source");
    assert("source"@.len() == 6);
    reveal_strlit("repo");
    assert("repo"@.len() == 4);
    reveal_strlit("release_url");
    assert("release_url"@.len() == 11);
    reveal_strlit("api_url");
    assert("api_url"@.len() == 7);
    reveal_strlit("current_version");
    assert("current_version"@.len() == 15);
    reveal_strlit("latest_version");
    assert("latest_version"@.len() == 14);
    reveal_strlit("latest_tag");
    assert("latest_tag"@.len() == 10);
    reveal_strlit("latest_name");
    assert("latest_name"@.len() == 11);
    reveal_strlit("published_at");
    assert("published_at"@.len() == 12);
    reveal_strlit("html_url");
    assert("html_url"@.len() == 8);
    reveal_strlit("prerelease");
    assert("prerelease"@.len() == 10);
    reveal_strlit("draft");
    assert("draft"@.len() == 5);
    reveal_strlit("release_update_available");
    assert("release_update_available"@.len() == 24);
    reveal_strlit("package_name");
    assert("package_name"@.len() == 12);
    reveal_strlit("package_latest_version");
    assert("package_latest_version"@.len() == 22);
    reveal_strlit("package_error");
    assert("package_error"@.len() == 13);
    reveal_strlit("package_update_available");
    assert("package_update_available"@.len() == 24);
    reveal_strlit("install_target_version");
    assert("install_target_version"@.len() == 22);
    reveal_strlit("install_target_source");
    assert("install_target_source"@.len() == 21);
    reveal_strlit("update_available");
    assert("update_available"@.len() == 16);
    reveal_strlit("fetched_at");
    assert("fetched_at"@.len() == 10);
    reveal_strlit("error");
    assert("error"@.len() == 5);
    assert("release_url"@[0] != "latest_name"@[0]);
    assert("latest_tag"@[0] != "prerelease"@[0]);
    assert("published_at"@[1] != "package_name"@[1]);
    assert("release_update_available"@[0] != "package_update_available"@[0]);
    assert("package_latest_version"@[0] != "install_target_version"@[0]);
    assert("latest_tag"@[0] != "fetched_at"@[0]);
    assert("prerelease"@[0] != "fetched_at"@[0]);
    assert("draft"@[0] != "error"@[0]);
    lemma_entry_value(entries, "source"@, 0);
    lemma_entry_value(entries, "repo"@, 1);
    lemma_entry_value(entries, "release_url"@, 2);
    lemma_entry_value(entries, "api_url"@, 3);
    lemma_entry_value(entries, "current_version"@, 4);
    lemma_entry_value(entries, "latest_version"@, 5);
    lemma_entry_value(entries, "latest_tag"@, 6);
    lemma_entry_value(entries, "latest_name"@, 7);
    lemma_entry_value(entries, "published_at"@, 8);
    lemma_entry_value(entries, "html_url"@, 9);
    lemma_entry_value(entries, "prerelease"@, 10);
    lemma_entry_value(entries, "draft"@, 11);
    lemma_entry_value(entries, "release_update_available"@, 12);
    lemma_entry_value(entries, "package_name"@, 13);
    lemma_entry_value(entries, "package_latest_version"@, 14);
    lemma_entry_value(entries, "package_error"@, 15);
    lemma_entry_value(entries, "package_update_available"@, 16);
    lemma_entry_value(entries, "install_target_version"@, 17);
    lemma_entry_value(entries, "install_target_source"@, 18);
    lemma_entry_value(entries, "update_available"@, 19);
    lemma_entry_value(entries, "fetched_at"@, 20);
    lemma_entry_value(entries, "error"@, 21);
}

/// The registry is asked exactly for what was installed from it; and what came back is read
/// as JSON, and counts as an error only where nothing came back.
pub proof fn law_registry_asked(install: &InstallInfo, r: bool, reply: ReleaseReply)
    requires
        call_ensures(asks_registry, (install,), r),
    ensures
        r <==> install.install_strategy is NpmGlobal,
        reply_error(reply) is Some <==> reply is Failed,
        reply matches ReleaseReply::Failed { error } ==> reply_error(reply) == Some(error@)
            && reply_value(reply) is None,
        reply matches ReleaseReply::Body(text) ==> reply_value(reply) == parsed_json(text@),
        reply is Unreadable ==> reply_value(reply) is None,
{
}

} // verus!
