//! Upgrades of OpenClaw.

use vstd::prelude::*;
use vstd::string::*;

use crate::commands::{CommandResult, CommandView};
use crate::event_log::{agent_event, EventRecord, EventView};
use crate::install::{InstallInfo, InstallStrategy, InstallView};
use crate::json::{
    either, first_text, json_array, json_opt, json_opt_text, json_text, json_views,
    lemma_entry_value, opt_owned, opt_slice, opt_str_view, opt_text, text_or, text_or_null,
    value_or, value_or_null, Fields, Json, JsonView,
};
use crate::release::{Release, ReleaseView};
use crate::text::{cat, cat3, same, texts};

verus! {

// ---------------------------------------------------------------------------
// Commands
// ---------------------------------------------------------------------------

/// The package to install for a target version.
pub open spec fn package_spec(target: Seq<char>) -> Seq<char> {
    if target.len() == 0 || target == "latest"@ {
        "openclaw@latest"@
    } else {
        "openclaw@"@ + target
    }
}

/// The target version as it is reported.
pub open spec fn target_name(target: Seq<char>) -> Seq<char> {
    if target.len() == 0 {
        "latest"@
    } else {
        target
    }
}

fn package_for(target: &str) -> (r: String)
    ensures
        r@ == package_spec(target@),
{
    if target.is_empty() || same(target, "latest") {
        "openclaw@latest".to_owned()
    } else {
        cat("openclaw@", target)
    }
}

/// The command that installs a package.
pub open spec fn install_command(package: Seq<char>) -> Seq<Seq<char>> {
    seq!["npm"@, "install"@, "-g"@, package]
}

fn command_for(package: &str) -> (r: Vec<String>)
    ensures
        texts(r@) == install_command(package@),
{
    let mut cmd: Vec<String> = Vec::new();
    cmd.push("npm".to_owned());
    cmd.push("install".to_owned());
    cmd.push("-g".to_owned());
    cmd.push(package.to_owned());
    assert(texts(cmd@) =~= install_command(package@));
    cmd
}

// ---------------------------------------------------------------------------
// The run of an upgrade
// ---------------------------------------------------------------------------

/// What is asked of an upgrade.
pub struct UpgradePlan {
    pub target: String,
    pub previous: Option<String>,
    pub create_backup: bool,
    pub rollback_on_failure: bool,
}

/// The refusal of an installation that cannot be upgraded.
pub open spec fn unsupported(strategy: InstallStrategy) -> Seq<char> {
    "Unsupported install strategy: "@ + strategy.word()
        + ". Only npm-global upgrades are supported right now."@
}

/// Whether `plan` asks for the given upgrade.
pub open spec fn is_plan(
    plan: UpgradePlan,
    install: InstallView,
    target: Seq<char>,
    create_backup: bool,
    rollback_on_failure: bool,
) -> bool {
    &&& plan.target@ == target
    &&& opt_text(plan.previous) == install.openclaw_version
    &&& plan.create_backup == create_backup
    &&& plan.rollback_on_failure == rollback_on_failure
}

/// Plans an upgrade; refuses an installation that is not one of the package registry.
pub fn plan_upgrade(
    install: &InstallInfo,
    target: &str,
    create_backup: bool,
    rollback_on_failure: bool,
) -> (r: Result<UpgradePlan, String>)
    ensures
        match r {
            Ok(plan) => install@.install_strategy is NpmGlobal && is_plan(
                plan,
                install@,
                target@,
                create_backup,
                rollback_on_failure,
            ),
            Err(message) => !(install@.install_strategy is NpmGlobal) && message@ == unsupported(
                install@.install_strategy,
            ),
        },
{
    if install.install_strategy != InstallStrategy::NpmGlobal {
        return Err(
            cat3(
                "Unsupported install strategy: ",
                install.install_strategy.as_str(),
                ". Only npm-global upgrades are supported right now.",
            ),
        );
    }
    Ok(
        UpgradePlan {
            target: target.to_owned(),
            previous: opt_owned(opt_slice(&install.openclaw_version)),
            create_backup,
            rollback_on_failure,
        },
    )
}

/// What is to be done next in an upgrade.
pub enum UpgradeStep {
    /// Make a backup with this label.
    Backup { label: String },
    /// Run this command.
    Run { command: Vec<String> },
    /// Restart all instances.
    Restart,
    /// Wait for all instances to be up, and tell whether they are.
    AwaitHealth,
    /// Tell how the program is installed now.
    Inspect,
    /// Nothing.
    Finish,
}

/// The stages of an upgrade.
#[derive(Debug, Clone, Copy, PartialEq, Eq, Structural)]
pub enum UpgradeStage {
    Backup,
    Install,
    Restart,
    AwaitHealth,
    Inspect,
    RollbackInstall,
    RollbackRestart,
    RollbackHealth,
    Finished,
}

/// What came of a step.
pub enum UpgradeEvent {
    /// The metadata of the backup that was made.
    BackedUp(Json),
    /// The result of the command that was run.
    Ran(CommandResult),
    /// The reports on the restarts.
    Restarted(Vec<Json>),
    /// Whether all instances are up.
    Health(bool),
    /// The version that is installed now.
    Inspected(Option<String>),
}

/// An upgrade on its way.
pub struct Upgrade {
    pub plan: UpgradePlan,
    pub stage: UpgradeStage,
    pub backup: Json,
    pub install: CommandResult,
    pub restarts: Vec<Json>,
    pub health_ok: bool,
    pub current_version: Option<String>,
    pub rollback_install: CommandResult,
    pub rollback_restarts: Vec<Json>,
    pub rollback_health: bool,
    /// Whether the previous version was installed again.
    pub rolled_back: bool,
}

/// What an [`Upgrade`] stands for.
pub struct UpgradeView {
    pub target: Seq<char>,
    pub previous: Option<Seq<char>>,
    pub create_backup: bool,
    pub rollback_on_failure: bool,
    pub stage: UpgradeStage,
    pub backup: JsonView,
    pub install: CommandView,
    pub restarts: Seq<JsonView>,
    pub health_ok: bool,
    pub current_version: Option<Seq<char>>,
    pub rollback_install: CommandView,
    pub rollback_restarts: Seq<JsonView>,
    pub rollback_health: bool,
    pub rolled_back: bool,
}

impl View for Upgrade {
    type V = UpgradeView;

    open spec fn view(&self) -> UpgradeView {
        UpgradeView {
            target: self.plan.target@,
            previous: opt_text(self.plan.previous),
            create_backup: self.plan.create_backup,
            rollback_on_failure: self.plan.rollback_on_failure,
            stage: self.stage,
            backup: self.backup@,
            install: self.install@,
            restarts: json_views(self.restarts@),
            health_ok: self.health_ok,
            current_version: opt_text(self.current_version),
            rollback_install: self.rollback_install@,
            rollback_restarts: json_views(self.rollback_restarts@),
            rollback_health: self.rollback_health,
            rolled_back: self.rolled_back,
        }
    }
}

/// The result of a command that has not been run.
pub open spec fn not_run() -> CommandView {
    CommandView { success: false, returncode: None, stdout: None, stderr: None }
}

/// An upgrade at its beginning.
pub open spec fn begun(plan: UpgradePlan) -> UpgradeView {
    UpgradeView {
        target: plan.target@,
        previous: opt_text(plan.previous),
        create_backup: plan.create_backup,
        rollback_on_failure: plan.rollback_on_failure,
        stage: if plan.create_backup {
            UpgradeStage::Backup
        } else {
            UpgradeStage::Install
        },
        backup: JsonView::Null,
        install: not_run(),
        restarts: Seq::empty(),
        health_ok: false,
        current_version: None,
        rollback_install: not_run(),
        rollback_restarts: Seq::empty(),
        rollback_health: false,
        rolled_back: false,
    }
}

/// The label of the backup before an upgrade.
pub open spec fn backup_label(u: UpgradeView) -> Seq<char> {
    "pre-upgrade-"@ + value_or(u.previous, "unknown"@)
}

/// Whether `step` is what is to be done next.
pub open spec fn is_next_step(u: UpgradeView, step: UpgradeStep) -> bool {
    match u.stage {
        UpgradeStage::Backup => step matches UpgradeStep::Backup { label } && label@
            == backup_label(u),
        UpgradeStage::Install => step matches UpgradeStep::Run { command } && texts(command@)
            == install_command(package_spec(u.target)),
        UpgradeStage::Restart => step is Restart,
        UpgradeStage::AwaitHealth => step is AwaitHealth,
        UpgradeStage::Inspect => step is Inspect,
        UpgradeStage::RollbackInstall => step matches UpgradeStep::Run { command } && texts(
            command@,
        ) == install_command("openclaw@"@ + value_or(u.previous, ""@)),
        UpgradeStage::RollbackRestart => step is Restart,
        UpgradeStage::RollbackHealth => step is AwaitHealth,
        UpgradeStage::Finished => step is Finish,
    }
}

/// Whether the previous version is to be installed again.
pub open spec fn wants_rollback(u: UpgradeView) -> bool {
    !u.health_ok && u.rollback_on_failure && u.previous is Some
}

/// Why an upgrade is given up: what the command that failed wrote.
pub open spec fn install_error(result: CommandView) -> Seq<char> {
    value_or(either(result.stderr, result.stdout), "Upgrade command failed"@)
}

/// Where an upgrade stands after what came of a step; the other kinds of event at
/// that stage leave it as it is. An installation that failed ends it.
pub open spec fn after_event(u: UpgradeView, event: UpgradeEvent) -> Result<
    UpgradeView,
    Seq<char>,
> {
    match (u.stage, event) {
        (UpgradeStage::Backup, UpgradeEvent::BackedUp(meta)) => Ok(
            UpgradeView { backup: meta@, stage: UpgradeStage::Install, ..u },
        ),
        (UpgradeStage::Install, UpgradeEvent::Ran(result)) => if result@.success {
            Ok(UpgradeView { install: result@, stage: UpgradeStage::Restart, ..u })
        } else {
            Err(install_error(result@))
        },
        (UpgradeStage::Restart, UpgradeEvent::Restarted(reports)) => Ok(
            UpgradeView {
                restarts: json_views(reports@),
                stage: UpgradeStage::AwaitHealth,
                ..u
            },
        ),
        (UpgradeStage::AwaitHealth, UpgradeEvent::Health(ok)) => Ok(
            UpgradeView { health_ok: ok, stage: UpgradeStage::Inspect, ..u },
        ),
        (UpgradeStage::Inspect, UpgradeEvent::Inspected(version)) => Ok(
            UpgradeView {
                current_version: opt_text(version),
                stage: if wants_rollback(u) {
                    UpgradeStage::RollbackInstall
                } else {
                    UpgradeStage::Finished
                },
                ..u
            },
        ),
        (UpgradeStage::RollbackInstall, UpgradeEvent::Ran(result)) => Ok(
            UpgradeView {
                rollback_install: result@,
                rolled_back: true,
                stage: UpgradeStage::RollbackRestart,
                ..u
            },
        ),
        (UpgradeStage::RollbackRestart, UpgradeEvent::Restarted(reports)) => Ok(
            UpgradeView {
                rollback_restarts: json_views(reports@),
                stage: UpgradeStage::RollbackHealth,
                ..u
            },
        ),
        (UpgradeStage::RollbackHealth, UpgradeEvent::Health(ok)) => Ok(
            UpgradeView { rollback_health: ok, stage: UpgradeStage::Finished, ..u },
        ),
        _ => Ok(u),
    }
}

/// The report on the return to the previous version, or null where there was none.
pub open spec fn rollback_report(u: UpgradeView) -> JsonView {
    if u.rolled_back {
        JsonView::Object(
            seq![
                ("install"@, u.rollback_install.report()),
                ("restart_results"@, JsonView::Array(u.rollback_restarts)),
                ("health_ok"@, JsonView::Bool(u.rollback_health)),
                ("backup_id"@, value_or_null(u.backup.get("backup_id"@))),
            ],
        )
    } else {
        JsonView::Null
    }
}

/// The report on an upgrade.
pub open spec fn upgrade_report(u: UpgradeView) -> JsonView {
    JsonView::Object(
        seq![
            ("target_version"@, JsonView::Str(target_name(u.target))),
            ("previous_version"@, text_or_null(u.previous)),
            ("current_version"@, text_or_null(u.current_version)),
            ("backup"@, u.backup),
            ("install_result"@, u.install.report()),
            ("restart_results"@, JsonView::Array(u.restarts)),
            ("health_ok"@, JsonView::Bool(u.health_ok)),
            ("rollback_result"@, rollback_report(u)),
        ],
    )
}

/// The entry in the event log on an upgrade.
pub open spec fn upgrade_event(u: UpgradeView) -> EventView {
    agent_event(
        if u.health_ok {
            "upgrade_success"@
        } else {
            "upgrade_failed"@
        },
        "OpenClaw upgrade target="@ + target_name(u.target) + " current="@ + value_or(
            u.current_version,
            ""@,
        ),
    )
}

fn copy_reports(items: &Vec<Json>) -> (r: Vec<Json>)
    ensures
        json_views(r@) == json_views(items@),
{
    let mut out: Vec<Json> = Vec::new();
    let mut i: usize = 0;
    while i < items.len()
        invariant
            i <= items@.len(),
            out@.len() == i,
            forall|k: int| 0 <= k < i ==> (#[trigger] out@[k])@ == items@[k]@,
        decreases items@.len() - i,
    {
        out.push(items[i].copy());
        i = i + 1;
    }
    assert(json_views(out@) =~= json_views(items@));
    out
}

impl Upgrade {
    /// An upgrade at its beginning.
    pub fn begin(plan: UpgradePlan) -> (r: Upgrade)
        ensures
            r@ == begun(plan),
    {
        let stage = if plan.create_backup {
            UpgradeStage::Backup
        } else {
            UpgradeStage::Install
        };
        let r = Upgrade {
            plan,
            stage,
            backup: Json::Null,
            install: CommandResult {
                success: false,
                returncode: None,
                stdout: None,
                stderr: None,
            },
            restarts: Vec::new(),
            health_ok: false,
            current_version: None,
            rollback_install: CommandResult {
                success: false,
                returncode: None,
                stdout: None,
                stderr: None,
            },
            rollback_restarts: Vec::new(),
            rollback_health: false,
            rolled_back: false,
        };
        assert(json_views(r.restarts@) =~= Seq::<JsonView>::empty());
        assert(json_views(r.rollback_restarts@) =~= Seq::<JsonView>::empty());
        r
    }

    /// What is to be done next.
    pub fn next_step(&self) -> (r: UpgradeStep)
        ensures
            is_next_step(self@, r),
    {
        match self.stage {
            UpgradeStage::Backup => UpgradeStep::Backup {
                label: cat("pre-upgrade-", text_or(opt_slice(&self.plan.previous), "unknown")),
            },
            UpgradeStage::Install => UpgradeStep::Run {
                command: command_for(package_for(self.plan.target.as_str()).as_str()),
            },
            UpgradeStage::Restart => UpgradeStep::Restart,
            UpgradeStage::AwaitHealth => UpgradeStep::AwaitHealth,
            UpgradeStage::Inspect => UpgradeStep::Inspect,
            UpgradeStage::RollbackInstall => UpgradeStep::Run {
                command: command_for(
                    cat("openclaw@", text_or(opt_slice(&self.plan.previous), "")).as_str(),
                ),
            },
            UpgradeStage::RollbackRestart => UpgradeStep::Restart,
            UpgradeStage::RollbackHealth => UpgradeStep::AwaitHealth,
            UpgradeStage::Finished => UpgradeStep::Finish,
        }
    }

    /// Takes in what came of a step; an error ends the upgrade, and leaves it as it
    /// is.
    pub fn advance(&mut self, event: UpgradeEvent) -> (r: Result<(), String>)
        ensures
            match after_event(old(self)@, event) {
                Ok(after) => r is Ok && final(self)@ == after,
                Err(message) => r matches Err(m) && m@ == message && final(self)@ == old(self)@,
            },
    {
        match (self.stage, event) {
            (UpgradeStage::Backup, UpgradeEvent::BackedUp(meta)) => {
                self.backup = meta;
                self.stage = UpgradeStage::Install;
            },
            (UpgradeStage::Install, UpgradeEvent::Ran(result)) => {
                if !result.success {
                    let told = first_text(opt_slice(&result.stderr), opt_slice(&result.stdout));
                    return Err(text_or(told, "Upgrade command failed").to_owned());
                }
                self.install = result;
                self.stage = UpgradeStage::Restart;
            },
            (UpgradeStage::Restart, UpgradeEvent::Restarted(reports)) => {
                self.restarts = reports;
                self.stage = UpgradeStage::AwaitHealth;
            },
            (UpgradeStage::AwaitHealth, UpgradeEvent::Health(ok)) => {
                self.health_ok = ok;
                self.stage = UpgradeStage::Inspect;
            },
            (UpgradeStage::Inspect, UpgradeEvent::Inspected(version)) => {
                self.current_version = version;
                self.stage = if !self.health_ok && self.plan.rollback_on_failure
                    && self.plan.previous.is_some() {
                    UpgradeStage::RollbackInstall
                } else {
                    UpgradeStage::Finished
                };
            },
            (UpgradeStage::RollbackInstall, UpgradeEvent::Ran(result)) => {
                self.rollback_install = result;
                self.rolled_back = true;
                self.stage = UpgradeStage::RollbackRestart;
            },
            (UpgradeStage::RollbackRestart, UpgradeEvent::Restarted(reports)) => {
                self.rollback_restarts = reports;
                self.stage = UpgradeStage::RollbackHealth;
            },
            (UpgradeStage::RollbackHealth, UpgradeEvent::Health(ok)) => {
                self.rollback_health = ok;
                self.stage = UpgradeStage::Finished;
            },
            _ => {},
        }
        Ok(())
    }

    fn report_rollback(&self) -> (r: Json)
        ensures
            r@ == rollback_report(self@),
    {
        if self.rolled_back {
            let mut f = Fields::new();
            f.put("install", self.rollback_install.to_json());
            f.put("restart_results", json_array(copy_reports(&self.rollback_restarts)));
            f.put("health_ok", Json::Bool(self.rollback_health));
            f.put("backup_id", json_opt(self.backup.get("backup_id")));
            assert(f@ == rollback_report(self@)->Object_0);
            f.object()
        } else {
            Json::Null
        }
    }

    /// The report on the upgrade.
    pub fn report(&self) -> (r: Json)
        ensures
            r@ == upgrade_report(self@),
    {
        let target = if self.plan.target.as_str().is_empty() {
            "latest"
        } else {
            self.plan.target.as_str()
        };
        let mut f = Fields::new();
        f.put("target_version", json_text(target));
        f.put("previous_version", json_opt_text(opt_slice(&self.plan.previous)));
        f.put("current_version", json_opt_text(opt_slice(&self.current_version)));
        f.put("backup", self.backup.copy());
        f.put("install_result", self.install.to_json());
        f.put("restart_results", json_array(copy_reports(&self.restarts)));
        f.put("health_ok", Json::Bool(self.health_ok));
        f.put("rollback_result", self.report_rollback());
        assert(f@ == upgrade_report(self@)->Object_0);
        f.object()
    }

    /// The entry in the event log on the upgrade.
    pub fn event(&self) -> (r: EventRecord)
        ensures
            r@ == upgrade_event(self@),
    {
        let target = if self.plan.target.as_str().is_empty() {
            "latest"
        } else {
            self.plan.target.as_str()
        };
        let current = text_or(opt_slice(&self.current_version), "");
        let mut message = cat3("OpenClaw upgrade target=", target, " current=");
        message.append(current);
        EventRecord::on_agent(
            if self.health_ok {
                "upgrade_success"
            } else {
                "upgrade_failed"
            },
            message,
        )
    }
}

// ---------------------------------------------------------------------------
// Upgrades if needed
// ---------------------------------------------------------------------------

/// Why an upgrade is not made.
#[derive(Debug, Clone, Copy, PartialEq, Eq, Structural)]
pub enum SkipReason {
    AlreadyUpToDate,
    NoInstallableUpdate,
}

/// What is decided on an upgrade.
pub enum UpgradeDecision {
    /// The latest release is not known.
    Fail { message: String },
    /// No upgrade is made: the entry in the event log, and the report.
    Skip { reason: SkipReason, event: EventRecord, report: Json },
    /// The upgrade to this version is made.
    Upgrade { target: String },
}

/// What an [`UpgradeDecision`] stands for.
pub enum DecisionView {
    Fail { message: Seq<char> },
    Skip { reason: SkipReason, event: EventView, report: JsonView },
    Upgrade { target: Seq<char> },
}

impl View for UpgradeDecision {
    type V = DecisionView;

    open spec fn view(&self) -> DecisionView {
        match self {
            UpgradeDecision::Fail { message } => DecisionView::Fail { message: message@ },
            UpgradeDecision::Skip { reason, event, report } => DecisionView::Skip {
                reason: *reason,
                event: event@,
                report: report@,
            },
            UpgradeDecision::Upgrade { target } => DecisionView::Upgrade { target: target@ },
        }
    }
}

/// The report on an upgrade that is not made.
pub open spec fn skip_report(release: ReleaseView, reason: Seq<char>, latest: Seq<char>) -> JsonView {
    JsonView::Object(
        seq![
            ("skipped"@, JsonView::Bool(true)),
            ("reason"@, JsonView::Str(reason)),
            ("current_version"@, text_or_null(release.current_version)),
            ("latest_version"@, JsonView::Str(latest)),
            ("install_target_version"@, text_or_null(release.install_target_version)),
            ("release"@, release.report()),
        ],
    )
}

/// Whether the installed version is the one to have: it is known that there is no
/// update, or the installed version is the one that would be installed, or the
/// latest.
pub open spec fn up_to_date(release: ReleaseView, latest: Seq<char>) -> bool {
    ||| release.update_available == Some(false)
    ||| release.install_target_version == release.current_version
    ||| release.current_version == Some(latest)
}

/// What is decided on an upgrade, given what is known of the latest release.
pub open spec fn decision(release: ReleaseView) -> DecisionView {
    match (release.error, release.latest_version) {
        (Some(error), _) => DecisionView::Fail {
            message: "Failed to check latest release: "@ + error,
        },
        (None, None) => DecisionView::Fail { message: "Latest release version not found"@ },
        (None, Some(latest)) => if up_to_date(release, latest) {
            DecisionView::Skip {
                reason: SkipReason::AlreadyUpToDate,
                event: agent_event(
                    "upgrade_skipped"@,
                    "OpenClaw 已是最新可安装版本 "@ + value_or(
                        either(release.current_version, release.install_target_version),
                        latest,
                    ),
                ),
                report: skip_report(release, "already_up_to_date"@, latest),
            }
        } else {
            match release.install_target_version {
                Some(target) => DecisionView::Upgrade { target },
                None => DecisionView::Skip {
                    reason: SkipReason::NoInstallableUpdate,
                    event: agent_event(
                        "upgrade_skipped"@,
                        "发现 GitHub 新版本 "@ + latest + "，但 npm 暂无可安装版本"@,
                    ),
                    report: skip_report(release, "no_installable_update"@, latest),
                },
            }
        },
    }
}

fn same_opt(a: Option<&str>, b: Option<&str>) -> (r: bool)
    ensures
        r == (opt_str_view(a) == opt_str_view(b)),
{
    match (a, b) {
        (Some(x), Some(y)) => same(x, y),
        (None, None) => true,
        _ => false,
    }
}

fn report_skip(release: &Release, reason: &str, latest: &str) -> (r: Json)
    ensures
        r@ == skip_report(release@, reason@, latest@),
{
    let mut f = Fields::new();
    f.put("skipped", Json::Bool(true));
    f.put("reason", json_text(reason));
    f.put("current_version", json_opt_text(opt_slice(&release.current_version)));
    f.put("latest_version", json_text(latest));
    f.put("install_target_version", json_opt_text(opt_slice(&release.install_target_version)));
    f.put("release", release.to_json());
    assert(f@ == skip_report(release@, reason@, latest@)->Object_0);
    f.object()
}

/// What is decided on an upgrade, given what is known of the latest release.
pub fn decide_upgrade(release: &Release) -> (r: UpgradeDecision)
    ensures
        r@ == decision(release@),
{
    match &release.error {
        Some(e) => {
            return UpgradeDecision::Fail {
                message: cat("Failed to check latest release: ", e.as_str()),
            };
        },
        None => {},
    }
    let latest = match &release.latest_version {
        Some(v) => v.as_str(),
        None => {
            return UpgradeDecision::Fail {
                message: "Latest release version not found".to_owned(),
            };
        },
    };
    let current = opt_slice(&release.current_version);
    let target = opt_slice(&release.install_target_version);
    let no_update = match release.update_available {
        Some(b) => !b,
        None => false,
    };
    if no_update || same_opt(target, current) || same_opt(current, Some(latest)) {
        let named = text_or(first_text(current, target), latest);
        return UpgradeDecision::Skip {
            reason: SkipReason::AlreadyUpToDate,
            event: EventRecord::on_agent(
                "upgrade_skipped",
                cat("OpenClaw 已是最新可安装版本 ", named),
            ),
            report: report_skip(release, "already_up_to_date", latest),
        };
    }
    match target {
        Some(t) => UpgradeDecision::Upgrade { target: t.to_owned() },
        None => UpgradeDecision::Skip {
            reason: SkipReason::NoInstallableUpdate,
            event: EventRecord::on_agent(
                "upgrade_skipped",
                cat3("发现 GitHub 新版本 ", latest, "，但 npm 暂无可安装版本"),
            ),
            report: report_skip(release, "no_installable_update", latest),
        },
    }
}

/// The report on an upgrade that was made because it was needed: that on the upgrade,
/// with that on the release.
pub fn report_needed_upgrade(upgrade: &Upgrade, release: &Release) -> (r: Json)
    ensures
        r@ == upgrade_report(upgrade@).with("release"@, release@.report()),
{
    let mut r = upgrade.report();
    r.set("release", release.to_json());
    r
}

// ---------------------------------------------------------------------------
// Laws
// ---------------------------------------------------------------------------

/// The states that an upgrade can be in: what was reached from its beginning.
pub open spec fn is_sound(u: UpgradeView) -> bool {
    &&& u.rolled_back ==> wants_rollback(u)
    &&& u.stage is RollbackInstall ==> wants_rollback(u)
    &&& u.stage is RollbackRestart || u.stage is RollbackHealth ==> u.rolled_back
    &&& u.stage is Finished && wants_rollback(u) ==> u.rolled_back
    &&& !(u.stage is Backup) && !(u.stage is Install) ==> u.install.success
    &&& (u.stage is Backup || u.stage is Install || u.stage is Restart || u.stage is AwaitHealth
        || u.stage is Inspect) ==> !u.rolled_back
}

/// Every upgrade is in a sound state at its beginning and after every event: the
/// previous version is installed again exactly where the instances do not come up,
/// this was asked for and the previous version is known, and nothing is restarted
/// before the new version is installed.
pub proof fn law_upgrade_sound(plan: UpgradePlan, u: UpgradeView, event: UpgradeEvent)
    requires
        is_sound(u),
    ensures
        is_sound(begun(plan)),
        after_event(u, event) matches Ok(after) ==> is_sound(after),
{
}

/// An upgrade that is finished went well, or the return to the previous version was
/// made wherever it was wanted; and what was asked for never changes on the way.
pub proof fn law_upgrade_end(u: UpgradeView, event: UpgradeEvent)
    requires
        is_sound(u),
    ensures
        u.stage is Finished ==> (u.rolled_back <==> wants_rollback(u)),
        u.stage is Finished && u.health_ok ==> rollback_report(u) is Null,
        after_event(u, event) matches Ok(after) ==> after.target == u.target && after.previous
            == u.previous && after.create_backup == u.create_backup && after.rollback_on_failure
            == u.rollback_on_failure,
{
}

/// The number of steps that an upgrade has still to make at most.
pub open spec fn steps_left(stage: UpgradeStage) -> nat {
    match stage {
        UpgradeStage::Backup => 8,
        UpgradeStage::Install => 7,
        UpgradeStage::Restart => 6,
        UpgradeStage::AwaitHealth => 5,
        UpgradeStage::Inspect => 4,
        UpgradeStage::RollbackInstall => 3,
        UpgradeStage::RollbackRestart => 2,
        UpgradeStage::RollbackHealth => 1,
        UpgradeStage::Finished => 0,
    }
}

/// Whether an event answers the step that is to be done.
pub open spec fn answers(stage: UpgradeStage, event: UpgradeEvent) -> bool {
    match stage {
        UpgradeStage::Backup => event is BackedUp,
        UpgradeStage::Install | UpgradeStage::RollbackInstall => event is Ran,
        UpgradeStage::Restart | UpgradeStage::RollbackRestart => event is Restarted,
        UpgradeStage::AwaitHealth | UpgradeStage::RollbackHealth => event is Health,
        UpgradeStage::Inspect => event is Inspected,
        UpgradeStage::Finished => false,
    }
}

/// Every event that answers the step that is to be done brings the upgrade nearer to
/// its end, or ends it with an error, so it ends after eight steps at most.
pub proof fn law_upgrade_ends(u: UpgradeView, event: UpgradeEvent)
    requires
        answers(u.stage, event),
    ensures
        after_event(u, event) matches Ok(after) ==> steps_left(after.stage) < steps_left(u.stage),
        steps_left(u.stage) <= 8,
{
}

/// No upgrade is made where it is known that there is no update, nor to the version
/// that is installed; and one that is made goes to the version that can be installed.
pub proof fn law_needless_upgrade_skipped(release: ReleaseView)
    ensures
        decision(release) matches DecisionView::Upgrade { target } ==> {
            &&& release.update_available != Some(false)
            &&& release.install_target_version == Some(target)
            &&& release.current_version != Some(target)
            &&& release.error is None
        },
        release.error is None && release.latest_version is Some && release.update_available
            == Some(false) ==> decision(release) is Skip,
{
}

proof fn lemma_upgrade_report(u: UpgradeView)
    ensures
        upgrade_report(u).get("target_version"@) == Some(
            JsonView::Str(
                if u.target.len() == 0 {
                    "latest"@
                } else {
                    u.target
                },
            ),
        ),
        upgrade_report(u).get("previous_version"@) == Some(text_or_null(u.previous)),
        upgrade_report(u).get("current_version"@) == Some(text_or_null(u.current_version)),
        upgrade_report(u).get("backup"@) == Some(u.backup),
        upgrade_report(u).get("install_result"@) == Some(u.install.report()),
        upgrade_report(u).get("restart_results"@) == Some(JsonView::Array(u.restarts)),
        upgrade_report(u).get("health_ok"@) == Some(JsonView::Bool(u.health_ok)),
        upgrade_report(u).get("rollback_result"@) == Some(rollback_report(u)),
        !u.rolled_back ==> rollback_report(u) is Null,
        u.rolled_back ==> {
            let b = rollback_report(u);
            &&& b.get("install"@) == Some(u.rollback_install.report())
            &&& b.get("restart_results"@) == Some(JsonView::Array(u.rollback_restarts))
            &&& b.get("health_ok"@) == Some(JsonView::Bool(u.rollback_health))
            &&& b.get("backup_id"@) == Some(value_or_null(u.backup.get("backup_id"@)))
        },
{
    let entries = upgrade_report(u)->Object_0;
    reveal_strlit("target_version");
    assert("target_version"@.len() == 14);
    reveal_strlit("previous_version");
    assert("previous_version"@.len() == 16);
    reveal_strlit("current_version");
    assert("current_version"@.len() == 15);
    reveal_strlit("backup");
    assert("backup"@.len() == 6);
    reveal_strlit("install_result");
    assert("install_result"@.len() == 14);
    reveal_strlit("restart_results");
    assert("restart_results"@.len() == 15);
    reveal_strlit("health_ok");
    assert("health_ok"@.len() == 9);
    reveal_strlit("rollback_result");
    assert("rollback_result"@.len() == 15);
    reveal_strlit("install");
    assert("install"@.len() == 7);
    reveal_strlit("backup_id");
    assert("backup_id"@.len() == 9);
    assert("target_version"@[0] != "install_result"@[0]);
    assert("current_version"@[0] != "restart_results"@[0]);
    assert("current_version"@[0] != "rollback_result"@[0]);
    assert("restart_results"@[1] != "rollback_result"@[1]);
    lemma_entry_value(entries, "target_version"@, 0);
    lemma_entry_value(entries, "previous_version"@, 1);
    lemma_entry_value(entries, "current_version"@, 2);
    lemma_entry_value(entries, "backup"@, 3);
    lemma_entry_value(entries, "install_result"@, 4);
    lemma_entry_value(entries, "restart_results"@, 5);
    lemma_entry_value(entries, "health_ok"@, 6);
    lemma_entry_value(entries, "rollback_result"@, 7);
    if u.rolled_back {
        let back = rollback_report(u)->Object_0;
        assert("health_ok"@[0] != "backup_id"@[0]);
        lemma_entry_value(back, "install"@, 0);
        lemma_entry_value(back, "restart_results"@, 1);
        lemma_entry_value(back, "health_ok"@, 2);
        lemma_entry_value(back, "backup_id"@, 3);
    }
}

/// The upgrade after an event that it takes in.
pub open spec fn onward(u: UpgradeView, event: UpgradeEvent) -> UpgradeView {
    after_event(u, event)->Ok_0
}

/// Whether every step that can be asked for next installs a version of the program.
pub open spec fn asks_to_install(u: UpgradeView, package: Seq<char>) -> bool {
    forall|step: UpgradeStep| #[trigger]
        is_next_step(u, step) ==> (step matches UpgradeStep::Run { command } && texts(command@)
            == seq!["npm"@, "install"@, "-g"@, package])
}

/// Whether every step that can be asked for next is a restart.
pub open spec fn asks_to_restart(u: UpgradeView) -> bool {
    forall|step: UpgradeStep| #[trigger] is_next_step(u, step) ==> step is Restart
}

/// Whether every step that can be asked for next waits for the instances.
pub open spec fn asks_for_health(u: UpgradeView) -> bool {
    forall|step: UpgradeStep| #[trigger] is_next_step(u, step) ==> step is AwaitHealth
}

/// Whether nothing more can be asked for.
pub open spec fn asks_for_nothing(u: UpgradeView) -> bool {
    forall|step: UpgradeStep| #[trigger] is_next_step(u, step) ==> step is Finish
}

/// The way of an upgrade up to the point where it is known how the new version fares. A
/// backup under the name of the previous version is made first, exactly where one is
/// asked for; then the target version is installed, the latest one where none is named;
/// only when this went well everything is restarted, and then the instances are waited
/// for. An installation that failed ends the upgrade with what the command wrote.
pub proof fn law_upgrade_way(
    plan: UpgradePlan,
    meta: Json,
    installed: CommandResult,
    reports: Vec<Json>,
    healthy: bool,
)
    ensures
        ({
            let first = begun(plan);
            let ready = if plan.create_backup {
                onward(first, UpgradeEvent::BackedUp(meta))
            } else {
                first
            };
            let package = if plan.target@.len() == 0 || plan.target@ == "latest"@ {
                "openclaw@latest"@
            } else {
                "openclaw@"@ + plan.target@
            };
            let replaced = onward(ready, UpgradeEvent::Ran(installed));
            let restarted = onward(replaced, UpgradeEvent::Restarted(reports));
            let awaited = onward(restarted, UpgradeEvent::Health(healthy));
            &&& plan.create_backup ==> forall|step: UpgradeStep| #[trigger]
                is_next_step(first, step) ==> (step matches UpgradeStep::Backup { label }
                    && label@ == "pre-upgrade-"@ + match plan.previous {
                    Some(v) => v@,
                    None => "unknown"@,
                })
            &&& asks_to_install(ready, package)
            &&& installed.success ==> {
                &&& after_event(ready, UpgradeEvent::Ran(installed)) is Ok
                &&& asks_to_restart(replaced)
                &&& asks_for_health(restarted)
                &&& forall|step: UpgradeStep| #[trigger]
                    is_next_step(awaited, step) ==> step is Inspect
                &&& awaited.stage is Inspect
                &&& awaited.health_ok == healthy
                &&& awaited.backup == if plan.create_backup {
                    meta@
                } else {
                    JsonView::Null
                }
            }
            &&& !installed.success ==> after_event(ready, UpgradeEvent::Ran(installed)) == Err::<
                UpgradeView,
                Seq<char>,
            >(
                match (installed.stderr, installed.stdout) {
                    (Some(e), _) => e@,
                    (None, Some(o)) => o@,
                    (None, None) => "Upgrade command failed"@,
                },
            )
        }),
{
}

/// What an upgrade comes to, once the new version is running and it was told how the
/// instances fare. Where they do not come up, a return was asked for and the previous
/// version is known, that version is installed again, whether or not there is a backup;
/// everything is restarted and waited for, and only then nothing is left to do. In every
/// other case nothing is left to do at once. The report tells of the return where there
/// was one, with its own outcome beside that of the upgrade, and holds null otherwise.
pub proof fn law_unhealthy_upgrade_undone(
    u: UpgradeView,
    version: Option<String>,
    again: CommandResult,
    reports: Vec<Json>,
    healthy: bool,
)
    requires
        u.stage is Inspect,
        !u.rolled_back,
    ensures
        ({
            let seen = onward(u, UpgradeEvent::Inspected(version));
            let replaced = onward(seen, UpgradeEvent::Ran(again));
            let restarted = onward(replaced, UpgradeEvent::Restarted(reports));
            let end = onward(restarted, UpgradeEvent::Health(healthy));
            let result = upgrade_report(end).get("rollback_result"@);
            &&& after_event(u, UpgradeEvent::Inspected(version)) is Ok
            &&& !u.health_ok && u.rollback_on_failure && u.previous is Some ==> {
                &&& seen.stage is RollbackInstall
                &&& asks_to_install(seen, "openclaw@"@ + u.previous->0)
                &&& after_event(seen, UpgradeEvent::Ran(again)) is Ok
                &&& asks_to_restart(replaced)
                &&& asks_for_health(restarted)
                &&& asks_for_nothing(end)
                &&& upgrade_report(end).get("health_ok"@) == Some(JsonView::Bool(false))
                &&& result matches Some(back) && back.get("install"@) == Some(again@.report())
                    && back.get("restart_results"@) == Some(JsonView::Array(json_views(reports@)))
                    && back.get("health_ok"@) == Some(JsonView::Bool(healthy)) && back.get(
                    "backup_id"@,
                ) == Some(
                    match u.backup.get("backup_id"@) {
                        Some(id) => id,
                        None => JsonView::Null,
                    },
                )
            }
            &&& u.health_ok || !u.rollback_on_failure || u.previous is None ==> {
                &&& asks_for_nothing(seen)
                &&& upgrade_report(seen).get("rollback_result"@) == Some(JsonView::Null)
                &&& upgrade_report(seen).get("health_ok"@) == Some(JsonView::Bool(u.health_ok))
            }
        }),
{
    let seen = onward(u, UpgradeEvent::Inspected(version));
    let replaced = onward(seen, UpgradeEvent::Ran(again));
    let restarted = onward(replaced, UpgradeEvent::Restarted(reports));
    lemma_upgrade_report(seen);
    lemma_upgrade_report(onward(restarted, UpgradeEvent::Health(healthy)));
}

/// The report on an upgrade tells the version that was asked for, the one before, the one
/// that is installed now, the backup, and what came of the installation and the restarts;
/// and the event log calls it a success exactly where the instances came up.
pub proof fn law_upgrade_told(
    plan: UpgradePlan,
    meta: Json,
    installed: CommandResult,
    reports: Vec<Json>,
    healthy: bool,
    version: Option<String>,
)
    requires
        installed.success,
    ensures
        ({
            let first = begun(plan);
            let ready = if plan.create_backup {
                onward(first, UpgradeEvent::BackedUp(meta))
            } else {
                first
            };
            let replaced = onward(ready, UpgradeEvent::Ran(installed));
            let restarted = onward(replaced, UpgradeEvent::Restarted(reports));
            let awaited = onward(restarted, UpgradeEvent::Health(healthy));
            let end = onward(awaited, UpgradeEvent::Inspected(version));
            let told = upgrade_report(end);
            let target = if plan.target@.len() == 0 {
                "latest"@
            } else {
                plan.target@
            };
            &&& told.get("target_version"@) == Some(JsonView::Str(target))
            &&& told.get("previous_version"@) == Some(
                match plan.previous {
                    Some(v) => JsonView::Str(v@),
                    None => JsonView::Null,
                },
            )
            &&& told.get("current_version"@) == Some(
                match version {
                    Some(v) => JsonView::Str(v@),
                    None => JsonView::Null,
                },
            )
            &&& told.get("backup"@) == Some(
                if plan.create_backup {
                    meta@
                } else {
                    JsonView::Null
                },
            )
            &&& told.get("install_result"@) == Some(installed@.report())
            &&& told.get("restart_results"@) == Some(JsonView::Array(json_views(reports@)))
            &&& told.get("health_ok"@) == Some(JsonView::Bool(healthy))
            &&& upgrade_event(end).event_type == if healthy {
                "upgrade_success"@
            } else {
                "upgrade_failed"@
            }
            &&& upgrade_event(end).message == "OpenClaw upgrade target="@ + target + " current="@
                + match version {
                Some(v) => v@,
                None => ""@,
            }
            &&& upgrade_event(end).instance_name is None
        }),
{
    let first = begun(plan);
    let ready = if plan.create_backup {
        onward(first, UpgradeEvent::BackedUp(meta))
    } else {
        first
    };
    let replaced = onward(ready, UpgradeEvent::Ran(installed));
    let restarted = onward(replaced, UpgradeEvent::Restarted(reports));
    let awaited = onward(restarted, UpgradeEvent::Health(healthy));
    lemma_upgrade_report(onward(awaited, UpgradeEvent::Inspected(version)));
}

/// What is decided on an upgrade. It fails where the latest release could not be found
/// out. It is left out, without a change, where there is no newer version to be had: none
/// is offered, or the one to install, or the latest, is installed already; and where the
/// newer one cannot be installed yet. Otherwise the version that can be installed is.
pub proof fn law_upgrade_decided(r: ReleaseView)
    ensures
        decision(r) is Fail <==> r.error is Some || r.latest_version is None,
        r.error matches Some(e) ==> decision(r) == (DecisionView::Fail {
            message: "Failed to check latest release: "@ + e,
        }),
        r.error is None && r.latest_version is None ==> decision(r) == (DecisionView::Fail {
            message: "Latest release version not found"@,
        }),
        decision(r) matches DecisionView::Skip { reason, event, .. } ==> event.message
            == match reason {
            SkipReason::AlreadyUpToDate => "OpenClaw 已是最新可安装版本 "@ + match r.current_version {
                Some(v) => v,
                None => match r.install_target_version {
                    Some(v) => v,
                    None => r.latest_version->0,
                },
            },
            SkipReason::NoInstallableUpdate => "发现 GitHub 新版本 "@ + r.latest_version->0
                + "，但 npm 暂无可安装版本"@,
        },
        r.error is None && r.latest_version is Some ==> {
            let current = r.update_available == Some(false) || r.install_target_version
                == r.current_version || r.latest_version == r.current_version;
            &&& current <==> (decision(r) matches DecisionView::Skip { reason, .. } && reason
                == SkipReason::AlreadyUpToDate)
            &&& !current && r.install_target_version is None ==> (decision(
                r,
            ) matches DecisionView::Skip { reason, .. } && reason == SkipReason::NoInstallableUpdate)
            &&& !current && r.install_target_version is Some ==> decision(r) == (
            DecisionView::Upgrade { target: r.install_target_version->0 })
        },
        decision(r) matches DecisionView::Skip { reason, event, report } ==> {
            &&& event.event_type == "upgrade_skipped"@
            &&& report.get("skipped"@) == Some(JsonView::Bool(true))
            &&& report.get("reason"@) == Some(
                JsonView::Str(
                    match reason {
                        SkipReason::AlreadyUpToDate => "already_up_to_date"@,
                        SkipReason::NoInstallableUpdate => "no_installable_update"@,
                    },
                ),
            )
            &&& report.get("current_version"@) == Some(text_or_null(r.current_version))
            &&& report.get("latest_version"@) == Some(text_or_null(r.latest_version))
            &&& report.get("install_target_version"@) == Some(
                text_or_null(r.install_target_version),
            )
            &&& report.get("release"@) == Some(r.report())
        },
{
    if decision(r) is Skip {
        let entries = decision(r)->report->Object_0;
        reveal_strlit("skipped");
        assert("skipped"@.len() == 7);
        reveal_strlit("reason");
        assert("reason"@.len() == 6);
        reveal_strlit("current_version");
        assert("current_version"@.len() == 15);
        reveal_strlit("latest_version");
        assert("latest_version"@.len() == 14);
        reveal_strlit("install_target_version");
        assert("install_target_version"@.len() == 22);
        reveal_strlit("release");
        assert("release"@.len() == 7);
        assert("skipped"@[0] != "release"@[0]);
        lemma_entry_value(entries, "skipped"@, 0);
        lemma_entry_value(entries, "reason"@, 1);
        lemma_entry_value(entries, "current_version"@, 2);
        lemma_entry_value(entries, "latest_version"@, 3);
        lemma_entry_value(entries, "install_target_version"@, 4);
        lemma_entry_value(entries, "release"@, 5);
    }
}

/// An upgrade is planned only for an installation by the package registry, from the
/// version that is installed.
pub proof fn law_plan(
    plan: UpgradePlan,
    install: InstallView,
    target: Seq<char>,
    create_backup: bool,
    rollback_on_failure: bool,
)
    requires
        is_plan(plan, install, target, create_backup, rollback_on_failure),
    ensures
        plan.target@ == target,
        plan.previous is Some <==> install.openclaw_version is Some,
        plan.previous matches Some(v) ==> install.openclaw_version == Some(v@),
        plan.create_backup <==> create_backup,
        plan.rollback_on_failure <==> rollback_on_failure,
{
}

/// Only an installation of the package registry is upgraded; the error names the way in which
/// another one was made.
pub proof fn law_only_packages_upgraded(
    install: &InstallInfo,
    target: &str,
    create_backup: bool,
    rollback_on_failure: bool,
    r: Result<UpgradePlan, String>,
)
    requires
        call_ensures(plan_upgrade, (install, target, create_backup, rollback_on_failure), r),
    ensures
        r is Ok <==> install@.install_strategy is NpmGlobal,
        install@.install_strategy is Unknown ==> (r matches Err(message) && message@
            == "Unsupported install strategy: "@ + "unknown"@
            + ". Only npm-global upgrades are supported right now."@),
        r matches Ok(plan) ==> plan.target@ == target@,
{
}

} // verus!
