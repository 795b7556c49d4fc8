//! Commands that are run, and what comes of them.

use vstd::prelude::*;
use vstd::string::*;

use crate::config::InstanceConfig;
use crate::json::{
    int_or_null, int_value, json_opt_int, json_opt_text, json_text, json_texts, lemma_entry_value,
    opt_slice, opt_text, text_array, text_or_null, Fields, Json, JsonView,
};
use crate::text::{dec_int, decimal_i64, law_decimal_i64_read_back, texts, trim, trimmed};

verus! {

/// A text, or nothing where it is empty.
pub open spec fn filled(s: Seq<char>) -> Option<Seq<char>> {
    if s.len() == 0 {
        None
    } else {
        Some(s)
    }
}

/// What is left of a text without the white space around it, or nothing.
pub open spec fn filled_trimmed(s: Seq<char>) -> Option<Seq<char>> {
    filled(trimmed(s))
}

/// What is left of a text without the white space around it, or nothing.
pub fn trim_filled(s: &str) -> (r: Option<String>)
    ensures
        opt_text(r) == filled_trimmed(s@),
{
    let t = trim(s);
    if t.is_empty() {
        None
    } else {
        Some(t.to_owned())
    }
}

/// What became of a command.
pub enum CommandOutcome {
    /// It ended, with an exit code unless a signal ended it.
    Exited { success: bool, code: Option<i32>, stdout: String, stderr: String },
    /// It could not be run.
    NotRun { error: String },
    /// It was not done in time.
    TimedOut,
}

/// The result of a command.
pub struct CommandResult {
    pub success: bool,
    pub returncode: Option<i32>,
    pub stdout: Option<String>,
    pub stderr: Option<String>,
}

/// What a [`CommandResult`] stands for.
pub struct CommandView {
    pub success: bool,
    pub returncode: Option<i32>,
    pub stdout: Option<Seq<char>>,
    pub stderr: Option<Seq<char>>,
}

impl View for CommandResult {
    type V = CommandView;

    open spec fn view(&self) -> CommandView {
        CommandView {
            success: self.success,
            returncode: self.returncode,
            stdout: opt_text(self.stdout),
            stderr: opt_text(self.stderr),
        }
    }
}

/// The result of a command: what it wrote, without the white space around it, or the
/// error in place of what it wrote to its error output.
pub open spec fn result_of(outcome: CommandOutcome) -> CommandView {
    match outcome {
        CommandOutcome::Exited { success, code, stdout, stderr } => CommandView {
            success,
            returncode: code,
            stdout: filled_trimmed(stdout@),
            stderr: filled_trimmed(stderr@),
        },
        CommandOutcome::NotRun { error } => CommandView {
            success: false,
            returncode: None,
            stdout: None,
            stderr: Some(error@),
        },
        CommandOutcome::TimedOut => CommandView {
            success: false,
            returncode: None,
            stdout: None,
            stderr: Some("Command timed out"@),
        },
    }
}

/// The JSON value of an optional exit code.
pub open spec fn code_value(code: Option<i32>) -> JsonView {
    int_or_null(
        match code {
            Some(c) => Some(c as i64),
            None => None,
        },
    )
}

/// The JSON value of an optional exit code.
pub fn json_code(code: Option<i32>) -> (r: Json)
    ensures
        r@ == code_value(code),
{
    match code {
        Some(c) => json_opt_int(Some(c as i64)),
        None => Json::Null,
    }
}

impl CommandView {
    /// The entries of the report on a command.
    pub open spec fn entries(self) -> Seq<(Seq<char>, JsonView)> {
        seq![
            ("success"@, JsonView::Bool(self.success)),
            ("returncode"@, code_value(self.returncode)),
            ("stdout"@, text_or_null(self.stdout)),
            ("stderr"@, text_or_null(self.stderr)),
        ]
    }

    /// The report on a command.
    pub open spec fn report(self) -> JsonView {
        JsonView::Object(self.entries())
    }
}

impl CommandResult {
    /// The result of a command.
    pub fn of(outcome: CommandOutcome) -> (r: CommandResult)
        ensures
            r@ == result_of(outcome),
    {
        match outcome {
            CommandOutcome::Exited { success, code, stdout, stderr } => CommandResult {
                success,
                returncode: code,
                stdout: trim_filled(stdout.as_str()),
                stderr: trim_filled(stderr.as_str()),
            },
            CommandOutcome::NotRun { error } => CommandResult {
                success: false,
                returncode: None,
                stdout: None,
                stderr: Some(error),
            },
            CommandOutcome::TimedOut => CommandResult {
                success: false,
                returncode: None,
                stdout: None,
                stderr: Some("Command timed out".to_owned()),
            },
        }
    }

    fn put_entries(&self, fields: &mut Fields)
        ensures
            final(fields)@ == old(fields)@ + self@.entries(),
    {
        fields.put("success", Json::Bool(self.success));
        fields.put("returncode", json_code(self.returncode));
        fields.put("stdout", json_opt_text(opt_slice(&self.stdout)));
        fields.put("stderr", json_opt_text(opt_slice(&self.stderr)));
        assert(fields@ =~= old(fields)@ + self@.entries());
    }

    /// The report on a command.
    pub fn to_json(&self) -> (r: Json)
        ensures
            r@ == self@.report(),
    {
        let mut fields = Fields::new();
        self.put_entries(&mut fields);
        assert(fields@ =~= self@.entries());
        fields.object()
    }
}

// ---------------------------------------------------------------------------
// Gateways
// ---------------------------------------------------------------------------

/// The command that does `action` to the gateway of an instance.
pub open spec fn gateway_command(action: Seq<char>, instance: InstanceConfig) -> Seq<Seq<char>> {
    let base = seq!["openclaw"@, "gateway"@, action];
    match instance.profile {
        Some(p) => base.push("--profile"@).push(dec_int(p as int)),
        None => base,
    }
}

/// The command that does `action` to the gateway of an instance.
pub fn build_gateway_command(action: &str, instance: &InstanceConfig) -> (r: Vec<String>)
    ensures
        texts(r@) == gateway_command(action@, *instance),
{
    let mut cmd: Vec<String> = Vec::new();
    cmd.push("openclaw".to_owned());
    cmd.push("gateway".to_owned());
    cmd.push(action.to_owned());
    match instance.profile {
        Some(p) => {
            cmd.push("--profile".to_owned());
            cmd.push(decimal_i64(p));
        },
        None => {},
    }
    assert(texts(cmd@) =~= gateway_command(action@, *instance));
    cmd
}

/// The report on an action on the gateway of an instance.
pub open spec fn action_report(
    instance: InstanceConfig,
    action: Seq<char>,
    result: CommandView,
) -> JsonView {
    JsonView::Object(
        seq![
            ("instance_name"@, JsonView::Str(instance.name@)),
            ("command"@, text_array(gateway_command(action, instance))),
        ] + result.entries(),
    )
}

/// The report on an action on the gateway of an instance.
pub fn report_instance_action(
    instance: &InstanceConfig,
    action: &str,
    result: &CommandResult,
) -> (r: Json)
    ensures
        r@ == action_report(*instance, action@, result@),
{
    let command = build_gateway_command(action, instance);
    let mut fields = Fields::new();
    fields.put("instance_name", json_text(instance.name.as_str()));
    fields.put("command", json_texts(&command));
    result.put_entries(&mut fields);
    assert(fields@ == action_report(*instance, action@, result@)->Object_0);
    fields.object()
}

/// The instances that are switched on.
pub open spec fn enabled_of(instances: Seq<InstanceConfig>) -> Seq<InstanceConfig> {
    instances.filter(|i: InstanceConfig| i.enabled)
}

/// The instances that are switched on.
pub fn enabled_instances(instances: &Vec<InstanceConfig>) -> (r: Vec<InstanceConfig>)
    ensures
        r@ == enabled_of(instances@),
{
    let mut out: Vec<InstanceConfig> = Vec::new();
    let mut i: usize = 0;
    proof {
        reveal(Seq::filter);
        assert(instances@.take(0) =~= Seq::<InstanceConfig>::empty());
    }
    while i < instances.len()
        invariant
            i <= instances@.len(),
            out@ == enabled_of(instances@.take(i as int)),
        decreases instances@.len() - i,
    {
        proof {
            reveal(Seq::filter);
            assert(instances@.take(i + 1).drop_last() =~= instances@.take(i as int));
            assert(instances@.take(i + 1).last() == instances@[i as int]);
        }
        if instances[i].enabled {
            out.push(instances[i].clone());
        }
        i = i + 1;
    }
    assert(instances@.take(i as int) =~= instances@);
    out
}

/// Whether an HTTP status tells of health.
pub open spec fn is_healthy_status(status: u16) -> bool {
    200 <= status < 300
}

/// Whether an HTTP status tells of health.
pub fn healthy_status(status: u16) -> (r: bool)
    ensures
        r == is_healthy_status(status),
{
    200 <= status && status < 300
}

/// Whether all instances are as they are expected to be: all up, or all down.
pub open spec fn all_as_expected(healthy: Seq<bool>, expected_up: bool) -> bool {
    forall|i: int| 0 <= i < healthy.len() ==> #[trigger] healthy[i] == expected_up
}

/// Whether all instances are as they are expected to be.
pub fn health_as_expected(healthy: &Vec<bool>, expected_up: bool) -> (r: bool)
    ensures
        r == all_as_expected(healthy@, expected_up),
{
    let mut i: usize = 0;
    while i < healthy.len()
        invariant
            i <= healthy@.len(),
            forall|k: int| 0 <= k < i ==> #[trigger] healthy@[k] == expected_up,
        decreases healthy@.len() - i,
    {
        if healthy[i] != expected_up {
            return false;
        }
        i = i + 1;
    }
    true
}

/// What to do while instances are waited for.
#[derive(Debug, Clone, Copy, PartialEq, Eq, Structural)]
pub enum WaitStep {
    /// They are as expected.
    Reached,
    /// The time is up.
    GivenUp,
    /// Ask each of them.
    Ask,
    /// Wait for this many seconds, then go on.
    Pause(u64),
}

/// What to do before a round of questions: there is nothing to wait for without
/// instances, and no round is begun once the time is up.
pub open spec fn before_round(instance_count: nat, time_left: bool) -> WaitStep {
    if instance_count == 0 {
        WaitStep::Reached
    } else if time_left {
        WaitStep::Ask
    } else {
        WaitStep::GivenUp
    }
}

/// What to do before a round of questions.
pub fn wait_before_round(instance_count: usize, time_left: bool) -> (r: WaitStep)
    ensures
        r == before_round(instance_count as nat, time_left),
{
    if instance_count == 0 {
        WaitStep::Reached
    } else if time_left {
        WaitStep::Ask
    } else {
        WaitStep::GivenUp
    }
}

/// What to do after a round of questions.
pub fn wait_after_round(healthy: &Vec<bool>, expected_up: bool) -> (r: WaitStep)
    ensures
        r == if all_as_expected(healthy@, expected_up) {
            WaitStep::Reached
        } else {
            WaitStep::Pause(2)
        },
{
    if health_as_expected(healthy, expected_up) {
        WaitStep::Reached
    } else {
        WaitStep::Pause(2)
    }
}

/// The instances that are switched on are those, and no others, in their order.
pub proof fn law_enabled(instances: Seq<InstanceConfig>)
    ensures
        forall|i: int|
            0 <= i < enabled_of(instances).len() ==> (#[trigger] enabled_of(instances)[i]).enabled
                && instances.contains(enabled_of(instances)[i]),
        forall|i: int|
            0 <= i < instances.len() && (#[trigger] instances[i]).enabled ==> enabled_of(
                instances,
            ).contains(instances[i]),
        (forall|i: int| 0 <= i < instances.len() ==> (#[trigger] instances[i]).enabled)
            ==> enabled_of(instances) == instances,
        (forall|i: int| 0 <= i < instances.len() ==> !(#[trigger] instances[i]).enabled)
            ==> enabled_of(instances).len() == 0,
    decreases instances.len(),
{
    reveal(Seq::filter);
    let on = |i: InstanceConfig| i.enabled;
    assert forall|i: int| 0 <= i < enabled_of(instances).len() implies (#[trigger] enabled_of(
        instances,
    )[i]).enabled && instances.contains(enabled_of(instances)[i]) by {
        instances.lemma_filter_pred(on, i);
        instances.lemma_filter_contains_rev(on, enabled_of(instances)[i]);
    }
    assert forall|i: int| 0 <= i < instances.len() && (#[trigger] instances[i]).enabled implies
        enabled_of(instances).contains(instances[i]) by {
        instances.lemma_filter_contains(on, i);
    }
    if instances.len() > 0 {
        let rest = instances.drop_last();
        law_enabled(rest);
        assert(instances.last() == instances[instances.len() - 1]);
        assert forall|i: int| 0 <= i < rest.len() implies #[trigger] rest[i] == instances[i] by {}
        assert(rest.push(instances.last()) =~= instances);
    } else {
        assert(enabled_of(instances) =~= instances);
    }
}

/// What came of a command: how it ended and what it wrote, without the white space around it,
/// and nothing where that is all; one that could not be run, or was not done in time, has
/// failed, with the reason in place of what it wrote to its error output.
pub proof fn law_command_result(outcome: CommandOutcome)
    ensures
        ({
            let r = result_of(outcome);
            &&& outcome matches CommandOutcome::Exited { success, code, stdout, stderr } ==> {
                &&& r.success == success
                &&& r.returncode == code
                &&& r.stdout is Some <==> trimmed(stdout@).len() > 0
                &&& r.stderr is Some <==> trimmed(stderr@).len() > 0
                &&& r.stdout matches Some(t) ==> t == trimmed(stdout@)
                &&& r.stderr matches Some(t) ==> t == trimmed(stderr@)
            }
            &&& !(outcome is Exited) ==> !r.success && r.returncode is None && r.stdout is None
            &&& outcome matches CommandOutcome::NotRun { error } ==> r.stderr == Some(error@)
            &&& outcome is TimedOut ==> r.stderr == Some("Command timed out"@)
        }),
{
}

/// The report on a command, and that on what it was run for.
pub proof fn law_command_reported(r: CommandView, instance: InstanceConfig, action: Seq<char>)
    ensures
        r.report().get("success"@) == Some(JsonView::Bool(r.success)),
        r.report().get("returncode"@) == Some(
            match r.returncode {
                Some(c) => int_value(c as i64),
                None => JsonView::Null,
            },
        ),
        r.report().get("stdout"@) == Some(text_or_null(r.stdout)),
        r.report().get("stderr"@) == Some(text_or_null(r.stderr)),
        ({
            let told = action_report(instance, action, r);
            &&& told.get("instance_name"@) == Some(JsonView::Str(instance.name@))
            &&& told.get("command"@) == Some(text_array(gateway_command(action, instance)))
            &&& told.get("success"@) == Some(JsonView::Bool(r.success))
            &&& told.get("returncode"@) == r.report().get("returncode"@)
            &&& told.get("stdout"@) == Some(text_or_null(r.stdout))
            &&& told.get("stderr"@) == Some(text_or_null(r.stderr))
        }),
{
    let entries = r.report()->Object_0;
    let action_entries = action_report(instance, action, r)->Object_0;
    reveal_strlit("instance_name");
    assert("instance_name"@.len() == 13);
    reveal_strlit("command");
    assert("command"@.len() == 7);
    reveal_strlit("success");
    assert("success"@.len() == 7);
    reveal_strlit("returncode");
    assert("returncode"@.len() == 10);
    reveal_strlit("stdout");
    assert("stdout"@.len() == 6);
    reveal_strlit("stderr");
    assert("stderr"@.len() == 6);
    assert("stdout"@[3] != "stderr"@[3]);
    lemma_entry_value(entries, "success"@, 0);
    lemma_entry_value(entries, "returncode"@, 1);
    lemma_entry_value(entries, "stdout"@, 2);
    lemma_entry_value(entries, "stderr"@, 3);
    assert("command"@[0] != "success"@[0]);
    assert("stdout"@[3] != "stderr"@[3]);
    lemma_entry_value(action_entries, "instance_name"@, 0);
    lemma_entry_value(action_entries, "command"@, 1);
    lemma_entry_value(action_entries, "success"@, 2);
    lemma_entry_value(action_entries, "returncode"@, 3);
    lemma_entry_value(action_entries, "stdout"@, 4);
    lemma_entry_value(action_entries, "stderr"@, 5);
}

/// The command that acts on an instance names the action, and the profile of the instance
/// exactly where it has one; so commands for different profiles differ.
pub proof fn law_gateway_command(action: Seq<char>, a: InstanceConfig, b: InstanceConfig)
    ensures
        gateway_command(action, a).take(3) == seq!["openclaw"@, "gateway"@, action],
        a.profile is None ==> gateway_command(action, a).len() == 3,
        a.profile matches Some(p) ==> gateway_command(action, a) == seq![
            "openclaw"@,
            "gateway"@,
            action,
            "--profile"@,
            dec_int(p as int),
        ],
        gateway_command(action, a) == gateway_command(action, b) <==> a.profile == b.profile,
{
    let x = gateway_command(action, a);
    let y = gateway_command(action, b);
    assert(x.take(3) =~= seq!["openclaw"@, "gateway"@, action]);
    if a.profile is Some && b.profile is Some && x == y {
        assert(x[4] == y[4]);
        law_decimal_i64_read_back(a.profile->0);
        law_decimal_i64_read_back(b.profile->0);
    }
}

/// Waiting for instances ends at once where there are none; otherwise it goes on in rounds
/// until all of them are as expected, or until the time is up.
pub proof fn law_wait(
    count: nat,
    time_left: bool,
    healthy: &Vec<bool>,
    expected_up: bool,
    r: WaitStep,
)
    requires
        call_ensures(wait_after_round, (healthy, expected_up), r),
    ensures
        before_round(count, time_left) is Reached <==> count == 0,
        before_round(count, time_left) is Ask <==> count > 0 && time_left,
        before_round(count, time_left) is GivenUp <==> count > 0 && !time_left,
        r is Reached <==> forall|i: int|
            0 <= i < healthy@.len() ==> #[trigger] healthy@[i] == expected_up,
        !(r is Reached) ==> r == WaitStep::Pause(2),
        is_healthy_status(200) && is_healthy_status(299),
        !is_healthy_status(199) && !is_healthy_status(300) && !is_healthy_status(500),
{
}

} // verus!
