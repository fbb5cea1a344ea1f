//! What holds of an OTAWA experiment on the TACLe suite: the values of a
//! benchmark stay together, and a script whose values hold no sigil expands
//! to complete tasks.

use crate::error::ErrorView;
use crate::expansion::left_for_main;
use crate::expansion::lemma_claimed_template_expands;
use crate::expansion::lemma_filled_leaves_only_placeholders;
use crate::expansion::lemma_owner_from;
use crate::expansion::ScriptView;
use crate::loaders::bench_command;
use crate::loaders::bench_task;
use crate::loaders::bench_tasks;
use crate::loaders::bench_token;
use crate::loaders::OTAWAConfigLoader;
use crate::loaders::OTAWAConfigView;
use crate::loaders::prop_flags;
use crate::loaders::run_benchsets;
use crate::loaders::TACLeConfigLoader;
use crate::script::ConfigLoaderTrait;
use crate::script::MainLoaderTrait;
use crate::tacle::BenchView;
use crate::tacle::TACLeView;
use crate::task::TaskView;
use crate::text::has_sigil;
use crate::text::is_placeholder;
use vstd::prelude::*;

verus! {

/// The values of one benchmark stay together: from `n` benchmarks come
/// exactly `n` tasks, and the task at a position bears the name of the
/// benchmark at that position, has that benchmark's program wherever the
/// command says `$tacle_exec`, and that benchmark's function wherever the
/// command says `$tacle_entry_point`. The program of one benchmark is never
/// put together with the function of another.
pub proof fn lemma_one_task_for_each_bench(cmd: Seq<Seq<char>>, benchs: Seq<BenchView>)
    requires
        bench_tasks(cmd, benchs) is Ok,
    ensures
        bench_tasks(cmd, benchs)->Ok_0.len() == benchs.len(),
        forall|i: int|
            #![trigger bench_tasks(cmd, benchs)->Ok_0[i]]
            0 <= i < benchs.len() ==> {
                let task = bench_tasks(cmd, benchs)->Ok_0[i];
                &&& task.name == benchs[i].name
                &&& task.tokens() == bench_command(cmd, benchs[i])
                &&& forall|j: int|
                    0 <= j < cmd.len() && cmd[j] == "$tacle_exec"@ ==> #[trigger] task.tokens()[j]
                        == benchs[i].executable
                &&& forall|j: int|
                    0 <= j < cmd.len() && cmd[j] == "$tacle_entry_point"@
                        ==> #[trigger] task.tokens()[j] == benchs[i].entry_point
            },
    decreases benchs.len(),
{
    if benchs.len() > 0 {
        let front = benchs.drop_last();
        lemma_one_task_for_each_bench(cmd, front);
        let tasks = bench_tasks(cmd, benchs)->Ok_0;
        let before = bench_tasks(cmd, front)->Ok_0;
        let last = bench_task(cmd, benchs.last())->Ok_0;
        assert(tasks == before.push(last));
        assert forall|i: int| #![trigger tasks[i]] 0 <= i < benchs.len() implies {
            let task = tasks[i];
            &&& task.name == benchs[i].name
            &&& task.tokens() == bench_command(cmd, benchs[i])
            &&& forall|j: int|
                0 <= j < cmd.len() && cmd[j] == "$tacle_exec"@ ==> #[trigger] task.tokens()[j]
                    == benchs[i].executable
            &&& forall|j: int|
                0 <= j < cmd.len() && cmd[j] == "$tacle_entry_point"@ ==> #[trigger] task.tokens()[j]
                    == benchs[i].entry_point
        } by {
            if i < front.len() {
                assert(tasks[i] == before[i]);
                assert(front[i] == benchs[i]);
            } else {
                reveal_strlit("$tacle_exec");
                reveal_strlit("$tacle_entry_point");
                assert("$tacle_exec"@.len() != "$tacle_entry_point"@.len());
                assert(tasks[i] == last);
                assert(benchs[i] == benchs.last());
                let command = bench_command(cmd, benchs[i]);
                assert(last.tokens() =~= command);
                assert forall|j: int| 0 <= j < cmd.len() implies command[j] == bench_token(
                    cmd[j],
                    benchs[i],
                ) by {}
            }
        }
    }
}

/// Where the command has a token, no sigil is left in it but in the two
/// placeholders of the benchmarks, and no benchmark has a sigil in the path
/// of its program or in the name of its function, every benchmark gets its
/// task, and every task is complete.
pub proof fn lemma_clean_values_make_tasks(cmd: Seq<Seq<char>>, benchs: Seq<BenchView>)
    requires
        cmd.len() > 0,
        forall|j: int|
            0 <= j < cmd.len() ==> !has_sigil(#[trigger] cmd[j]) || cmd[j] == "$tacle_exec"@
                || cmd[j] == "$tacle_entry_point"@,
        forall|i: int|
            0 <= i < benchs.len() ==> !has_sigil((#[trigger] benchs[i]).executable) && !has_sigil(
                benchs[i].entry_point,
            ),
    ensures
        bench_tasks(cmd, benchs) is Ok,
        bench_tasks(cmd, benchs)->Ok_0.len() == benchs.len(),
        forall|i: int|
            0 <= i < benchs.len() ==> (#[trigger] bench_tasks(cmd, benchs)->Ok_0[i]).is_completed(),
    decreases benchs.len(),
{
    if benchs.len() > 0 {
        let front = benchs.drop_last();
        let bench = benchs.last();
        assert forall|i: int| 0 <= i < front.len() implies !has_sigil(
            (#[trigger] front[i]).executable,
        ) && !has_sigil(front[i].entry_point) by {
            assert(front[i] == benchs[i]);
        }
        lemma_clean_values_make_tasks(cmd, front);
        let command = bench_command(cmd, bench);
        assert(bench == benchs[benchs.len() - 1]);
        assert forall|j: int| 0 <= j < command.len() implies !has_sigil(#[trigger] command[j]) by {
            assert(command[j] == bench_token(cmd[j], bench));
        }
        let task = TaskView::from_tokens(bench.name, command)->Ok_0;
        assert(task.cmd == command[0]);
        assert forall|k: int| 0 <= k < task.args.len() implies !has_sigil(
            #[trigger] task.args[k],
        ) by {
            assert(task.args[k] == command[k + 1]);
        }
        assert(task.is_completed());
        let before = bench_tasks(cmd, front)->Ok_0;
        let tasks = bench_tasks(cmd, benchs)->Ok_0;
        assert(tasks == before.push(task));
        assert forall|i: int| 0 <= i < benchs.len() implies (#[trigger] tasks[i]).is_completed() by {
            if i < front.len() {
                assert(tasks[i] == before[i]);
            }
        }
    }
}

/// The options of the tool hold no sigil where the properties and the level
/// of the log hold none.
pub proof fn lemma_clean_options(otawa: OTAWAConfigView)
    requires
        forall|k: int| 0 <= k < otawa.props.len() ==> !has_sigil(#[trigger] otawa.props[k]),
        !has_sigil(otawa.log_level),
    ensures
        otawa.options().len() == 2 * otawa.props.len() + 2,
        forall|j: int| 0 <= j < otawa.options().len() ==> !has_sigil(#[trigger] otawa.options()[j]),
{
    reveal_strlit("--add-prop");
    reveal_strlit("--log");
    assert(!has_sigil("--add-prop"@));
    assert(!has_sigil("--log"@));
    let flags = prop_flags(otawa.props);
    assert forall|j: int| 0 <= j < otawa.options().len() implies !has_sigil(
        #[trigger] otawa.options()[j],
    ) by {
        if j < flags.len() {
            assert(otawa.options()[j] == flags[j]);
            if j % 2 != 0 {
                assert(flags[j] == otawa.props[j / 2]);
            }
        }
    }
}

/// A template is no longer than what it is filled to, where each of its
/// tokens gives way to one token at least.
pub proof fn lemma_filled_is_no_shorter<L: ConfigLoaderTrait, M: MainLoaderTrait>(
    script: ScriptView<L, M>,
    template: Seq<Seq<char>>,
)
    requires
        script.filled(template) is Ok,
        forall|i: int|
            0 <= i < template.len() ==> (#[trigger] script.replacement(template[i])) is Ok
                && script.replacement(template[i])->Ok_0.len() >= 1,
    ensures
        script.filled(template)->Ok_0.len() >= template.len(),
    decreases template.len(),
{
    if template.len() > 0 {
        let front = template.drop_last();
        assert forall|i: int| 0 <= i < front.len() implies (#[trigger] script.replacement(
            front[i],
        )) is Ok && script.replacement(front[i])->Ok_0.len() >= 1 by {
            assert(front[i] == template[i]);
        }
        assert(template.last() == template[template.len() - 1]);
        lemma_filled_is_no_shorter(script, front);
    }
}

/// An OTAWA experiment on the TACLe suite expands to a task for each
/// benchmark of the kernel set, each task complete, where
/// - the command has a token, and its tokens that are no placeholders hold
///   no sigil;
/// - each placeholder of the command is claimed, those that OTAWA claims
///   are `$otawa_app` and `$otawa_opts`, and those that the benchmarks claim
///   are `$tacle_exec` and `$tacle_entry_point`;
/// - the path of the tool, its properties and the level of its log hold no
///   sigil, nor do the program and the function of any benchmark of the
///   kernel set, of which there is one at least.
pub proof fn lemma_otawa_tacle_expands(
    script: ScriptView<OTAWAConfigLoader, TACLeConfigLoader>,
    template: Seq<Seq<char>>,
    otawa: OTAWAConfigLoader,
    main: TACLeConfigLoader,
    suite: TACLeView,
)
    requires
        script.claims_disjoint(),
        script.command() == Ok::<Seq<Seq<char>>, ErrorView>(template),
        script.loaders == seq![otawa],
        script.main_loader == Some(main),
        main@.tacle == Some(suite),
        template.len() > 0,
        forall|i: int|
            0 <= i < template.len() && !is_placeholder(#[trigger] template[i]) ==> !has_sigil(
                template[i],
            ),
        forall|i: int|
            0 <= i < template.len() && is_placeholder(#[trigger] template[i]) ==> script.claimed(
                template[i],
            ),
        forall|i: int|
            0 <= i < template.len() && is_placeholder(#[trigger] template[i])
                && otawa@.provided_vars.contains(template[i]) ==> template[i] == "$otawa_app"@
                || template[i] == "$otawa_opts"@,
        forall|i: int|
            0 <= i < template.len() && is_placeholder(#[trigger] template[i])
                && main@.provided_vars.contains(template[i]) ==> template[i] == "$tacle_exec"@
                || template[i] == "$tacle_entry_point"@,
        !has_sigil(otawa@.app_path),
        forall|k: int| 0 <= k < otawa@.props.len() ==> !has_sigil(#[trigger] otawa@.props[k]),
        !has_sigil(otawa@.log_level),
        suite.select(run_benchsets()).len() > 0,
        forall|i: int|
            0 <= i < suite.select(run_benchsets()).len() ==> !has_sigil(
                (#[trigger] suite.select(run_benchsets())[i]).executable,
            ) && !has_sigil(suite.select(run_benchsets())[i].entry_point),
    ensures
        script.expansion() matches Ok(tasks) && tasks.len() == suite.select(run_benchsets()).len()
            && tasks.len() > 0 && forall|j: int|
            0 <= j < tasks.len() ==> (#[trigger] tasks[j]).is_completed(),
{
    let benchs = suite.select(run_benchsets());
    lemma_clean_options(otawa@);
    assert forall|i: int| 0 <= i < template.len() implies (#[trigger] script.replacement(
        template[i],
    )) is Ok && script.replacement(template[i])->Ok_0.len() >= 1 && (is_placeholder(template[i])
        && script.owner(template[i]) is Some ==> forall|j: int|
        0 <= j < script.replacement(template[i])->Ok_0.len() ==> !has_sigil(
            #[trigger] script.replacement(template[i])->Ok_0[j],
        )) by {
        let token = template[i];
        lemma_owner_from(script.loaders, token, 0);
        if is_placeholder(token) && script.owner(token) is Some {
            assert(script.owner(token) == Some(0int));
            assert(script.loaders[0] == otawa);
            assert(otawa@.provided_vars.contains(token));
            if token == "$otawa_app"@ {
                assert(script.replacement(token) == Ok::<Seq<Seq<char>>, ErrorView>(
                    seq![otawa@.app_path],
                ));
            } else {
                reveal_strlit("$otawa_app");
                reveal_strlit("$otawa_opts");
                assert("$otawa_app"@.len() != "$otawa_opts"@.len());
                assert(script.replacement(token) == Ok::<Seq<Seq<char>>, ErrorView>(
                    otawa@.options(),
                ));
            }
        }
    }
    assert forall|i: int|
        0 <= i < template.len() && is_placeholder(#[trigger] template[i]) && script.owner(
            template[i],
        ) is Some implies script.replacement(template[i]) is Ok && forall|j: int|
        0 <= j < script.replacement(template[i])->Ok_0.len() ==> !has_sigil(
            #[trigger] script.replacement(template[i])->Ok_0[j],
        ) by {
        assert(script.replacement(template[i]) is Ok);
    }
    lemma_filled_leaves_only_placeholders(script, template);
    lemma_filled_is_no_shorter(script, template);
    let partial = script.filled(template)->Ok_0;
    assert forall|j: int| 0 <= j < partial.len() implies !has_sigil(#[trigger] partial[j])
        || partial[j] == "$tacle_exec"@ || partial[j] == "$tacle_entry_point"@ by {
        assert(left_for_main(script, template, partial[j]));
        if has_sigil(partial[j]) {
            let token = partial[j];
            let at = choose|at: int| 0 <= at < template.len() && template[at] == token;
            assert(is_placeholder(template[at]));
            assert(script.claimed(token));
            assert(main@.provided_vars.contains(token));
        }
    }
    lemma_clean_values_make_tasks(partial, benchs);
    assert(main.tasks(partial) == bench_tasks(partial, benchs));
    assert forall|i: int| 0 <= i < template.len() implies script.replacement(
        #[trigger] template[i],
    ) is Ok by {
        assert(script.replacement(template[i]) is Ok);
    }
    lemma_claimed_template_expands(script, template, main);
}

} // verus!
