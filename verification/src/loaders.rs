//! The two providers of an OTAWA experiment on the TACLe suite: the analysis
//! tool with its options, and the benchmarks to run it on.

use crate::config::ConfigTable;
use crate::error::ErrorView;
use crate::error::ScriptError;
use crate::script::ConfigLoaderTrait;
use crate::script::LoadableFromConfig;
use crate::script::MainLoaderTrait;
use crate::tacle::Bench;
use crate::tacle::BenchView;
use crate::tacle::TACLe;
use crate::tacle::TACLeView;
use crate::task::Task;
use crate::task::tasks_outcome;
use crate::task::TaskView;
use crate::text::copy_words;
use crate::text::list_holds;
use crate::text::same_text;
use vstd::prelude::*;

verus! {

/// What the document says of OTAWA, under the key `OTAWA`: the placeholders
/// to resolve, the path of the tool, the properties to add and the level of
/// its log.
#[derive(Debug, Clone, PartialEq, Eq)]
pub struct OTAWAConfigLoader {
    provided_vars: Vec<String>,
    app_path: String,
    props: Vec<String>,
    log_level: String,
}

/// An `OTAWAConfigLoader` as a mathematical value.
pub struct OTAWAConfigView {
    pub provided_vars: Seq<Seq<char>>,
    pub app_path: Seq<char>,
    pub props: Seq<Seq<char>>,
    pub log_level: Seq<char>,
}

impl View for OTAWAConfigLoader {
    type V = OTAWAConfigView;

    closed spec fn view(&self) -> OTAWAConfigView {
        OTAWAConfigView {
            provided_vars: self.provided_vars.deep_view(),
            app_path: self.app_path@,
            props: self.props.deep_view(),
            log_level: self.log_level@,
        }
    }
}

/// The options that add `props`: before each property stands `--add-prop`.
pub open spec fn prop_flags(props: Seq<Seq<char>>) -> Seq<Seq<char>> {
    Seq::new(
        2 * props.len(),
        |i: int|
            if i % 2 == 0 {
                "--add-prop"@
            } else {
                props[i / 2]
            },
    )
}

impl OTAWAConfigView {
    /// The options of the tool: the properties to add, then the level of
    /// the log.
    pub open spec fn options(self) -> Seq<Seq<char>> {
        prop_flags(self.props) + seq!["--log"@, self.log_level]
    }

    /// What takes the place of `var_name`: the path of the tool for
    /// `$otawa_app`, its options for `$otawa_opts`. A name that is not
    /// claimed, or is neither of the two, is unknown.
    pub open spec fn terms(self, var_name: Seq<char>) -> Result<Seq<Seq<char>>, ErrorView> {
        if !self.provided_vars.contains(var_name) {
            Err(ErrorView::UnknownPlaceholder(var_name))
        } else if var_name == "$otawa_app"@ {
            Ok(seq![self.app_path])
        } else if var_name == "$otawa_opts"@ {
            Ok(self.options())
        } else {
            Err(ErrorView::UnknownPlaceholder(var_name))
        }
    }
}

/// What a document says of OTAWA. The keys are read in the order of the
/// fields, and the first that is absent or of the wrong shape decides the
/// error.
pub open spec fn otawa_of(config: ConfigTable) -> Result<OTAWAConfigView, ErrorView> {
    match config.table_at("OTAWA"@) {
        Err(e) => Err(e),
        Ok(table) => match table.texts_at("PROVIDED_VARS"@) {
            Err(e) => Err(e),
            Ok(provided_vars) => match table.text_at("app_path"@) {
                Err(e) => Err(e),
                Ok(app_path) => match table.texts_at("props"@) {
                    Err(e) => Err(e),
                    Ok(props) => match table.text_at("log_level"@) {
                        Err(e) => Err(e),
                        Ok(log_level) => Ok(
                            OTAWAConfigView { provided_vars, app_path, props, log_level },
                        ),
                    },
                },
            },
        },
    }
}

impl OTAWAConfigLoader {
    /// Makes the provider from its parts.
    pub fn new(
        provided_vars: Vec<String>,
        app_path: String,
        props: Vec<String>,
        log_level: String,
    ) -> (loader: OTAWAConfigLoader)
        ensures
            loader@ == (OTAWAConfigView {
                provided_vars: provided_vars.deep_view(),
                app_path: app_path@,
                props: props.deep_view(),
                log_level: log_level@,
            }),
    {
        OTAWAConfigLoader { provided_vars, app_path, props, log_level }
    }

    fn options(&self) -> (options: Vec<String>)
        ensures
            options.deep_view() == self@.options(),
    {
        let mut options: Vec<String> = Vec::new();
        let mut i: usize = 0;
        assert(options.deep_view() =~= prop_flags(self@.props.take(0)));
        while i < self.props.len()
            invariant
                i <= self.props@.len(),
                options.deep_view() == prop_flags(self@.props.take(i as int)),
            decreases self.props@.len() - i,
        {
            let ghost before = options.deep_view();
            options.push("--add-prop".to_owned());
            options.push(self.props[i].clone());
            proof {
                let prop = self.props@[i as int]@;
                assert(options.deep_view() =~= before.push("--add-prop"@).push(prop));
                assert(prop_flags(self@.props.take(i + 1)) =~= before.push("--add-prop"@).push(
                    prop,
                ));
            }
            i = i + 1;
        }
        let ghost flags = options.deep_view();
        options.push("--log".to_owned());
        options.push(self.log_level.clone());
        proof {
            assert(self@.props.take(i as int) =~= self@.props);
            assert(options.deep_view() =~= flags.push("--log"@).push(self.log_level@));
            assert(flags + seq!["--log"@, self.log_level@] =~= flags.push("--log"@).push(
                self.log_level@,
            ));
        }
        options
    }
}

impl LoadableFromConfig for OTAWAConfigLoader {
    /// Reads what the document says of OTAWA.
    fn from_config(config: &ConfigTable) -> (r: Result<Self, ScriptError>)
        ensures
            match r {
                Ok(loader) => otawa_of(*config) == Ok::<OTAWAConfigView, ErrorView>(loader@),
                Err(e) => otawa_of(*config) == Err::<OTAWAConfigView, ErrorView>(e@),
            },
    {
        let table = match config.get_table("OTAWA") {
            Ok(table) => table,
            Err(e) => {
                return Err(e);
            },
        };
        let provided_vars = match table.get_str_list("PROVIDED_VARS") {
            Ok(vars) => vars,
            Err(e) => {
                return Err(e);
            },
        };
        let app_path = match table.get_str("app_path") {
            Ok(path) => path,
            Err(e) => {
                return Err(e);
            },
        };
        let props = match table.get_str_list("props") {
            Ok(props) => props,
            Err(e) => {
                return Err(e);
            },
        };
        let log_level = match table.get_str("log_level") {
            Ok(level) => level,
            Err(e) => {
                return Err(e);
            },
        };
        Ok(OTAWAConfigLoader { provided_vars, app_path, props, log_level })
    }
}

impl ConfigLoaderTrait for OTAWAConfigLoader {
    open spec fn provided(&self) -> Seq<Seq<char>> {
        self@.provided_vars
    }

    open spec fn terms(&self, var_name: Seq<char>) -> Result<Seq<Seq<char>>, ErrorView> {
        self@.terms(var_name)
    }

    fn provided_vars(&self) -> (vars: Vec<String>) {
        copy_words(&self.provided_vars)
    }

    fn get_terms(&self, var_name: &str) -> (r: Result<Vec<String>, ScriptError>) {
        if !list_holds(&self.provided_vars, var_name) {
            Err(ScriptError::UnknownPlaceholder(var_name.to_owned()))
        } else if same_text(var_name, "$otawa_app") {
            let mut terms: Vec<String> = Vec::new();
            terms.push(self.app_path.clone());
            assert(terms.deep_view() =~= seq![self.app_path@]);
            Ok(terms)
        } else if same_text(var_name, "$otawa_opts") {
            Ok(self.options())
        } else {
            Err(ScriptError::UnknownPlaceholder(var_name.to_owned()))
        }
    }
}

/// What the document says of the benchmarks, under the key `TACLE`: the
/// placeholders to resolve, the path of the suite's description and the sets
/// to run. The description itself is handed over once it has been read.
#[derive(Debug, Clone, PartialEq, Eq)]
pub struct TACLeConfigLoader {
    provided_vars: Vec<String>,
    tacle_desc_path: String,
    tacle_run_benchset: Vec<String>,
    tacle: Option<TACLe>,
}

/// A `TACLeConfigLoader` as a mathematical value.
pub struct TACLeConfigView {
    pub provided_vars: Seq<Seq<char>>,
    pub tacle_desc_path: Seq<char>,
    pub tacle_run_benchset: Seq<Seq<char>>,
    pub tacle: Option<TACLeView>,
}

impl View for TACLeConfigLoader {
    type V = TACLeConfigView;

    closed spec fn view(&self) -> TACLeConfigView {
        TACLeConfigView {
            provided_vars: self.provided_vars.deep_view(),
            tacle_desc_path: self.tacle_desc_path@,
            tacle_run_benchset: self.tacle_run_benchset.deep_view(),
            tacle: match self.tacle {
                Some(suite) => Some(suite@),
                None => None,
            },
        }
    }
}

/// The sets of benchmarks that are run.
pub open spec fn run_benchsets() -> Seq<Seq<char>> {
    seq!["kernel"@]
}

/// What stands for `token` in the command of `bench`: the program for
/// `$tacle_exec`, the function to start at for `$tacle_entry_point`, and any
/// other token itself.
pub open spec fn bench_token(token: Seq<char>, bench: BenchView) -> Seq<char> {
    if token == "$tacle_exec"@ {
        bench.executable
    } else if token == "$tacle_entry_point"@ {
        bench.entry_point
    } else {
        token
    }
}

/// The command of `bench`: each token of `cmd` with what stands for it.
pub open spec fn bench_command(cmd: Seq<Seq<char>>, bench: BenchView) -> Seq<Seq<char>> {
    cmd.map_values(|token: Seq<char>| bench_token(token, bench))
}

/// The task of `bench`, which bears the benchmark's name. A command without
/// a token gives no task, nor does one in which a sigil is left.
pub open spec fn bench_task(cmd: Seq<Seq<char>>, bench: BenchView) -> Result<TaskView, ErrorView> {
    match TaskView::from_tokens(bench.name, bench_command(cmd, bench)) {
        Err(e) => Err(e),
        Ok(task) => if task.is_completed() {
            Ok(task)
        } else {
            Err(ErrorView::IncompleteTask { name: task.name, remaining_args: task.args })
        },
    }
}

/// The tasks of `benchs`, one for each benchmark and in their order. The
/// first benchmark without a task decides the error.
pub open spec fn bench_tasks(cmd: Seq<Seq<char>>, benchs: Seq<BenchView>) -> Result<
    Seq<TaskView>,
    ErrorView,
>
    decreases benchs.len(),
{
    if benchs.len() == 0 {
        Ok(Seq::empty())
    } else {
        match bench_tasks(cmd, benchs.drop_last()) {
            Err(e) => Err(e),
            Ok(tasks) => match bench_task(cmd, benchs.last()) {
                Err(e) => Err(e),
                Ok(task) => Ok(tasks.push(task)),
            },
        }
    }
}

impl TACLeConfigView {
    /// The tasks that `cmd` stands for: those of the benchmarks of the sets
    /// that are run. Without the suite's description there are none.
    pub open spec fn tasks(self, cmd: Seq<Seq<char>>) -> Result<Seq<TaskView>, ErrorView> {
        match self.tacle {
            None => Err(ErrorView::MissingDescription(self.tacle_desc_path)),
            Some(suite) => bench_tasks(cmd, suite.select(run_benchsets())),
        }
    }
}

/// What a document says of the benchmarks. The keys are read in the order of
/// the fields, and the first that is absent or of the wrong shape decides
/// the error.
pub open spec fn tacle_of(config: ConfigTable) -> Result<TACLeConfigView, ErrorView> {
    match config.table_at("TACLE"@) {
        Err(e) => Err(e),
        Ok(table) => match table.texts_at("PROVIDED_VARS"@) {
            Err(e) => Err(e),
            Ok(provided_vars) => match table.text_at("tacle_desc_path"@) {
                Err(e) => Err(e),
                Ok(tacle_desc_path) => match table.texts_at("tacle_run_benchset"@) {
                    Err(e) => Err(e),
                    Ok(tacle_run_benchset) => Ok(
                        TACLeConfigView {
                            provided_vars,
                            tacle_desc_path,
                            tacle_run_benchset,
                            tacle: None,
                        },
                    ),
                },
            },
        },
    }
}

/// An error at one benchmark is the error of the list.
pub proof fn lemma_bench_tasks_prefix(cmd: Seq<Seq<char>>, benchs: Seq<BenchView>, n: int)
    requires
        0 <= n <= benchs.len(),
        bench_tasks(cmd, benchs.take(n)) is Err,
    ensures
        bench_tasks(cmd, benchs) == bench_tasks(cmd, benchs.take(n)),
    decreases benchs.len() - n,
{
    if n < benchs.len() {
        assert(benchs.take(n + 1).drop_last() =~= benchs.take(n));
        lemma_bench_tasks_prefix(cmd, benchs, n + 1);
    } else {
        assert(benchs.take(n) =~= benchs);
    }
}

fn command_of(cmd: &Vec<String>, bench: &Bench) -> (tokens: Vec<String>)
    ensures
        tokens.deep_view() == bench_command(cmd.deep_view(), bench@),
{
    let mut tokens: Vec<String> = Vec::new();
    let mut i: usize = 0;
    while i < cmd.len()
        invariant
            i <= cmd@.len(),
            tokens.deep_view() == bench_command(cmd.deep_view().take(i as int), bench@),
        decreases cmd@.len() - i,
    {
        let term = cmd[i].as_str();
        let token = if same_text(term, "$tacle_exec") {
            bench.executable.clone()
        } else if same_text(term, "$tacle_entry_point") {
            bench.entry_point.clone()
        } else {
            cmd[i].clone()
        };
        let ghost before = tokens.deep_view();
        let ghost added = token@;
        tokens.push(token);
        proof {
            assert(tokens.deep_view() =~= before.push(added));
            assert(bench_command(cmd.deep_view().take(i + 1), bench@) =~= before.push(added));
        }
        i = i + 1;
    }
    assert(cmd.deep_view().take(i as int) =~= cmd.deep_view());
    tokens
}

/// Makes the task of each of `benchs` from `cmd`.
pub fn tasks_of(cmd: &Vec<String>, benchs: &Vec<Bench>) -> (r: Result<Vec<Task>, ScriptError>)
    ensures
        tasks_outcome(r) == bench_tasks(cmd.deep_view(), benchs.deep_view()),
{
    let mut tasks: Vec<Task> = Vec::new();
    let mut i: usize = 0;
    assert(tasks.deep_view() =~= Seq::<TaskView>::empty());
    while i < benchs.len()
        invariant
            i <= benchs@.len(),
            bench_tasks(cmd.deep_view(), benchs.deep_view().take(i as int)) == Ok::<
                Seq<TaskView>,
                ErrorView,
            >(tasks.deep_view()),
        decreases benchs@.len() - i,
    {
        proof {
            assert(benchs.deep_view().take(i + 1).drop_last() =~= benchs.deep_view().take(i as int));
            assert(benchs.deep_view().take(i + 1).last() == benchs@[i as int]@);
        }
        let bench = &benchs[i];
        let tokens = command_of(cmd, bench);
        let task = match Task::from_tokens(bench.name.clone(), &tokens) {
            Ok(task) => task,
            Err(e) => {
                proof {
                    lemma_bench_tasks_prefix(cmd.deep_view(), benchs.deep_view(), i + 1);
                }
                return Err(e);
            },
        };
        if !task.is_completed() {
            proof {
                lemma_bench_tasks_prefix(cmd.deep_view(), benchs.deep_view(), i + 1);
            }
            return Err(
                ScriptError::IncompleteTask { name: task.name, remaining_args: task.args },
            );
        }
        let ghost before = tasks.deep_view();
        let ghost added = task@;
        tasks.push(task);
        assert(tasks.deep_view() =~= before.push(added));
        i = i + 1;
    }
    assert(benchs.deep_view().take(i as int) =~= benchs.deep_view());
    Ok(tasks)
}

impl TACLeConfigLoader {
    /// Makes the provider from its parts, the suite's description among them.
    pub fn new(
        provided_vars: Vec<String>,
        tacle_desc_path: String,
        tacle_run_benchset: Vec<String>,
        tacle: TACLe,
    ) -> (loader: TACLeConfigLoader)
        ensures
            loader@ == (TACLeConfigView {
                provided_vars: provided_vars.deep_view(),
                tacle_desc_path: tacle_desc_path@,
                tacle_run_benchset: tacle_run_benchset.deep_view(),
                tacle: Some(tacle@),
            }),
    {
        TACLeConfigLoader { provided_vars, tacle_desc_path, tacle_run_benchset, tacle: Some(tacle) }
    }

    /// The path at which the document says the suite's description lies.
    pub fn tacle_desc_path(&self) -> (path: &String)
        ensures
            path@ == self@.tacle_desc_path,
    {
        &self.tacle_desc_path
    }

    /// Hands the suite's description over.
    pub fn set_description(&mut self, suite: TACLe)
        ensures
            final(self)@ == (TACLeConfigView { tacle: Some(suite@), ..old(self)@ }),
    {
        self.tacle = Some(suite);
    }
}

impl LoadableFromConfig for TACLeConfigLoader {
    /// Reads what the document says of the benchmarks. The suite's
    /// description is still to be handed over.
    fn from_config(config: &ConfigTable) -> (r: Result<Self, ScriptError>)
        ensures
            match r {
                Ok(loader) => tacle_of(*config) == Ok::<TACLeConfigView, ErrorView>(loader@),
                Err(e) => tacle_of(*config) == Err::<TACLeConfigView, ErrorView>(e@),
            },
    {
        let table = match config.get_table("TACLE") {
            Ok(table) => table,
            Err(e) => {
                return Err(e);
            },
        };
        let provided_vars = match table.get_str_list("PROVIDED_VARS") {
            Ok(vars) => vars,
            Err(e) => {
                return Err(e);
            },
        };
        let tacle_desc_path = match table.get_str("tacle_desc_path") {
            Ok(path) => path,
            Err(e) => {
                return Err(e);
            },
        };
        let tacle_run_benchset = match table.get_str_list("tacle_run_benchset") {
            Ok(sets) => sets,
            Err(e) => {
                return Err(e);
            },
        };
        Ok(TACLeConfigLoader { provided_vars, tacle_desc_path, tacle_run_benchset, tacle: None })
    }
}

impl MainLoaderTrait for TACLeConfigLoader {
    open spec fn provided(&self) -> Seq<Seq<char>> {
        self@.provided_vars
    }

    open spec fn tasks(&self, cmd: Seq<Seq<char>>) -> Result<Seq<TaskView>, ErrorView> {
        self@.tasks(cmd)
    }

    fn provided_vars(&self) -> (vars: Vec<String>) {
        copy_words(&self.provided_vars)
    }

    fn fill(&self, cmd: &Vec<String>) -> (r: Result<Vec<Task>, ScriptError>) {
        match &self.tacle {
            None => Err(ScriptError::MissingDescription(self.tacle_desc_path.clone())),
            Some(suite) => {
                let mut names: Vec<String> = Vec::new();
                names.push("kernel".to_owned());
                assert(names.deep_view() =~= run_benchsets());
                let benchs = suite.select_bench(&names);
                tasks_of(cmd, &benchs)
            },
        }
    }
}

} // verus!
